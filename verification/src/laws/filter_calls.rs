//! What calls of the video filter do.

use crate::caps::Caps;
use crate::image_freeze::FlowError;
use crate::laws::negotiation::{components, lemma_what_becomes_of_the_input, says, swizzled};
use crate::ntscrs_filter::{
    interlaced_flags, pad_formats, template_formats, NtscFilter, NtscFilterSettings, PadDirection,
    PixelLayout, TransformAction, TransformModel, UseField, VideoFieldOrder, VideoFormat,
    VideoInterlaceMode,
};
use vstd::prelude::*;

verus! {

/// A new filter forces nothing and knows nothing of its input.
pub proof fn lemma_new_filter(
    settings: NtscFilterSettings,
    filter: NtscFilter,
    order: Option<VideoFieldOrder>,
)
    requires
        call_ensures(NtscFilter::new, (settings,), filter),
        call_ensures(NtscFilter::output_field_order, (&filter,), order),
    ensures
        filter.settings == settings,
        filter.info is None,
        !filter.force_interlaced_output,
        order is None,
{
}

/// The order that is forced, and its name.
pub proof fn lemma_order(
    filter: NtscFilter,
    order: Option<VideoFieldOrder>,
    some: VideoFieldOrder,
    name: &'static str,
)
    requires
        call_ensures(NtscFilter::output_field_order, (&filter,), order),
        call_ensures(VideoFieldOrder::to_str, (&some,), name),
    ensures
        order == (if !filter.force_interlaced_output {
            None
        } else if filter.settings.use_field == UseField::InterleavedUpper {
            Some(VideoFieldOrder::TopFieldFirst)
        } else if filter.settings.use_field == UseField::InterleavedLower {
            Some(VideoFieldOrder::BottomFieldFirst)
        } else {
            None
        }),
        some == VideoFieldOrder::TopFieldFirst ==> name@ == "top-field-first"@,
        some == VideoFieldOrder::BottomFieldFirst ==> name@ == "bottom-field-first"@,
{
}

/// New settings are kept, and the output is negotiated anew if and only if they force another order.
pub proof fn lemma_set_settings(
    filter: &mut NtscFilter,
    settings: NtscFilterSettings,
    reconfigure: bool,
    before: Option<VideoFieldOrder>,
    after: Option<VideoFieldOrder>,
)
    requires
        call_ensures(NtscFilter::set_settings, (filter, settings), reconfigure),
        call_ensures(NtscFilter::output_field_order, (&*old(filter),), before),
        call_ensures(NtscFilter::output_field_order, (final(filter),), after),
    ensures
        final(filter).settings == settings,
        final(filter).info == old(filter).info,
        final(filter).force_interlaced_output == old(filter).force_interlaced_output,
        reconfigure <==> before != after,
{
}

/// What is forced and how the input is interlaced is kept as it was told, and nothing else changes.
pub proof fn lemma_set_force_and_info(
    filter: &mut NtscFilter,
    force: bool,
    other: &mut NtscFilter,
    mode: VideoInterlaceMode,
)
    requires
        call_ensures(NtscFilter::set_force_interlaced_output, (filter, force), ()),
        call_ensures(NtscFilter::set_info, (other, mode), ()),
    ensures
        *final(filter) == (NtscFilter { force_interlaced_output: force, ..*old(filter) }),
        *final(other) == (NtscFilter { info: Some(mode), ..*old(other) }),
{
}

/// Where an order is forced, a structure of the input whose interlace mode is any text but `progressive`
/// comes out as it went in, and one that is progressive comes out interleaved, in that order.
pub proof fn lemma_transform_caps_of_the_input(
    filter: NtscFilter,
    caps: Caps,
    other: Caps,
    i: int,
    mode: Seq<char>,
)
    requires
        call_ensures(
            NtscFilter::transform_caps,
            (&filter, PadDirection::Sink, &caps, false),
            TransformAction::Caps(other),
        ),
        0 <= i < caps@.structures.len(),
        says(caps@.structures[i], "interlace-mode"@, mode),
    ensures
        filter.force_interlaced_output,
        other@.structures.len() == caps@.structures.len(),
        mode != "progressive"@ ==> other@.structures[i] == caps@.structures[i],
        mode == "progressive"@ ==> {
            &&& says(other@.structures[i], "interlace-mode"@, "interleaved"@)
            &&& filter.settings.use_field == UseField::InterleavedUpper ==> says(
                other@.structures[i],
                "field-order"@,
                "top-field-first"@,
            )
            &&& filter.settings.use_field == UseField::InterleavedLower ==> says(
                other@.structures[i],
                "field-order"@,
                "bottom-field-first"@,
            )
        },
{
    let order = filter.forced_order()->0;
    assert(TransformAction::Caps(other)@ == TransformModel::Caps(other@));
    lemma_what_becomes_of_the_input(caps@, order, i, mode);
}

/// What is to be done with a description, and what that holds.
pub proof fn lemma_transform_caps(
    filter: NtscFilter,
    direction: PadDirection,
    caps: Caps,
    filtered: bool,
    action: TransformAction,
)
    requires
        call_ensures(NtscFilter::transform_caps, (&filter, direction, &caps, filtered), action),
    ensures
        action@ == filter.transform(direction, caps@, filtered),
        match action {
            TransformAction::Default => action@ is Default,
            TransformAction::Refuse => action@ is Refuse,
            TransformAction::Caps(other) => action@ == TransformModel::Caps(other@),
            TransformAction::Intersect(other) => action@ == TransformModel::Intersect(other@),
        },
        action is Intersect ==> filtered,
        action is Caps ==> !filtered,
{
}

/// Flags change only where an order is forced and the input is progressive.
pub proof fn lemma_copy_metadata(
    filter: NtscFilter,
    flags: u32,
    after: u32,
    order: Option<VideoFieldOrder>,
)
    requires
        call_ensures(NtscFilter::copy_metadata, (&filter, flags), after),
        call_ensures(NtscFilter::output_field_order, (&filter,), order),
    ensures
        filter.info != Some(VideoInterlaceMode::Progressive) || order is None ==> after == flags,
        filter.info == Some(VideoInterlaceMode::Progressive) ==> (order matches Some(some)
            ==> after == interlaced_flags(flags, some)),
{
}

/// Known formats are processed with their components in their places and at their depth. Others are not
/// supported. The formats on offer are known.
pub proof fn lemma_transform_frame(
    format: VideoFormat,
    layout: Result<PixelLayout, FlowError>,
    offered: Vec<VideoFormat>,
)
    requires
        call_ensures(NtscFilter::transform_frame, (format,), layout),
        call_ensures(template_formats, (), offered),
    ensures
        format == VideoFormat::Other <==> layout is Err,
        layout matches Err(error) ==> error == FlowError::NotSupported,
        layout matches Ok(some) ==> {
            &&& swizzled(some.swizzle) == components(format)
            &&& some.depth == if format == VideoFormat::Argb64 {
                16
            } else {
                8int
            }
        },
        offered@ == pad_formats(),
        offered@.contains(format) ==> layout is Ok,
{
}

} // verus!
