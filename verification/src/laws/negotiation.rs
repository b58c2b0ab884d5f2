//! What the video filter makes of descriptions, flags and formats.

use crate::caps::{CapsModel, FieldModel, StructureModel};
use crate::ntscrs_filter::{
    field_order_name, input_description, interlaced_flags, layout_of, output_description,
    pad_formats, NtscFilter, PadDirection, Swizzle, TransformModel, UseField, VideoFieldOrder,
    VideoFormat,
};
use vstd::prelude::*;

verus! {

/// The structure says in the field `name` that its value is this text.
pub open spec fn says(structure: StructureModel, name: Seq<char>, text: Seq<char>) -> bool {
    structure.fields.dom().contains(name) && structure.fields[name] == FieldModel::Text(text)
}

/// Both structures say the same of everything but these two fields.
pub open spec fn same_but(
    a: StructureModel,
    b: StructureModel,
    one: Seq<char>,
    other: Seq<char>,
) -> bool {
    &&& a.name == b.name
    &&& a.features == b.features
    &&& forall|name: Seq<char>|
        name != one && name != other ==> {
            &&& (#[trigger] a.fields.dom().contains(name) <==> b.fields.dom().contains(name))
            &&& (a.fields.dom().contains(name) ==> a.fields[name] == b.fields[name])
        }
}

/// The names of the field orders.
pub proof fn lemma_field_order_names()
    ensures
        field_order_name(VideoFieldOrder::TopFieldFirst) == "top-field-first"@,
        field_order_name(VideoFieldOrder::BottomFieldFirst) == "bottom-field-first"@,
{
}

/// A structure whose interlace mode is any text but `progressive` comes out as it went in. Any other comes
/// out interleaved, in the forced order, and says the same of everything else.
pub proof fn lemma_what_becomes_of_the_input(
    caps: CapsModel,
    order: VideoFieldOrder,
    i: int,
    mode: Seq<char>,
)
    requires
        0 <= i < caps.structures.len(),
    ensures
        ({
            let before = caps.structures[i];
            let output = output_description(caps, order);
            let after = output.structures[i];
            let mode_field = "interlace-mode"@;
            &&& output.any == caps.any
            &&& output.structures.len() == caps.structures.len()
            &&& says(before, mode_field, mode) && mode != "progressive"@ ==> after == before
            &&& says(before, mode_field, "progressive"@) || !before.fields.dom().contains(
                mode_field,
            ) || !(before.fields[mode_field] is Text) ==> {
                &&& says(after, mode_field, "interleaved"@)
                &&& says(
                    after,
                    "field-order"@,
                    match order {
                        VideoFieldOrder::TopFieldFirst => "top-field-first"@,
                        VideoFieldOrder::BottomFieldFirst => "bottom-field-first"@,
                    },
                )
                &&& same_but(after, before, mode_field, "field-order"@)
            }
        }),
{
    reveal_strlit("interlace-mode");
    reveal_strlit("field-order");
    assert("interlace-mode"@[0] != "field-order"@[0]);
}

/// The input that an output allows is the output itself, and then the same as progressive video, which has
/// no field order. Nothing else is allowed.
pub proof fn lemma_what_input_is_allowed(caps: CapsModel, i: int)
    requires
        0 <= i < caps.structures.len(),
    ensures
        ({
            let input = input_description(caps);
            let n = caps.structures.len();
            let progressive = input.structures[n + i];
            &&& input.any == caps.any
            &&& input.structures.len() == n + n
            &&& input.structures[i] == caps.structures[i]
            &&& says(progressive, "interlace-mode"@, "progressive"@)
            &&& !progressive.fields.dom().contains("field-order"@)
            &&& same_but(progressive, caps.structures[i], "interlace-mode"@, "field-order"@)
        }),
{
    reveal_strlit("interlace-mode");
    reveal_strlit("field-order");
    assert("interlace-mode"@[0] != "field-order"@[0]);
}

/// What forces a field order, and which.
pub proof fn lemma_forced_order(filter: NtscFilter)
    ensures
        filter.forced_order() == Some(VideoFieldOrder::TopFieldFirst)
            <==> filter.force_interlaced_output && filter.settings.use_field
            == UseField::InterleavedUpper,
        filter.forced_order() == Some(VideoFieldOrder::BottomFieldFirst)
            <==> filter.force_interlaced_output && filter.settings.use_field
            == UseField::InterleavedLower,
{
}

/// Without a forced order the filter does as all filters do. With one, it answers for the input with what
/// comes out of it, for the output with what may go in, and for an unknown end with nothing; with a filter
/// in the request, as far as that allows.
pub proof fn lemma_answers_for_each_end(
    filter: NtscFilter,
    caps: CapsModel,
    direction: PadDirection,
    filtered: bool,
)
    ensures
        filter.transform(direction, caps, filtered) is Default <==> filter.forced_order() is None,
        filter.transform(direction, caps, filtered) is Refuse <==> filter.forced_order() is Some
            && direction == PadDirection::Unknown,
        filter.forced_order() matches Some(order) ==> {
            &&& filter.transform(PadDirection::Sink, caps, false) == TransformModel::Caps(
                output_description(caps, order),
            )
            &&& filter.transform(PadDirection::Sink, caps, true) == TransformModel::Intersect(
                output_description(caps, order),
            )
            &&& filter.transform(PadDirection::Src, caps, false) == TransformModel::Caps(
                input_description(caps),
            )
            &&& filter.transform(PadDirection::Src, caps, true) == TransformModel::Intersect(
                input_description(caps),
            )
        },
{
}

/// What comes out of the filter may also go in: of each structure of the output, the filter allows the very
/// same as input.
pub proof fn lemma_output_may_go_in(caps: CapsModel, order: VideoFieldOrder, i: int)
    requires
        0 <= i < caps.structures.len(),
    ensures
        ({
            let output = output_description(caps, order);
            input_description(output).structures[i] == output.structures[i]
        }),
        output_description(output_description(caps, order), order) == output_description(
            caps,
            order,
        ),
{
    let once = output_description(caps, order);
    reveal_strlit("interlace-mode");
    reveal_strlit("field-order");
    reveal_strlit("interleaved");
    reveal_strlit("progressive");
    assert("interleaved"@[0] != "progressive"@[0]);
    assert("interlace-mode"@[0] != "field-order"@[0]);
    assert(output_description(once, order) =~= once);
}

/// Of the flags for interlaced output, those on interlacing are off but for the one that says that the top
/// field is first. It is on or off as the order says. The others stay.
pub proof fn lemma_flags_of_interlaced_output(flags: u32)
    ensures
        ({
            let top = interlaced_flags(flags, VideoFieldOrder::TopFieldFirst);
            let bottom = interlaced_flags(flags, VideoFieldOrder::BottomFieldFirst);
            &&& bottom & 0x00f0_0000u32 == 0
            &&& top & 0x00f0_0000u32 == 0x0020_0000
            &&& bottom & 0xff0f_ffffu32 == flags & 0xff0f_ffffu32
            &&& top & 0xff0f_ffffu32 == flags & 0xff0f_ffffu32
        }),
{
    assert({
        let cleared = flags & !0x00f0_0000u32;
        &&& cleared & 0x00f0_0000u32 == 0
        &&& (cleared | 0x0020_0000u32) & 0x00f0_0000u32 == 0x0020_0000
        &&& cleared & 0xff0f_ffffu32 == flags & 0xff0f_ffffu32
        &&& (cleared | 0x0020_0000u32) & 0xff0f_ffffu32 == flags & 0xff0f_ffffu32
    }) by (bit_vector);
}

/// The components of a pixel of this format, in the order in which they stand in memory. The letter `x`
/// stands for the one that is not a colour.
pub open spec fn components(format: VideoFormat) -> Seq<char> {
    match format {
        VideoFormat::Rgbx | VideoFormat::Rgba => seq!['r', 'g', 'b', 'x'],
        VideoFormat::Bgrx | VideoFormat::Bgra => seq!['b', 'g', 'r', 'x'],
        VideoFormat::Xrgb | VideoFormat::Argb | VideoFormat::Argb64 => seq!['x', 'r', 'g', 'b'],
        VideoFormat::Xbgr | VideoFormat::Abgr => seq!['x', 'b', 'g', 'r'],
        VideoFormat::Other => seq![],
    }
}

/// The components in the order in which a layout has them.
pub open spec fn swizzled(swizzle: Swizzle) -> Seq<char> {
    match swizzle {
        Swizzle::Rgbx => seq!['r', 'g', 'b', 'x'],
        Swizzle::Bgrx => seq!['b', 'g', 'r', 'x'],
        Swizzle::Xrgb => seq!['x', 'r', 'g', 'b'],
        Swizzle::Xbgr => seq!['x', 'b', 'g', 'r'],
    }
}

/// Each format that is known is processed with its components in their places and at its depth, and no
/// other is.
pub proof fn lemma_components_are_in_their_places(format: VideoFormat)
    ensures
        layout_of(format) is None <==> format == VideoFormat::Other,
        layout_of(format) matches Some(layout) ==> {
            &&& swizzled(layout.swizzle) == components(format)
            &&& layout.depth == 16 <==> format == VideoFormat::Argb64
            &&& layout.depth == 8 <==> format != VideoFormat::Argb64
        },
{
}

/// Which formats the pads offer: of those that can be processed, all but two, and each once.
pub proof fn lemma_offered_formats(format: VideoFormat)
    ensures
        pad_formats().contains(format) <==> layout_of(format) is Some && format
            != VideoFormat::Argb && format != VideoFormat::Abgr,
        pad_formats().no_duplicates(),
{
    let formats = pad_formats();
    assert(formats[0] == VideoFormat::Rgbx);
    assert(formats[1] == VideoFormat::Rgba);
    assert(formats[2] == VideoFormat::Bgrx);
    assert(formats[3] == VideoFormat::Bgra);
    assert(formats[4] == VideoFormat::Xrgb);
    assert(formats[5] == VideoFormat::Xbgr);
    assert(formats[6] == VideoFormat::Argb64);
    assert(formats.len() == 7);
}

} // verus!
