//! A video filter that applies the NTSC effect.
//!
//! If it is told to, the filter marks progressive input as interlaced output. Both fields of each
//! input frame make up one output frame. The pixels and the framerate stay as they are: only the
//! description of the stream and the flags of its buffers change. Input that is already interlaced
//! keeps its field order.

use crate::caps::{
    with_field, without_field, Caps, CapsModel, FieldModel, FieldValue, Structure,
    StructureModel,
};
use crate::image_freeze::FlowError;
use crate::text::same_text;
use vstd::prelude::*;

verus! {

/// The flag of a buffer that is interlaced, where the stream mixes both kinds.
pub const VIDEO_FLAG_INTERLACED: u32 = 0x10_0000;

/// The flag of a buffer whose first field is the top one.
pub const VIDEO_FLAG_TFF: u32 = 0x20_0000;

/// The flag of a buffer whose first field is repeated.
pub const VIDEO_FLAG_RFF: u32 = 0x40_0000;

/// The flag of a buffer that holds one field only.
pub const VIDEO_FLAG_ONEFIELD: u32 = 0x80_0000;

/// The flags that tell how a buffer is interlaced.
pub const VIDEO_FLAGS_INTERLACING: u32 = 0xf0_0000;

/// Which fields of a frame the effect works on.
#[derive(Clone, Copy, PartialEq, Eq, Structural, Debug)]
pub enum UseField {
    /// Both, interleaved, the upper one first.
    InterleavedUpper,
    /// Both, interleaved, the lower one first.
    InterleavedLower,
    /// Any other choice.
    Other,
}

/// The settings of the effect, as far as they decide about the stream.
#[derive(Clone, Copy, PartialEq, Eq, Structural, Debug)]
pub struct NtscFilterSettings {
    pub use_field: UseField,
}

/// The field of an interlaced frame that is shown first.
#[derive(Clone, Copy, PartialEq, Eq, Structural, Debug)]
pub enum VideoFieldOrder {
    TopFieldFirst,
    BottomFieldFirst,
}

/// How the lines of a stream are laid out in time.
#[derive(Clone, Copy, PartialEq, Eq, Structural, Debug)]
pub enum VideoInterlaceMode {
    Progressive,
    Interleaved,
    Mixed,
    Fields,
    Alternate,
    Other,
}

/// The end of the filter that a description belongs to.
#[derive(Clone, Copy, PartialEq, Eq, Structural, Debug)]
pub enum PadDirection {
    Unknown,
    Src,
    Sink,
}

/// The layout of a pixel in memory.
#[derive(Clone, Copy, PartialEq, Eq, Structural, Debug)]
pub enum VideoFormat {
    Rgbx,
    Rgba,
    Bgrx,
    Bgra,
    Xrgb,
    Argb,
    Xbgr,
    Abgr,
    Argb64,
    Other,
}

/// The order of the components of a pixel, `x` being the one that is left alone.
#[derive(Clone, Copy, PartialEq, Eq, Structural, Debug)]
pub enum Swizzle {
    Rgbx,
    Bgrx,
    Xrgb,
    Xbgr,
}

/// How to process the pixels of a frame.
#[derive(Clone, Copy, PartialEq, Eq, Structural, Debug)]
pub struct PixelLayout {
    pub swizzle: Swizzle,
    /// The bits of a component.
    pub depth: u8,
}

/// The video filter.
#[derive(Clone, Copy, PartialEq, Eq, Debug)]
pub struct NtscFilter {
    /// How the input is interlaced, once that is known.
    pub info: Option<VideoInterlaceMode>,
    pub settings: NtscFilterSettings,
    pub force_interlaced_output: bool,
}

/// What a description becomes on the other end of the filter.
#[derive(Debug, PartialEq, Eq)]
pub enum TransformAction {
    /// What every filter makes of it.
    Default,
    /// Nothing.
    Refuse,
    /// This.
    Caps(Caps),
    /// What the filter of the request and this have in common, in the order of the filter.
    Intersect(Caps),
}

/// What a [`TransformAction`] holds.
pub enum TransformModel {
    Default,
    Refuse,
    Caps(CapsModel),
    Intersect(CapsModel),
}

impl View for TransformAction {
    type V = TransformModel;

    open spec fn view(&self) -> TransformModel {
        match self {
            TransformAction::Default => TransformModel::Default,
            TransformAction::Refuse => TransformModel::Refuse,
            TransformAction::Caps(caps) => TransformModel::Caps(caps@),
            TransformAction::Intersect(caps) => TransformModel::Intersect(caps@),
        }
    }
}

/// The name of a field order in a description.
pub open spec fn field_order_name(order: VideoFieldOrder) -> Seq<char> {
    match order {
        VideoFieldOrder::TopFieldFirst => "top-field-first"@,
        VideoFieldOrder::BottomFieldFirst => "bottom-field-first"@,
    }
}

impl VideoFieldOrder {
    /// The name of the field order in a description.
    pub fn to_str(&self) -> (r: &'static str)
        ensures
            r@ == field_order_name(*self),
    {
        match self {
            VideoFieldOrder::TopFieldFirst => "top-field-first",
            VideoFieldOrder::BottomFieldFirst => "bottom-field-first",
        }
    }
}

/// The structure describes video that is interlaced already.
pub open spec fn interlaced_already(structure: StructureModel) -> bool {
    &&& structure.fields.dom().contains("interlace-mode"@)
    &&& structure.fields["interlace-mode"@] matches FieldModel::Text(mode)
    &&& mode != "progressive"@
}

/// What a structure of the input becomes on output.
pub open spec fn interlaced(structure: StructureModel, order: VideoFieldOrder) -> StructureModel {
    if interlaced_already(structure) {
        structure
    } else {
        with_field(
            with_field(structure, "interlace-mode"@, FieldModel::Text("interleaved"@)),
            "field-order"@,
            FieldModel::Text(field_order_name(order)),
        )
    }
}

/// The progressive input that becomes a structure of the output.
pub open spec fn progressive(structure: StructureModel) -> StructureModel {
    without_field(
        with_field(structure, "interlace-mode"@, FieldModel::Text("progressive"@)),
        "field-order"@,
    )
}

/// What a description of the input becomes on output.
pub open spec fn output_description(caps: CapsModel, order: VideoFieldOrder) -> CapsModel {
    CapsModel {
        structures: caps.structures.map_values(
            |structure: StructureModel| interlaced(structure, order),
        ),
        ..caps
    }
}

/// What input a description of the output allows: what it says, or its progressive counterpart.
pub open spec fn input_description(caps: CapsModel) -> CapsModel {
    CapsModel {
        structures: caps.structures + caps.structures.map_values(
            |structure: StructureModel| progressive(structure),
        ),
        ..caps
    }
}

/// The flags of a buffer of progressive input that is put out as interlaced.
pub open spec fn interlaced_flags(flags: u32, order: VideoFieldOrder) -> u32 {
    let cleared = flags & !VIDEO_FLAGS_INTERLACING;
    if order == VideoFieldOrder::TopFieldFirst {
        cleared | VIDEO_FLAG_TFF
    } else {
        cleared
    }
}

/// How to process pixels of a format.
pub open spec fn layout_of(format: VideoFormat) -> Option<PixelLayout> {
    match format {
        VideoFormat::Rgbx | VideoFormat::Rgba => Some(
            PixelLayout { swizzle: Swizzle::Rgbx, depth: 8 },
        ),
        VideoFormat::Bgrx | VideoFormat::Bgra => Some(
            PixelLayout { swizzle: Swizzle::Bgrx, depth: 8 },
        ),
        VideoFormat::Xrgb | VideoFormat::Argb => Some(
            PixelLayout { swizzle: Swizzle::Xrgb, depth: 8 },
        ),
        VideoFormat::Xbgr | VideoFormat::Abgr => Some(
            PixelLayout { swizzle: Swizzle::Xbgr, depth: 8 },
        ),
        VideoFormat::Argb64 => Some(PixelLayout { swizzle: Swizzle::Xrgb, depth: 16 }),
        VideoFormat::Other => None,
    }
}

/// The formats that the pads of the filter offer.
pub open spec fn pad_formats() -> Seq<VideoFormat> {
    seq![
        VideoFormat::Rgbx,
        VideoFormat::Rgba,
        VideoFormat::Bgrx,
        VideoFormat::Bgra,
        VideoFormat::Xrgb,
        VideoFormat::Xbgr,
        VideoFormat::Argb64,
    ]
}

/// The formats that the pads of the filter offer.
pub fn template_formats() -> (r: Vec<VideoFormat>)
    ensures
        r@ == pad_formats(),
{
    let r = vec![
        VideoFormat::Rgbx,
        VideoFormat::Rgba,
        VideoFormat::Bgrx,
        VideoFormat::Bgra,
        VideoFormat::Xrgb,
        VideoFormat::Xbgr,
        VideoFormat::Argb64,
    ];
    assert(r@ =~= pad_formats());
    r
}

impl NtscFilter {
    /// The field order that the output is forced to have.
    pub open spec fn forced_order(self) -> Option<VideoFieldOrder> {
        if !self.force_interlaced_output {
            None
        } else {
            match self.settings.use_field {
                UseField::InterleavedUpper => Some(VideoFieldOrder::TopFieldFirst),
                UseField::InterleavedLower => Some(VideoFieldOrder::BottomFieldFirst),
                UseField::Other => None,
            }
        }
    }

    /// A filter with these settings that leaves the stream as it is.
    pub fn new(settings: NtscFilterSettings) -> (r: Self)
        ensures
            r == (NtscFilter { info: None, settings, force_interlaced_output: false }),
    {
        NtscFilter { info: None, settings, force_interlaced_output: false }
    }

    /// The field order that the output is forced to have, if any.
    pub fn output_field_order(&self) -> (r: Option<VideoFieldOrder>)
        ensures
            r == self.forced_order(),
    {
        if !self.force_interlaced_output {
            return None;
        }
        match self.settings.use_field {
            UseField::InterleavedUpper => Some(VideoFieldOrder::TopFieldFirst),
            UseField::InterleavedLower => Some(VideoFieldOrder::BottomFieldFirst),
            UseField::Other => None,
        }
    }

    /// Changes the settings. The result tells whether the output has to be negotiated anew.
    pub fn set_settings(&mut self, settings: NtscFilterSettings) -> (r: bool)
        ensures
            *final(self) == (NtscFilter { settings, ..*old(self) }),
            r == (final(self).forced_order() != old(self).forced_order()),
    {
        let old_field_order = self.output_field_order();
        self.settings = settings;
        match (self.output_field_order(), old_field_order) {
            (Some(a), Some(b)) => a != b,
            (None, None) => false,
            _ => true,
        }
    }

    pub fn set_force_interlaced_output(&mut self, force: bool)
        ensures
            *final(self) == (NtscFilter { force_interlaced_output: force, ..*old(self) }),
    {
        self.force_interlaced_output = force;
    }

    /// Notes how the input is interlaced.
    pub fn set_info(&mut self, interlace_mode: VideoInterlaceMode)
        ensures
            *final(self) == (NtscFilter { info: Some(interlace_mode), ..*old(self) }),
    {
        self.info = Some(interlace_mode);
    }

    /// What a description becomes at the other end, where a field order is forced. At an end that is
    /// unknown, it becomes nothing.
    pub open spec fn other_end(
        direction: PadDirection,
        caps: CapsModel,
        order: VideoFieldOrder,
    ) -> Option<CapsModel> {
        match direction {
            PadDirection::Sink => Some(output_description(caps, order)),
            PadDirection::Src => Some(input_description(caps)),
            PadDirection::Unknown => None,
        }
    }

    /// What to do with a description at one end of the filter. The flag tells whether the request has
    /// a filter of its own.
    pub open spec fn transform(
        self,
        direction: PadDirection,
        caps: CapsModel,
        filtered: bool,
    ) -> TransformModel {
        match self.forced_order() {
            None => TransformModel::Default,
            Some(order) => match Self::other_end(direction, caps, order) {
                None => TransformModel::Refuse,
                Some(other) => if filtered {
                    TransformModel::Intersect(other)
                } else {
                    TransformModel::Caps(other)
                },
            },
        }
    }

    /// What a description at one end of the filter becomes at the other end. The flag tells whether the
    /// request has a filter of its own.
    pub fn transform_caps(&self, direction: PadDirection, caps: &Caps, filtered: bool) -> (r:
        TransformAction)
        requires
            caps.wf(),
        ensures
            r@ == self.transform(direction, caps@, filtered),
            r matches TransformAction::Caps(other) ==> other.wf(),
            r matches TransformAction::Intersect(other) ==> other.wf(),
    {
        let order = match self.output_field_order() {
            None => return TransformAction::Default,
            Some(order) => order,
        };
        let other = match direction {
            PadDirection::Sink => Self::output_caps(caps, order),
            PadDirection::Src => Self::input_caps(caps),
            PadDirection::Unknown => return TransformAction::Refuse,
        };
        if filtered {
            TransformAction::Intersect(other)
        } else {
            TransformAction::Caps(other)
        }
    }

    /// What a description of the input becomes on output.
    fn output_caps(caps: &Caps, order: VideoFieldOrder) -> (r: Caps)
        requires
            caps.wf(),
        ensures
            r.wf(),
            r@ == output_description(caps@, order),
    {
        let mut other = caps.duplicate();
        let size: usize = other.size();
        let mut i: usize = 0;
        while i < size
            invariant
                other.wf(),
                size == caps@.structures.len(),
                i <= size,
                other@.any == caps@.any,
                other@.structures.len() == size,
                forall|j: int|
                    0 <= j < size ==> #[trigger] other@.structures[j] == if j < i {
                        interlaced(caps@.structures[j], order)
                    } else {
                        caps@.structures[j]
                    },
            decreases size - i,
        {
            interlace(other.structure_mut(i), order);
            i += 1;
        }
        assert(other@ =~= output_description(caps@, order));
        other
    }

    /// What input a description of the output allows.
    fn input_caps(caps: &Caps) -> (r: Caps)
        requires
            caps.wf(),
        ensures
            r.wf(),
            r@ == input_description(caps@),
    {
        let mut other = caps.duplicate();
        let size: usize = other.size();
        let mut i: usize = 0;
        while i < size
            invariant
                caps.wf(),
                other.wf(),
                size == caps@.structures.len(),
                i <= size,
                other@.any == caps@.any,
                other@.structures.len() == size + i,
                forall|j: int|
                    0 <= j < size + i ==> #[trigger] other@.structures[j] == if j < size {
                        caps@.structures[j]
                    } else {
                        progressive(caps@.structures[j - size])
                    },
            decreases size - i,
        {
            let mut structure = caps.structure(i).duplicate();
            structure.set("interlace-mode", FieldValue::text("progressive"));
            structure.remove_field("field-order");
            other.append_structure(structure);
            i += 1;
        }
        assert(other@ =~= input_description(caps@));
        other
    }

    /// The video flags of an output buffer, from those that were copied from its input buffer.
    pub fn copy_metadata(&self, flags: u32) -> (r: u32)
        ensures
            r == match self.forced_order() {
                Some(order) if self.info == Some(VideoInterlaceMode::Progressive) => {
                    interlaced_flags(flags, order)
                },
                _ => flags,
            },
    {
        let input_is_progressive = match self.info {
            Some(VideoInterlaceMode::Progressive) => true,
            _ => false,
        };
        if !input_is_progressive {
            return flags;
        }
        match self.output_field_order() {
            None => flags,
            Some(order) => {
                let cleared: u32 = flags & !(VIDEO_FLAG_INTERLACED | VIDEO_FLAG_TFF | VIDEO_FLAG_RFF
                    | VIDEO_FLAG_ONEFIELD);
                assert(0x10_0000u32 | 0x20_0000u32 | 0x40_0000u32 | 0x80_0000u32 == 0xf0_0000u32)
                    by (bit_vector);
                match order {
                    VideoFieldOrder::TopFieldFirst => cleared | VIDEO_FLAG_TFF,
                    VideoFieldOrder::BottomFieldFirst => cleared,
                }
            },
        }
    }

    /// How to process the pixels of an output frame.
    pub fn transform_frame(format: VideoFormat) -> (r: Result<PixelLayout, FlowError>)
        ensures
            r == match layout_of(format) {
                Some(layout) => Ok::<PixelLayout, FlowError>(layout),
                None => Err(FlowError::NotSupported),
            },
    {
        let (swizzle, depth) = match format {
            VideoFormat::Rgbx | VideoFormat::Rgba => (Swizzle::Rgbx, 8u8),
            VideoFormat::Bgrx | VideoFormat::Bgra => (Swizzle::Bgrx, 8u8),
            VideoFormat::Xrgb | VideoFormat::Argb => (Swizzle::Xrgb, 8u8),
            VideoFormat::Xbgr | VideoFormat::Abgr => (Swizzle::Xbgr, 8u8),
            VideoFormat::Argb64 => (Swizzle::Xrgb, 16u8),
            VideoFormat::Other => return Err(FlowError::NotSupported),
        };
        Ok(PixelLayout { swizzle, depth })
    }
}

/// Makes a structure of the input one of the output.
fn interlace(structure: &mut Structure, order: VideoFieldOrder)
    requires
        old(structure).wf(),
    ensures
        final(structure).wf(),
        final(structure)@ == interlaced(old(structure)@, order),
{
    if let Some(mode) = structure.get_text("interlace-mode") {
        if !same_text(mode, "progressive") {
            return;
        }
    }
    structure.set("interlace-mode", FieldValue::text("interleaved"));
    structure.set("field-order", FieldValue::text(order.to_str()));
}

/// Unless it is told to, the filter changes neither the description of the stream nor the flags of its
/// buffers: no field order is forced.
pub proof fn lemma_not_forced_by_default(filter: NtscFilter)
    requires
        !filter.force_interlaced_output || filter.settings.use_field == UseField::Other,
    ensures
        filter.forced_order() is None,
{
}

/// A request is refused exactly if a field order is forced and the end is unknown. With a filter, it gets
/// what the filter has in common with what it gets without one.
pub proof fn lemma_filter_narrows_the_description(
    filter: NtscFilter,
    direction: PadDirection,
    caps: CapsModel,
    filtered: bool,
)
    ensures
        filter.transform(direction, caps, filtered) is Refuse <==> filter.forced_order() is Some
            && direction == PadDirection::Unknown,
        forall|other: CapsModel|
            filter.transform(direction, caps, true) == TransformModel::Intersect(other)
                <==> #[trigger] filter.transform(direction, caps, false) == TransformModel::Caps(
                other,
            ),
{
}

/// On output, every structure is interlaced. Of what it says, only the interlacing changes, so the
/// framerate does not.
pub proof fn lemma_output_is_interlaced(caps: CapsModel, order: VideoFieldOrder, i: int)
    requires
        0 <= i < caps.structures.len(),
    ensures
        ({
            let before = caps.structures[i];
            let after = output_description(caps, order).structures[i];
            &&& interlaced_already(after)
            &&& after.name == before.name
            &&& after.features == before.features
            &&& before.names.is_prefix_of(after.names)
            &&& forall|name: Seq<char>|
                name != "interlace-mode"@ && name != "field-order"@ ==> {
                    &&& (#[trigger] after.fields.dom().contains(name)
                        <==> before.fields.dom().contains(name))
                    &&& after.fields[name] == before.fields[name]
                }
        }),
{
    reveal_strlit("interlace-mode");
    reveal_strlit("field-order");
    reveal_strlit("interleaved");
    reveal_strlit("progressive");
    assert("interleaved"@[0] != "progressive"@[0]);
    assert("interlace-mode"@[0] != "field-order"@[0]);
}

/// Input that is interlaced already stays as it is.
pub proof fn lemma_interlaced_input_is_kept(caps: CapsModel, order: VideoFieldOrder)
    requires
        forall|i: int|
            0 <= i < caps.structures.len() ==> interlaced_already(#[trigger] caps.structures[i]),
    ensures
        output_description(caps, order) == caps,
{
    assert(output_description(caps, order) =~= caps);
}

/// Progressive input is among what its own output allows as input. A field order that it names says
/// nothing of progressive video, and is left out there.
pub proof fn lemma_progressive_input_is_allowed(structure: StructureModel, order: VideoFieldOrder)
    requires
        structure.consistent(),
        structure.fields.dom().contains("interlace-mode"@),
        structure.fields["interlace-mode"@] == FieldModel::Text("progressive"@),
    ensures
        progressive(interlaced(structure, order)) == without_field(structure, "field-order"@),
        !structure.fields.dom().contains("field-order"@) ==> progressive(
            interlaced(structure, order),
        ) == structure,
{
    let field = "field-order"@;
    reveal_strlit("interlace-mode");
    reveal_strlit("field-order");
    assert("interlace-mode"@[0] != field[0]);
    assert(structure.names.contains("interlace-mode"@));
    let names = structure.names;
    let there = interlaced(structure, order);
    assert(there.names.contains("interlace-mode"@)) by {
        let i = choose|i: int| 0 <= i < names.len() && names[i] == "interlace-mode"@;
        assert(there.names[i] == "interlace-mode"@);
    }
    names.index_of_first_ensures(field);
    there.names.index_of_first_ensures(field);
    if names.contains(field) {
        assert(there.names =~= names);
    } else {
        assert(there.names =~= names.push(field));
        assert(there.names[names.len() as int] == field);
        let at = there.names.index_of_first(field)->0;
        if at < names.len() {
            assert(names[at] == field);
        }
        assert(there.names.remove_value(field) =~= names);
        assert(without_field(structure, field) =~= structure);
    }
    assert(progressive(there) =~= without_field(structure, field));
}

/// Everything that the output may be is allowed as input.
pub proof fn lemma_output_is_allowed_as_input(caps: CapsModel, i: int)
    requires
        0 <= i < caps.structures.len(),
    ensures
        input_description(caps).structures[i] == caps.structures[i],
{
}

/// The flags that are set for interlaced output tell the first field and nothing else about
/// interlacing, and leave the others alone.
pub proof fn lemma_interlaced_flags(flags: u32, order: VideoFieldOrder)
    ensures
        ({
            let after = interlaced_flags(flags, order);
            &&& after & VIDEO_FLAG_INTERLACED == 0
            &&& after & VIDEO_FLAG_RFF == 0
            &&& after & VIDEO_FLAG_ONEFIELD == 0
            &&& (after & VIDEO_FLAG_TFF != 0 <==> order == VideoFieldOrder::TopFieldFirst)
            &&& after & !VIDEO_FLAGS_INTERLACING == flags & !VIDEO_FLAGS_INTERLACING
        }),
{
    assert({
        let cleared = flags & !0xf0_0000u32;
        &&& cleared & 0x10_0000u32 == 0
        &&& cleared & 0x40_0000u32 == 0
        &&& cleared & 0x80_0000u32 == 0
        &&& cleared & 0x20_0000u32 == 0
        &&& cleared & !0xf0_0000u32 == flags & !0xf0_0000u32
        &&& (cleared | 0x20_0000u32) & 0x10_0000u32 == 0
        &&& (cleared | 0x20_0000u32) & 0x40_0000u32 == 0
        &&& (cleared | 0x20_0000u32) & 0x80_0000u32 == 0
        &&& (cleared | 0x20_0000u32) & 0x20_0000u32 != 0
        &&& (cleared | 0x20_0000u32) & !0xf0_0000u32 == flags & !0xf0_0000u32
    }) by (bit_vector);
}

/// Every format that the pads offer can be processed.
pub proof fn lemma_offered_formats_are_supported(i: int)
    requires
        0 <= i < pad_formats().len(),
    ensures
        layout_of(pad_formats()[i]) is Some,
{
}

} // verus!
