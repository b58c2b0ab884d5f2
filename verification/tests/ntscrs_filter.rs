use ntsc_rs_gst::caps::{Caps, FieldValue, Structure};
use ntsc_rs_gst::clock_time::Fraction;
use ntsc_rs_gst::image_freeze::FlowError;
use ntsc_rs_gst::ntscrs_filter::{
    template_formats, NtscFilter, NtscFilterSettings, PadDirection, PixelLayout, Swizzle,
    TransformAction, UseField, VideoFieldOrder, VideoFormat, VideoInterlaceMode,
    VIDEO_FLAGS_INTERLACING, VIDEO_FLAG_INTERLACED, VIDEO_FLAG_ONEFIELD, VIDEO_FLAG_RFF,
    VIDEO_FLAG_TFF,
};

fn source_caps(input_field_order: Option<VideoFieldOrder>) -> Caps {
    let mut structure = Structure::new("video/x-raw", "");
    structure.set("format", FieldValue::text("RGBx"));
    structure.set("width", FieldValue::Opaque(16));
    structure.set("height", FieldValue::Opaque(16));
    structure.set("framerate", FieldValue::Fraction(Fraction { numer: 25, denom: 1 }));
    if let Some(field_order) = input_field_order {
        structure.set("interlace-mode", FieldValue::text("interleaved"));
        structure.set("field-order", FieldValue::text(field_order.to_str()));
    } else {
        structure.set("interlace-mode", FieldValue::text("progressive"));
    }
    let mut caps = Caps::new(false);
    caps.append_structure(structure);
    caps
}

fn forced(use_field: UseField) -> NtscFilter {
    let mut filter = NtscFilter::new(NtscFilterSettings { use_field });
    filter.set_force_interlaced_output(true);
    filter
}

/// Sends one frame through the filter. What the base class does for a filter that does not care about
/// interlacing is to keep the description and the flags.
fn run_filter(
    force_interlaced_output: bool,
    use_field: UseField,
    input_field_order: Option<VideoFieldOrder>,
) -> (Caps, u32) {
    let mut filter = NtscFilter::new(NtscFilterSettings { use_field: UseField::Other });
    filter.set_settings(NtscFilterSettings { use_field });
    filter.set_force_interlaced_output(force_interlaced_output);

    let input = source_caps(input_field_order);
    let output = match filter.transform_caps(PadDirection::Sink, &input, false) {
        TransformAction::Default => input,
        TransformAction::Caps(caps) => caps,
        action => panic!("unexpected action {action:?}"),
    };
    filter.set_info(match input_field_order {
        Some(_) => VideoInterlaceMode::Interleaved,
        None => VideoInterlaceMode::Progressive,
    });
    let flags = match input_field_order {
        Some(VideoFieldOrder::TopFieldFirst) => VIDEO_FLAG_TFF,
        _ => 0,
    };
    (output, filter.copy_metadata(flags))
}

#[test]
fn preserves_progressive_output_by_default() {
    let (caps, flags) = run_filter(false, UseField::InterleavedUpper, None);
    let structure = caps.structure(0);
    assert_eq!(structure.get_text("interlace-mode"), Some("progressive"));
    assert!(structure.get("field-order").is_none());
    assert!(flags & VIDEO_FLAG_TFF == 0);
}

#[test]
fn forces_top_field_first_output_from_use_field() {
    let (caps, flags) = run_filter(true, UseField::InterleavedUpper, None);
    let structure = caps.structure(0);
    assert_eq!(structure.get_text("interlace-mode"), Some("interleaved"));
    assert_eq!(structure.get_text("field-order"), Some("top-field-first"));
    assert_eq!(
        structure.get("framerate"),
        Some(&FieldValue::Fraction(Fraction { numer: 25, denom: 1 }))
    );
    assert!(flags & VIDEO_FLAG_TFF != 0);
    assert!(flags & (VIDEO_FLAG_INTERLACED | VIDEO_FLAG_RFF | VIDEO_FLAG_ONEFIELD) == 0);
}

#[test]
fn forces_bottom_field_first_output_from_use_field() {
    let (caps, flags) = run_filter(true, UseField::InterleavedLower, None);
    let structure = caps.structure(0);
    assert_eq!(structure.get_text("interlace-mode"), Some("interleaved"));
    assert_eq!(structure.get_text("field-order"), Some("bottom-field-first"));
    assert!(
        flags & (VIDEO_FLAG_INTERLACED | VIDEO_FLAG_TFF | VIDEO_FLAG_RFF | VIDEO_FLAG_ONEFIELD)
            == 0
    );
}

#[test]
fn preserves_interlaced_input_order_instead_of_use_field() {
    let (caps, flags) = run_filter(
        true,
        UseField::InterleavedUpper,
        Some(VideoFieldOrder::BottomFieldFirst),
    );
    let structure = caps.structure(0);
    assert_eq!(structure.get_text("interlace-mode"), Some("interleaved"));
    assert_eq!(structure.get_text("field-order"), Some("bottom-field-first"));
    assert!(flags & VIDEO_FLAG_TFF == 0);
}

#[test]
fn only_interleaved_settings_force_a_field_order() {
    assert_eq!(
        forced(UseField::InterleavedUpper).output_field_order(),
        Some(VideoFieldOrder::TopFieldFirst)
    );
    assert_eq!(
        forced(UseField::InterleavedLower).output_field_order(),
        Some(VideoFieldOrder::BottomFieldFirst)
    );
    assert_eq!(forced(UseField::Other).output_field_order(), None);
    let settings = NtscFilterSettings { use_field: UseField::InterleavedUpper };
    assert_eq!(NtscFilter::new(settings).output_field_order(), None);
}

#[test]
fn new_settings_ask_for_negotiation_if_the_order_changes() {
    let upper = NtscFilterSettings { use_field: UseField::InterleavedUpper };
    let lower = NtscFilterSettings { use_field: UseField::InterleavedLower };
    let mut filter = NtscFilter::new(upper);
    assert!(!filter.set_settings(lower));
    filter.set_force_interlaced_output(true);
    assert!(filter.set_settings(upper));
    assert!(!filter.set_settings(upper));
    assert!(filter.set_settings(NtscFilterSettings { use_field: UseField::Other }));
    assert!(filter.set_settings(lower));
}

#[test]
fn the_input_of_an_output_may_be_progressive() {
    let filter = forced(UseField::InterleavedUpper);
    let output = source_caps(Some(VideoFieldOrder::TopFieldFirst));
    match filter.transform_caps(PadDirection::Src, &output, false) {
        TransformAction::Caps(caps) => {
            assert_eq!(caps.size(), 2);
            assert_eq!(caps.structure(0), output.structure(0));
            let progressive = caps.structure(1);
            assert_eq!(progressive.get_text("interlace-mode"), Some("progressive"));
            assert!(progressive.get("field-order").is_none());
            assert_eq!(progressive.get_text("format"), Some("RGBx"));
        }
        action => panic!("unexpected action {action:?}"),
    }
    for filtered in [false, true] {
        assert_eq!(
            filter.transform_caps(PadDirection::Unknown, &output, filtered),
            TransformAction::Refuse
        );
    }
}

#[test]
fn input_without_an_interlace_mode_counts_as_progressive() {
    let mut caps = Caps::new(false);
    caps.append_structure(Structure::new("video/x-raw", ""));
    let mut odd = Structure::new("video/x-raw", "");
    odd.set("interlace-mode", FieldValue::Opaque(3));
    caps.append_structure(odd);
    match forced(UseField::InterleavedLower).transform_caps(PadDirection::Sink, &caps, false) {
        TransformAction::Caps(caps) => {
            for i in 0..2 {
                assert_eq!(caps.structure(i).get_text("interlace-mode"), Some("interleaved"));
                assert_eq!(caps.structure(i).get_text("field-order"), Some("bottom-field-first"));
            }
        }
        action => panic!("unexpected action {action:?}"),
    }
}

#[test]
fn a_filter_is_applied_to_what_comes_without_one() {
    let filter = forced(UseField::InterleavedUpper);
    let caps = source_caps(None);
    for direction in [PadDirection::Sink, PadDirection::Src] {
        match (
            filter.transform_caps(direction, &caps, false),
            filter.transform_caps(direction, &caps, true),
        ) {
            (TransformAction::Caps(whole), TransformAction::Intersect(filtered)) => {
                assert_eq!(whole, filtered);
            }
            actions => panic!("unexpected actions {actions:?}"),
        }
    }
    let plain = NtscFilter::new(NtscFilterSettings { use_field: UseField::InterleavedUpper });
    assert_eq!(
        plain.transform_caps(PadDirection::Unknown, &caps, true),
        TransformAction::Default
    );
}

#[test]
fn progressive_input_comes_back_without_a_field_order() {
    let filter = forced(UseField::InterleavedUpper);
    for named in [false, true] {
        let mut input = source_caps(None);
        if named {
            input.structure_mut(0).set("field-order", FieldValue::text("bottom-field-first"));
        }
        let output = match filter.transform_caps(PadDirection::Sink, &input, false) {
            TransformAction::Caps(caps) => caps,
            action => panic!("unexpected action {action:?}"),
        };
        assert_eq!(output.structure(0).get_text("field-order"), Some("top-field-first"));
        match filter.transform_caps(PadDirection::Src, &output, false) {
            TransformAction::Caps(allowed) => {
                assert_eq!(allowed.structure(1), source_caps(None).structure(0));
            }
            action => panic!("unexpected action {action:?}"),
        }
    }
}

#[test]
fn new_fields_come_last() {
    let filter = forced(UseField::InterleavedUpper);
    match filter.transform_caps(PadDirection::Sink, &source_caps(None), false) {
        TransformAction::Caps(caps) => {
            let names: Vec<&str> = caps
                .structure(0)
                .fields()
                .iter()
                .map(|field| field.name.as_str())
                .collect();
            assert_eq!(
                names,
                ["format", "width", "height", "framerate", "interlace-mode", "field-order"]
            );
        }
        action => panic!("unexpected action {action:?}"),
    }
}

#[test]
fn flags_change_only_on_progressive_input() {
    let mut filter = forced(UseField::InterleavedUpper);
    assert_eq!(filter.copy_metadata(0xffff_ffff), 0xffff_ffff);
    for mode in [
        VideoInterlaceMode::Interleaved,
        VideoInterlaceMode::Mixed,
        VideoInterlaceMode::Fields,
        VideoInterlaceMode::Alternate,
        VideoInterlaceMode::Other,
    ] {
        filter.set_info(mode);
        assert_eq!(filter.copy_metadata(0xffff_ffff), 0xffff_ffff);
    }
    filter.set_info(VideoInterlaceMode::Progressive);
    assert_eq!(filter.copy_metadata(0xffff_ffff), 0xff2f_ffff);
    assert_eq!(filter.copy_metadata(0x40), 0x40 | VIDEO_FLAG_TFF);
    filter.set_settings(NtscFilterSettings { use_field: UseField::InterleavedLower });
    assert_eq!(filter.copy_metadata(0xffff_ffff), !VIDEO_FLAGS_INTERLACING);
    filter.set_settings(NtscFilterSettings { use_field: UseField::Other });
    assert_eq!(filter.copy_metadata(VIDEO_FLAG_RFF), VIDEO_FLAG_RFF);
}

#[test]
fn formats_are_processed_by_their_layout() {
    let layouts = [
        (VideoFormat::Rgbx, Swizzle::Rgbx, 8),
        (VideoFormat::Rgba, Swizzle::Rgbx, 8),
        (VideoFormat::Bgrx, Swizzle::Bgrx, 8),
        (VideoFormat::Bgra, Swizzle::Bgrx, 8),
        (VideoFormat::Xrgb, Swizzle::Xrgb, 8),
        (VideoFormat::Argb, Swizzle::Xrgb, 8),
        (VideoFormat::Xbgr, Swizzle::Xbgr, 8),
        (VideoFormat::Abgr, Swizzle::Xbgr, 8),
        (VideoFormat::Argb64, Swizzle::Xrgb, 16),
    ];
    for (format, swizzle, depth) in layouts {
        assert_eq!(NtscFilter::transform_frame(format), Ok(PixelLayout { swizzle, depth }));
    }
    assert_eq!(
        NtscFilter::transform_frame(VideoFormat::Other),
        Err(FlowError::NotSupported)
    );
}

#[test]
fn every_offered_format_is_processed() {
    let formats = template_formats();
    assert_eq!(formats.len(), 7);
    assert_eq!(formats[6], VideoFormat::Argb64);
    for format in formats {
        assert!(NtscFilter::transform_frame(format).is_ok());
    }
}
