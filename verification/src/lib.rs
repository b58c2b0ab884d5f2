//! Verified logic of the still-frame source, the NTSC video filter and the packaging tools of ntsc-rs.

pub mod caps;
pub mod clock_time;
pub mod component_set;
pub mod format;
pub mod image_freeze;
pub mod laws;
pub mod macos_gst_components;
pub mod ntscrs_filter;
pub mod playback;
pub mod segment;
pub mod text;
pub mod windows_bundle;
