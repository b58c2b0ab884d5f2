# ntsc_rs_gst

The logic of the GStreamer elements of ntsc-rs and of the tools that package it, verified with
[Verus](https://github.com/verus-lang/verus).

- `src/image_freeze.rs`: a source that turns one frame into a stream of a fixed framerate, forward or in
  reverse. `src/playback.rs` states what a whole run of it shows.
- `src/ntscrs_filter.rs`: what the NTSC video filter does to the description of a stream and to the flags of
  its buffers.
- `src/clock_time.rs`, `src/format.rs`, `src/segment.rs`, `src/caps.rs`: times and framerates, values with
  units, playback segments and stream descriptions.
- `src/macos_gst_components.rs`, `src/component_set.rs`: which components an installer of GStreamer for macOS
  installs.
- `src/windows_bundle.rs`: what the bundle for Windows holds.

The functions of the elements take decisions: they return what to do, and the caller reports how it went.
The elements themselves and the command line tools are in `app/`.

Two outside crates are called from the library. `muldiv` scales times without overflow, and `plist` holds
property lists. What is taken on trust of them stands in the doc comments of `mul_div_floor` in
`src/clock_time.rs` and of the items at the top of `src/macos_gst_components.rs`.
