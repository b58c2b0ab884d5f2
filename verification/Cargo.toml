[package]
name = "ntsc_rs_gst"
version = "0.1.0"
edition = "2021"
publish = false

[dependencies]
clap = { version = "=4.6.7", features = ["string"] }
current_platform = "=0.2.0"
gstreamer = "=0.25.4"
gstreamer-base = "=0.25.4"
gstreamer-video = "=0.25.4"
# Held back for gstreamer, which depends on it: later versions need a newer compiler.
kstring = "=2.0.2"
muldiv = "=1.0.1"
plist = "=1.10.3"
