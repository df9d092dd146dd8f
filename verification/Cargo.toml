[package]
name = "trial_harness"
version = "0.1.0"
edition = "2021"
publish = false

[dependencies]
bevy = { version = "=0.5.0", default-features = false, features = ["bevy_winit", "bevy_wgpu", "render", "png", "x11"] }
crossbeam-channel = "=0.5.17"
# No code here uses darling. bevy 0.5's derive crates need syn built with its
# `full` feature and do not ask for it; darling's macros do, and so build it
# for them as well. Without this line bevy 0.5 does not compile.
darling = "=0.10.2"
