[package]
name = "ibl_bake"
version = "0.1.0"
edition = "2021"
publish = false

[dependencies]
regex = "=1.13.1"
wgpu = "=0.19.4"
image = { version = "=0.24.9", default-features = false }
zune-hdr = "0.4"
tokio = { version = "=1.54.1", features = ["rt-multi-thread", "macros"] }
futures-intrusive = "=0.5.0"
clap = { version = "=4.6.7", features = ["derive"] }
thiserror = "=1.0.69"
bytemuck = { version = "=1.25.2", features = ["derive"] }
libktx-rs-sys = "=0.3.3"
imagesize = "*"
