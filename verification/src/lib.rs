//! Planning and bookkeeping for baking an equirectangular HDR panorama into
//! image-based-lighting cubemaps: the base environment, the specular radiance
//! chain and the diffuse irradiance map.
//!
//! Everything here works on plain values. The functions decide what a GPU
//! driver has to do (which kernel text, which textures, which dispatches, in
//! which submissions) and turn what the device hands back into an unpadded
//! byte stream and its container layout; they never touch a device themselves.
//!
//! - [`shader_src`] specialises kernel text, with the help of [`text`].
//! - [`texture`] holds the pixel formats and texture descriptions.
//! - [`cubemap`], [`mipmap`] and [`ibl`] plan the four compute stages.
//! - [`readback`] turns staged mip levels into a byte stream whose layout
//!   [`byte_stream`] defines, and [`ktx`] lays that stream out for a container.
//! - [`pipeline`] holds the settings and the order of the stages, and
//!   [`error`] the ways in which a bake fails.

pub mod byte_stream;
pub mod cubemap;
pub mod error;
pub mod ibl;
pub mod ktx;
pub mod mipmap;
pub mod pipeline;
pub mod readback;
pub mod shader_src;
pub mod text;
pub mod texture;
