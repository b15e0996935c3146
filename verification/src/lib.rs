//! The logic of the glycin-ng image loader and of its gdk-pixbuf, glycin
//! and librsvg compatibility layers, with its contracts: pixel layouts and
//! conversions, the encoder, SVG preprocessing over quick-xml's tokens,
//! the sandbox's seccomp program, and the librsvg handle lifecycle.

pub mod bytes;
pub mod empty_groups;
pub mod encoder;
pub mod error;
pub mod ffi_types;
pub mod format;
pub mod pixel;
pub mod rsvg;
pub mod seccomp;
pub mod shim_format;
pub mod svg;
pub mod texture;
pub mod xinclude;
pub mod xml;
