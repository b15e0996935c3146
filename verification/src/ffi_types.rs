//! C types the shims only ever hold by pointer. Their layout is the C
//! library's own; nothing here reads inside them.

use vstd::prelude::*;

verus! {

/// A GLib object instance. Opaque: only pointers to it are passed around.
pub struct GObject {
    _private: [u8; 0],
}

/// A GIO file. Opaque: only pointers to it are passed around.
pub struct GFile {
    _private: [u8; 0],
}

/// An immutable GLib byte buffer. Opaque: only pointers to it are passed around.
pub struct GBytes {
    _private: [u8; 0],
}

/// A GIO input stream. Opaque: only pointers to it are passed around.
pub struct GInputStream {
    _private: [u8; 0],
}

/// A GIO cancellation token. Opaque: only pointers to it are passed around.
pub struct GCancellable {
    _private: [u8; 0],
}

/// A GObject property specification. Opaque: only pointers to it are passed around.
pub struct GParamSpec {
    _private: [u8; 0],
}

/// A cairo drawing context. Opaque: only pointers to it are passed around.
#[allow(non_camel_case_types)]
pub struct cairo_t {
    _private: [u8; 0],
}

/// A cairo surface. Opaque: only pointers to it are passed around.
#[allow(non_camel_case_types)]
pub struct cairo_surface_t {
    _private: [u8; 0],
}

/// The instance type of the public `RsvgHandle` class. Opaque: only pointers to it are passed around.
pub struct RsvgHandle {
    _private: [u8; 0],
}

/// A parsed SVG document of the engine. Opaque: only pointers to it are passed around.
pub struct GlycinNgSvg {
    _private: [u8; 0],
}

/// A finished render of the engine. Opaque: only pointers to it are passed around.
pub struct GlycinNgSvgRender {
    _private: [u8; 0],
}

/// A gdk-pixbuf image. Opaque: only pointers to it are passed around.
pub struct GdkPixbuf {
    _private: [u8; 0],
}

/// Layout of `GValue` (public GObject ABI: a `GType` plus two
/// pointer-sized data words).
pub struct GValue {
    pub g_type: usize,
    pub data: [u64; 2],
}

} // verus!
