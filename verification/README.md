# glycin_ng

The logic of an in-process image loader and its compatibility shims,
written in Verus with its contracts proved.

`src/` is the verified library:

- `format`, `pixel`: pixel layouts, alpha unpremultiplication, luma and
  binary16-to-byte conversion.
- `encoder`: the `Encoder` builder, the conversion of any 8-bit layout to
  RGBA8 and the dispatch to the `image` crate's codecs.
- `texture`: reduction of decoded textures to gdk-pixbuf's RGBA8.
- `shim_format`: the glycin v2 memory-format numbering, selections, and
  frame conversion into a layout the caller admits.
- `xml`, `xinclude`, `empty_groups`, `svg`: SVG preprocessing over
  quick-xml's token stream (XInclude inlining, removal of childless
  groups, the root element's sizing attributes, raster size decisions).
- `seccomp`: assembly of the sandbox's BPF program, an interpreter giving
  its meaning, and the proof that it decides what the sandbox intends.
- `rsvg`: the loading lifecycle of a librsvg-compatible handle, base-URI
  paths and element ids.
- `bytes`, `ffi_types`, `error`: byte-string helpers, opaque C types, the
  error type.

`app/` holds what the library cannot: installing the filter with
`prctl`/`seccomp`, rendering with resvg, float channel conversion, and the
C-string and pointer handling of the handle state. `tests/` exercises the
library through its public API.
