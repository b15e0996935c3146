//! The integer decisions of SVG decoding.
//!
//! The SVG engine resolves the root's `width`, `height` and `viewBox` to
//! pixels while parsing; librsvg's intrinsic-dimensions query needs them
//! as written, with their units, so they are read from the raw XML here.
//! Only the document element carries them, whether or not it turns out to
//! be an `<svg>`; the numbers themselves are parsed by the caller. The
//! size of a decoded raster is decided here too, once the caller has
//! rounded the document's size up to whole pixels.

use vstd::prelude::*;

use crate::bytes::{first_at, position_of};
use crate::error::Error;
use crate::xml::{
    attrs_view, is_final, next_token, well_terminated, xml_pending, xml_reader, xml_tokens,
    XmlKind, XmlTokenView,
};
use vstd::slice::slice_subrange;

verus! {

/// `svg`
pub const SVG_NAME: [u8; 3] = [0x73, 0x76, 0x67];

/// `:`
pub const NAME_SEPARATOR: u8 = 0x3a;

/// The local part of a qualified name: what follows its first `:`, or the
/// whole name (`QName::local_name`).
pub open spec fn local_part(name: Seq<u8>) -> Seq<u8> {
    if exists|k: int| first_at(name, NAME_SEPARATOR, k) {
        let k = choose|k: int| first_at(name, NAME_SEPARATOR, k);
        name.skip(k + 1)
    } else {
        name
    }
}

/// Index of the document element among `toks` from `i` on: the first
/// start or empty-element tag before the stream ends.
pub open spec fn document_element_from(toks: Seq<XmlTokenView>, i: int) -> Option<int>
    decreases toks.len() - i,
{
    if i < 0 || i >= toks.len() || is_final(toks[i].kind) {
        None
    } else if toks[i].kind == XmlKind::Start || toks[i].kind == XmlKind::Empty {
        Some(i)
    } else {
        document_element_from(toks, i + 1)
    }
}

/// The attributes of the document element when it is an `<svg>` (in any
/// namespace prefix), in document order; `None` otherwise, and when the
/// document ends or fails before any element.
pub open spec fn root_svg_attributes(input: Seq<u8>) -> Option<Seq<(Seq<u8>, Seq<u8>)>> {
    let toks = xml_tokens(input);
    match document_element_from(toks, 0) {
        Some(i) => if local_part(toks[i].name) == SVG_NAME@ {
            Some(toks[i].attrs)
        } else {
            None
        },
        None => None,
    }
}

/// The local part of `name`; see [`local_part`].
pub fn local_name(name: &[u8]) -> (r: &[u8])
    ensures
        r@ == local_part(name@),
{
    match position_of(name, NAME_SEPARATOR) {
        Some(k) => {
            proof {
                let c = choose|c: int| first_at(name@, NAME_SEPARATOR, c);
                if c < k {
                    assert(name@[c] == NAME_SEPARATOR);
                }
                if k < c {
                    assert(name@[k as int] == NAME_SEPARATOR);
                }
            }
            let n = name.len();
            slice_subrange(name, k + 1, n)
        },
        None => name,
    }
}

/// The attributes of the document's root `<svg>`; see
/// [`root_svg_attributes`].
pub fn root_svg_attrs(input: &[u8]) -> (r: Option<Vec<(Vec<u8>, Vec<u8>)>>)
    ensures
        match r {
            Some(a) => root_svg_attributes(input@) == Some(attrs_view(a@)),
            None => root_svg_attributes(input@) is None,
        },
{
    let mut reader = xml_reader(input);
    let ghost toks = xml_tokens(input@);
    let ghost mut i: int = 0;
    assert(toks.skip(0) =~= toks);
    loop
        invariant
            toks == xml_tokens(input@),
            well_terminated(toks),
            0 <= i < toks.len(),
            xml_pending(reader) == toks.skip(i),
            document_element_from(toks, 0) == document_element_from(toks, i),
        decreases toks.len() - i,
    {
        assert(toks.skip(i)[0] == toks[i]);
        let t = next_token(&mut reader);
        let ghost here = i;
        proof {
            assert(toks.skip(i).drop_first() =~= toks.skip(i + 1));
            i = i + 1;
            if !is_final(t@.kind) {
                assert(here < toks.len() - 1);
            }
        }
        match t.kind {
            XmlKind::Eof | XmlKind::Failed => {
                return None;
            },
            XmlKind::Start | XmlKind::Empty => {
                let local = local_name(t.name.as_slice());
                if local.len() == 3 && crate::bytes::strip_prefix(local, &SVG_NAME).is_some() {
                    proof {
                        assert(local@ =~= local@.subrange(0, 3));
                    }
                    return Some(t.attrs);
                }
                proof {
                    if local@ == SVG_NAME@ {
                        assert(local@.subrange(0, 3) =~= local@);
                    }
                }
                return None;
            },
            _ => {},
        }
    }
}

/// The raster size of a decode: the caller's size hint, or else the
/// document's own size, each side at least one pixel.
pub open spec fn output_size(intrinsic: (u32, u32), hint: Option<(u32, u32)>) -> (u32, u32) {
    let (w, h) = match hint {
        Some(s) => s,
        None => intrinsic,
    };
    (if w == 0 { 1 } else { w }, if h == 0 { 1 } else { h })
}

/// Decide the raster size of a decode; see [`output_size`].
pub fn render_size(intrinsic: (u32, u32), hint: Option<(u32, u32)>) -> (r: (u32, u32))
    ensures
        r == output_size(intrinsic, hint),
{
    let (w, h) = match hint {
        Some(s) => s,
        None => intrinsic,
    };
    (if w == 0 { 1 } else { w }, if h == 0 { 1 } else { h })
}

/// Row stride of an RGBA8 raster `width` pixels wide; refused when it
/// does not fit in 32 bits.
pub fn rgba_stride(width: u32) -> (r: Result<u32, Error>)
    ensures
        match r {
            Ok(s) => s == 4 * width,
            Err(e) => 4 * width > u32::MAX && e == Error::LimitExceeded("stride"),
        },
{
    match width.checked_mul(4) {
        Some(s) => Ok(s),
        None => Err(Error::LimitExceeded("stride")),
    }
}

} // verus!
