//! Reduction of a decoded texture to the tightly packed RGBA8 buffer that
//! gdk-pixbuf takes.
//!
//! gdk-pixbuf only has RGB and RGBA at 8 bits per channel, so every other
//! layout is reduced here: 16-bit channels keep their high byte, half
//! floats are clamped to `[0, 1]` and scaled, premultiplied colours are
//! unpremultiplied, and grey is replicated across R, G and B. 16-bit
//! channels are stored in the machine's byte order.
//!
//! Layouts of 32-bit floats are reduced by the caller, which turns each
//! channel into a byte first; see [`is_float32`].

use vstd::prelude::*;
use vstd::slice::slice_subrange;

use crate::format::{layout_of, ChannelStorage, LayoutDescription, MemoryFormat};
use crate::pixel::{half_to_byte, half_to_u8, unpremul_g8, unpremul_rgb8, unpremultiplied};

verus! {

/// Layouts whose channels are 32-bit floats.
pub open spec fn is_float32(format: MemoryFormat) -> bool {
    match format {
        MemoryFormat::R32g32b32Float
        | MemoryFormat::R32g32b32a32Float
        | MemoryFormat::R32g32b32a32FloatPremultiplied => true,
        _ => false,
    }
}

/// Whether `format` stores 32-bit float channels.
pub fn has_float32_channels(format: MemoryFormat) -> (r: bool)
    ensures
        r == is_float32(format),
{
    match format {
        MemoryFormat::R32g32b32Float
        | MemoryFormat::R32g32b32a32Float
        | MemoryFormat::R32g32b32a32FloatPremultiplied => true,
        _ => false,
    }
}

/// The 16-bit value stored at `p[k..k + 2]` in little- or big-endian
/// order.
pub open spec fn u16_at(p: Seq<u8>, k: int, little: bool) -> u16 {
    if little {
        (p[k] + 256 * p[k + 1]) as u16
    } else {
        (p[k + 1] + 256 * p[k]) as u16
    }
}

/// High byte of the 16-bit value stored at `p[k..k + 2]`.
pub open spec fn high_byte_at(p: Seq<u8>, k: int, little: bool) -> u8 {
    if little {
        p[k + 1]
    } else {
        p[k]
    }
}

/// Straight-alpha RGBA8 value of the pixel stored in `p` as `format`, with
/// 16-bit channels in the given byte order.
pub open spec fn texel_rgba8(format: MemoryFormat, p: Seq<u8>, little: bool) -> (u8, u8, u8, u8) {
    let h = |k: int| high_byte_at(p, k, little);
    let f = |k: int| half_to_byte(u16_at(p, k, little));
    match format {
        MemoryFormat::G8 => (p[0], p[0], p[0], 255u8),
        MemoryFormat::G8a8 => (p[0], p[0], p[0], p[1]),
        MemoryFormat::G8a8Premultiplied => {
            let g = unpremultiplied(p[0], p[1]);
            (g, g, g, p[1])
        },
        MemoryFormat::G16 => (h(0), h(0), h(0), 255u8),
        MemoryFormat::G16a16 => (h(0), h(0), h(0), h(2)),
        MemoryFormat::G16a16Premultiplied => {
            let g = unpremultiplied(h(0), h(2));
            (g, g, g, h(2))
        },
        MemoryFormat::R8g8b8 => (p[0], p[1], p[2], 255u8),
        MemoryFormat::R8g8b8a8 => (p[0], p[1], p[2], p[3]),
        MemoryFormat::R8g8b8a8Premultiplied => (
            unpremultiplied(p[0], p[3]),
            unpremultiplied(p[1], p[3]),
            unpremultiplied(p[2], p[3]),
            p[3],
        ),
        MemoryFormat::B8g8r8 => (p[2], p[1], p[0], 255u8),
        MemoryFormat::B8g8r8a8 => (p[2], p[1], p[0], p[3]),
        MemoryFormat::B8g8r8a8Premultiplied => (
            unpremultiplied(p[2], p[3]),
            unpremultiplied(p[1], p[3]),
            unpremultiplied(p[0], p[3]),
            p[3],
        ),
        MemoryFormat::A8r8g8b8 => (p[1], p[2], p[3], p[0]),
        MemoryFormat::A8r8g8b8Premultiplied => (
            unpremultiplied(p[1], p[0]),
            unpremultiplied(p[2], p[0]),
            unpremultiplied(p[3], p[0]),
            p[0],
        ),
        MemoryFormat::A8b8g8r8 => (p[3], p[2], p[1], p[0]),
        MemoryFormat::R16g16b16 => (h(0), h(2), h(4), 255u8),
        MemoryFormat::R16g16b16a16 => (h(0), h(2), h(4), h(6)),
        MemoryFormat::R16g16b16a16Premultiplied => (
            unpremultiplied(h(0), h(6)),
            unpremultiplied(h(2), h(6)),
            unpremultiplied(h(4), h(6)),
            h(6),
        ),
        MemoryFormat::R16g16b16Float => (f(0), f(2), f(4), 255u8),
        MemoryFormat::R16g16b16a16Float => (f(0), f(2), f(4), f(6)),
        MemoryFormat::R32g32b32Float
        | MemoryFormat::R32g32b32a32Float
        | MemoryFormat::R32g32b32a32FloatPremultiplied => (0u8, 0u8, 0u8, 255u8),
    }
}

/// The 16-bit value at `p[k..k + 2]`.
fn read_u16(p: &[u8], k: usize, little: bool) -> (r: u16)
    requires
        k + 2 <= p@.len(),
    ensures
        r == u16_at(p@, k as int, little),
{
    let n = p.len();
    let lo: u16 = if little {
        p[k] as u16
    } else {
        p[k + 1] as u16
    };
    let hi: u16 = if little {
        p[k + 1] as u16
    } else {
        p[k] as u16
    };
    lo + 256 * hi
}

/// High byte of the 16-bit value at `p[k..k + 2]`.
fn read_high_byte(p: &[u8], k: usize, little: bool) -> (r: u8)
    requires
        k + 2 <= p@.len(),
    ensures
        r == high_byte_at(p@, k as int, little),
{
    let v = read_u16(p, k, little);
    let r = (v / 256) as u8;
    proof {
        assert(r == high_byte_at(p@, k as int, little)) by (nonlinear_arith)
            requires
                v == u16_at(p@, k as int, little),
                r == v / 256,
                0 <= p@[k as int] < 256,
                0 <= p@[k + 1] < 256,
        ;
    }
    r
}

/// Read one pixel stored as `format` as straight-alpha RGBA8.
pub fn texel_to_rgba8(format: MemoryFormat, p: &[u8], little: bool) -> (r: (u8, u8, u8, u8))
    requires
        p@.len() >= format.spec_bytes_per_pixel(),
        !is_float32(format),
    ensures
        r == texel_rgba8(format, p@, little),
{
    proof {
        reveal(texel_rgba8);
    }
    match format {
        MemoryFormat::G8 => (p[0], p[0], p[0], 255),
        MemoryFormat::G8a8 => (p[0], p[0], p[0], p[1]),
        MemoryFormat::G8a8Premultiplied => {
            let (g, a) = unpremul_g8(p[0], p[1]);
            (g, g, g, a)
        },
        MemoryFormat::G16 => {
            let v = read_high_byte(p, 0, little);
            (v, v, v, 255)
        },
        MemoryFormat::G16a16 => {
            let v = read_high_byte(p, 0, little);
            let a = read_high_byte(p, 2, little);
            (v, v, v, a)
        },
        MemoryFormat::G16a16Premultiplied => {
            let v = read_high_byte(p, 0, little);
            let a = read_high_byte(p, 2, little);
            let (g, a) = unpremul_g8(v, a);
            (g, g, g, a)
        },
        MemoryFormat::R8g8b8 => (p[0], p[1], p[2], 255),
        MemoryFormat::R8g8b8a8 => (p[0], p[1], p[2], p[3]),
        MemoryFormat::R8g8b8a8Premultiplied => unpremul_rgb8(p[0], p[1], p[2], p[3]),
        MemoryFormat::B8g8r8 => (p[2], p[1], p[0], 255),
        MemoryFormat::B8g8r8a8 => (p[2], p[1], p[0], p[3]),
        MemoryFormat::B8g8r8a8Premultiplied => unpremul_rgb8(p[2], p[1], p[0], p[3]),
        MemoryFormat::A8r8g8b8 => (p[1], p[2], p[3], p[0]),
        MemoryFormat::A8r8g8b8Premultiplied => unpremul_rgb8(p[1], p[2], p[3], p[0]),
        MemoryFormat::A8b8g8r8 => (p[3], p[2], p[1], p[0]),
        MemoryFormat::R16g16b16 => {
            let r = read_high_byte(p, 0, little);
            let g = read_high_byte(p, 2, little);
            let b = read_high_byte(p, 4, little);
            (r, g, b, 255)
        },
        MemoryFormat::R16g16b16a16 => {
            let r = read_high_byte(p, 0, little);
            let g = read_high_byte(p, 2, little);
            let b = read_high_byte(p, 4, little);
            let a = read_high_byte(p, 6, little);
            (r, g, b, a)
        },
        MemoryFormat::R16g16b16a16Premultiplied => {
            let r = read_high_byte(p, 0, little);
            let g = read_high_byte(p, 2, little);
            let b = read_high_byte(p, 4, little);
            let a = read_high_byte(p, 6, little);
            unpremul_rgb8(r, g, b, a)
        },
        MemoryFormat::R16g16b16Float => {
            let r = half_to_u8(read_u16(p, 0, little));
            let g = half_to_u8(read_u16(p, 2, little));
            let b = half_to_u8(read_u16(p, 4, little));
            (r, g, b, 255)
        },
        MemoryFormat::R16g16b16a16Float => {
            let r = half_to_u8(read_u16(p, 0, little));
            let g = half_to_u8(read_u16(p, 2, little));
            let b = half_to_u8(read_u16(p, 4, little));
            let a = half_to_u8(read_u16(p, 6, little));
            (r, g, b, a)
        },
        MemoryFormat::R32g32b32Float
        | MemoryFormat::R32g32b32a32Float
        | MemoryFormat::R32g32b32a32FloatPremultiplied => (0, 0, 0, 255),
    }
}

/// The four output bytes of one pixel.
pub open spec fn texel_bytes(format: MemoryFormat, p: Seq<u8>, little: bool) -> Seq<u8> {
    let t = texel_rgba8(format, p, little);
    seq![t.0, t.1, t.2, t.3]
}

/// RGBA8 bytes of the first `n` pixels of the row starting at byte `start`.
#[verifier::opaque]
pub open spec fn texture_row(
    data: Seq<u8>,
    format: MemoryFormat,
    start: int,
    n: nat,
    little: bool,
) -> Seq<u8>
    decreases n,
{
    let bpp = format.spec_bytes_per_pixel() as int;
    if n == 0 {
        Seq::empty()
    } else {
        texture_row(data, format, start, (n - 1) as nat, little) + texel_bytes(
            format,
            data.subrange(start + (n - 1) * bpp, start + n * bpp),
            little,
        )
    }
}

/// RGBA8 bytes, row-major and unpadded, of the first `rows` rows of a
/// texture `width` pixels wide whose rows start `stride` bytes apart.
pub open spec fn texture_rgba8(
    data: Seq<u8>,
    format: MemoryFormat,
    stride: nat,
    width: nat,
    rows: nat,
    little: bool,
) -> Seq<u8>
    decreases rows,
{
    if rows == 0 {
        Seq::empty()
    } else {
        texture_rgba8(data, format, stride, width, (rows - 1) as nat, little) + texture_row(
            data,
            format,
            (rows - 1) * stride,
            width,
            little,
        )
    }
}

proof fn lemma_row_step(data: Seq<u8>, format: MemoryFormat, start: int, x: nat, little: bool)
    ensures
        texture_row(data, format, start, x + 1, little) == texture_row(data, format, start, x, little)
            + texel_bytes(
            format,
            data.subrange(
                start + x * format.spec_bytes_per_pixel(),
                start + x * format.spec_bytes_per_pixel() + format.spec_bytes_per_pixel(),
            ),
            little,
        ),
{
    reveal_with_fuel(texture_row, 1);
    let bpp = format.spec_bytes_per_pixel() as int;
    assert(((x + 1) as nat - 1) as nat == x);
    assert((x + 1) * bpp == x * bpp + bpp) by (nonlinear_arith);
}

/// The input holds every pixel the texture's dimensions name.
pub open spec fn texture_fits(
    data_len: nat,
    width: u32,
    height: u32,
    stride: u32,
    format: MemoryFormat,
) -> bool {
    height > 0 ==> (height - 1) * stride + width * format.spec_bytes_per_pixel() <= data_len
}

/// Convert a texture to RGBA8 with 16-bit channels read in the given byte
/// order. Returns the bytes and their row stride, `4 * width` (kept to
/// its low 32 bits).
pub fn texture_to_rgba8_ordered(
    data: &[u8],
    width: u32,
    height: u32,
    stride: u32,
    format: MemoryFormat,
    little: bool,
) -> (r: (Vec<u8>, u32))
    requires
        texture_fits(data@.len(), width, height, stride, format),
        !is_float32(format),
        4 * width * height <= usize::MAX,
    ensures
        r.0@ == texture_rgba8(data@, format, stride as nat, width as nat, height as nat, little),
        r.1 == (4 * width) % 0x1_0000_0000,
{
    let bpp = format.bytes_per_pixel() as usize;
    let w = width as usize;
    let h = height as usize;
    let s = stride as usize;
    let dlen = data.len();
    let mut out: Vec<u8> = Vec::new();
    let mut y: usize = 0;
    while y < h
        invariant
            bpp == format.spec_bytes_per_pixel(),
            w == width,
            h == height,
            s == stride,
            dlen == data@.len(),
            !is_float32(format),
            y <= h,
            h > 0 ==> (h - 1) * s + w * bpp <= dlen,
            out@ == texture_rgba8(data@, format, s as nat, w as nat, y as nat, little),
        decreases h - y,
    {
        assert(y * s <= (h - 1) * s) by (nonlinear_arith)
            requires
                y < h,
        ;
        let row_start = y * s;
        let row_bytes = w * bpp;
        let mut x: usize = 0;
        let ghost done = out@;
        proof {
            reveal_with_fuel(texture_row, 1);
            assert(out@ =~= done + texture_row(data@, format, row_start as int, 0, little));
        }
        while x < w
            invariant
                bpp == format.spec_bytes_per_pixel(),
                w == width,
                dlen == data@.len(),
                !is_float32(format),
                row_start == y * s,
                row_bytes == w * bpp,
                row_start + row_bytes <= dlen,
                x <= w,
                out@ == done + texture_row(data@, format, row_start as int, x as nat, little),
            decreases w - x,
        {
            assert(x * bpp + bpp <= row_bytes && (x + 1) * bpp == x * bpp + bpp) by (nonlinear_arith)
                requires
                    x < w,
                    row_bytes == w * bpp,
            ;
            let start = row_start + x * bpp;
            let p = slice_subrange(data, start, start + bpp);
            let ghost before = out@;
            let (r, g, b, a) = texel_to_rgba8(format, p, little);
            out.push(r);
            out.push(g);
            out.push(b);
            out.push(a);
            proof {
                lemma_row_step(data@, format, row_start as int, x as nat, little);
                assert(out@ =~= before + texel_bytes(format, p@, little));
            }
            x = x + 1;
        }
        proof {
            assert(((y + 1) as nat - 1) * s == y * s);
            assert(texture_rgba8(data@, format, s as nat, w as nat, (y + 1) as nat, little) == done
                + texture_row(data@, format, row_start as int, w as nat, little));
        }
        y = y + 1;
    }
    let out_stride: u64 = (width as u64) * 4;
    let truncated = out_stride as u32;
    assert(truncated == out_stride % 0x1_0000_0000) by (bit_vector)
        requires
            truncated == out_stride as u32,
    ;
    (out, truncated)
}

/// `u16::from_ne_bytes`. Claimed: the bytes read in one of the two byte
/// orders; which one is the machine's, and is not stated.
#[verifier::external_body]
fn u16_from_ne_bytes(b0: u8, b1: u8) -> (r: u16)
    ensures
        r == u16_at(seq![b0, b1], 0, true) || r == u16_at(seq![b0, b1], 0, false),
{
    u16::from_ne_bytes([b0, b1])
}

/// Convert a texture to RGBA8, 16-bit channels read in the machine's byte
/// order; see [`texture_to_rgba8_ordered`].
pub fn texture_to_rgba8(
    data: &[u8],
    width: u32,
    height: u32,
    stride: u32,
    format: MemoryFormat,
) -> (r: (Vec<u8>, u32))
    requires
        texture_fits(data@.len(), width, height, stride, format),
        !is_float32(format),
        4 * width * height <= usize::MAX,
    ensures
        r.0@ == texture_rgba8(data@, format, stride as nat, width as nat, height as nat, true)
            || r.0@ == texture_rgba8(data@, format, stride as nat, width as nat, height as nat, false),
        r.1 == (4 * width) % 0x1_0000_0000,
{
    let little = u16_from_ne_bytes(1, 0) == 1;
    texture_to_rgba8_ordered(data, width, height, stride, format, little)
}

/// Layouts with 16-bit channels, the only ones whose reading depends on
/// the byte order.
pub open spec fn has_16_bit_channels(format: MemoryFormat) -> bool {
    match format {
        MemoryFormat::G16
        | MemoryFormat::G16a16
        | MemoryFormat::G16a16Premultiplied
        | MemoryFormat::R16g16b16
        | MemoryFormat::R16g16b16a16
        | MemoryFormat::R16g16b16a16Premultiplied
        | MemoryFormat::R16g16b16Float
        | MemoryFormat::R16g16b16a16Float => true,
        _ => false,
    }
}

proof fn lemma_row_order_free(data: Seq<u8>, format: MemoryFormat, start: int, n: nat)
    requires
        !has_16_bit_channels(format),
    ensures
        texture_row(data, format, start, n, true) == texture_row(data, format, start, n, false),
    decreases n,
{
    reveal_with_fuel(texture_row, 1);
    reveal(texel_rgba8);
    if n > 0 {
        lemma_row_order_free(data, format, start, (n - 1) as nat);
    }
}

/// Textures of 8-bit (or 32-bit float) layouts convert the same in
/// either byte order, so for them the machine's order does not matter.
pub proof fn law_byte_order_only_matters_for_16_bit_layouts(
    data: Seq<u8>,
    format: MemoryFormat,
    stride: nat,
    width: nat,
    rows: nat,
)
    requires
        !has_16_bit_channels(format),
    ensures
        texture_rgba8(data, format, stride, width, rows, true) == texture_rgba8(
            data,
            format,
            stride,
            width,
            rows,
            false,
        ),
    decreases rows,
{
    if rows > 0 {
        law_byte_order_only_matters_for_16_bit_layouts(data, format, stride, width, (rows - 1) as nat);
        lemma_row_order_free(data, format, (rows - 1) * stride, width);
    }
}

/// The 8-bit value of the channel at byte offset `k` of `p`, stored as
/// `storage`: the byte itself, the high byte of a 16-bit integer, or a
/// binary16 value clamped and scaled.
pub open spec fn channel_byte(storage: ChannelStorage, p: Seq<u8>, k: int, little: bool) -> u8 {
    match storage {
        ChannelStorage::Byte => p[k],
        ChannelStorage::Word => high_byte_at(p, k, little),
        ChannelStorage::Half => half_to_byte(u16_at(p, k, little)),
        ChannelStorage::Float32 => 0,
    }
}

/// The straight-alpha RGBA8 value of the pixel `p` of a layout with
/// description `d`: each colour read at its offset, alpha at its offset
/// or 255 where there is none, colour unpremultiplied where the layout
/// premultiplies.
pub open spec fn layout_pixel(d: LayoutDescription, p: Seq<u8>, little: bool) -> (u8, u8, u8, u8) {
    let a = match d.alpha {
        Some(k) => channel_byte(d.storage, p, k as int, little),
        None => 255u8,
    };
    let r = channel_byte(d.storage, p, d.red as int, little);
    let g = channel_byte(d.storage, p, d.green as int, little);
    let b = channel_byte(d.storage, p, d.blue as int, little);
    if d.premultiplied {
        (unpremultiplied(r, a), unpremultiplied(g, a), unpremultiplied(b, a), a)
    } else {
        (r, g, b, a)
    }
}

/// Each pixel is read where its layout keeps each channel: for every
/// layout but the 32-bit float ones, the RGBA8 value is what the layout's
/// channel offsets and storage give.
pub proof fn law_texels_follow_the_layout(format: MemoryFormat, p: Seq<u8>, little: bool)
    requires
        !is_float32(format),
    ensures
        texel_rgba8(format, p, little) == layout_pixel(layout_of(format), p, little),
{
    reveal(texel_rgba8);
    match format {
        MemoryFormat::G8 => {
            assert(texel_rgba8(format, p, little) == layout_pixel(layout_of(format), p, little));
        },
        MemoryFormat::G8a8 => {
            assert(texel_rgba8(format, p, little) == layout_pixel(layout_of(format), p, little));
        },
        MemoryFormat::G8a8Premultiplied => {
            assert(texel_rgba8(format, p, little) == layout_pixel(layout_of(format), p, little));
        },
        MemoryFormat::G16 => {
            assert(texel_rgba8(format, p, little) == layout_pixel(layout_of(format), p, little));
        },
        MemoryFormat::G16a16 => {
            assert(texel_rgba8(format, p, little) == layout_pixel(layout_of(format), p, little));
        },
        MemoryFormat::G16a16Premultiplied => {
            assert(texel_rgba8(format, p, little) == layout_pixel(layout_of(format), p, little));
        },
        MemoryFormat::R8g8b8 => {
            assert(texel_rgba8(format, p, little) == layout_pixel(layout_of(format), p, little));
        },
        MemoryFormat::B8g8r8 => {
            assert(texel_rgba8(format, p, little) == layout_pixel(layout_of(format), p, little));
        },
        MemoryFormat::R8g8b8a8 => {
            assert(texel_rgba8(format, p, little) == layout_pixel(layout_of(format), p, little));
        },
        MemoryFormat::R8g8b8a8Premultiplied => {
            assert(texel_rgba8(format, p, little) == layout_pixel(layout_of(format), p, little));
        },
        MemoryFormat::B8g8r8a8 => {
            assert(texel_rgba8(format, p, little) == layout_pixel(layout_of(format), p, little));
        },
        MemoryFormat::B8g8r8a8Premultiplied => {
            assert(texel_rgba8(format, p, little) == layout_pixel(layout_of(format), p, little));
        },
        MemoryFormat::A8r8g8b8 => {
            assert(texel_rgba8(format, p, little) == layout_pixel(layout_of(format), p, little));
        },
        MemoryFormat::A8r8g8b8Premultiplied => {
            assert(texel_rgba8(format, p, little) == layout_pixel(layout_of(format), p, little));
        },
        MemoryFormat::A8b8g8r8 => {
            assert(texel_rgba8(format, p, little) == layout_pixel(layout_of(format), p, little));
        },
        MemoryFormat::R16g16b16 => {
            assert(texel_rgba8(format, p, little) == layout_pixel(layout_of(format), p, little));
        },
        MemoryFormat::R16g16b16a16 => {
            assert(texel_rgba8(format, p, little) == layout_pixel(layout_of(format), p, little));
        },
        MemoryFormat::R16g16b16a16Premultiplied => {
            assert(texel_rgba8(format, p, little) == layout_pixel(layout_of(format), p, little));
        },
        MemoryFormat::R16g16b16Float => {
            assert(texel_rgba8(format, p, little) == layout_pixel(layout_of(format), p, little));
        },
        MemoryFormat::R16g16b16a16Float => {
            assert(texel_rgba8(format, p, little) == layout_pixel(layout_of(format), p, little));
        },
        _ => {},
    }
}

} // verus!
