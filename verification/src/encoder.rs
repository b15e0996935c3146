//! Image encoding.
//!
//! Build an [`Encoder`] for a target [`KnownFormat`], queue one or more
//! [`EncodeFrame`]s into it, then call [`Encoder::encode`] to emit the
//! encoded bytes. Supported targets are PNG, JPEG, GIF, WebP (lossless
//! only), TIFF and BMP; the codecs themselves are the `image` crate's.
//! Frames reach the codecs as RGBA8; JPEG, which has no alpha channel,
//! gets the colour channels only.

use image::ImageEncoder;
use vstd::prelude::*;
use vstd::slice::slice_subrange;

use crate::error::Error;
use crate::format::{layout_of, ChannelStorage, KnownFormat, LayoutDescription, MemoryFormat};
use crate::pixel::{unpremul_g8, unpremul_rgb8, unpremultiplied};

verus! {

/// Maximum output-buffer size [`to_rgba8`] will allocate: 1 GiB.
pub const MAX_OUTPUT_BYTES: usize = 0x4000_0000;

/// Whether [`to_rgba8`] can read pixels of `format`.
pub open spec fn has_rgba8_sampler(format: MemoryFormat) -> bool {
    match format {
        MemoryFormat::G8
        | MemoryFormat::G8a8
        | MemoryFormat::G8a8Premultiplied
        | MemoryFormat::R8g8b8
        | MemoryFormat::B8g8r8
        | MemoryFormat::R8g8b8a8
        | MemoryFormat::R8g8b8a8Premultiplied
        | MemoryFormat::B8g8r8a8
        | MemoryFormat::B8g8r8a8Premultiplied
        | MemoryFormat::A8r8g8b8
        | MemoryFormat::A8r8g8b8Premultiplied
        | MemoryFormat::A8b8g8r8 => true,
        _ => false,
    }
}

/// Straight-alpha RGBA8 value of the pixel stored in `p` as `format`.
#[verifier::opaque]
pub open spec fn rgba8_sample(format: MemoryFormat, p: Seq<u8>) -> Option<(u8, u8, u8, u8)> {
    match format {
        MemoryFormat::G8 => Some((p[0], p[0], p[0], 255u8)),
        MemoryFormat::G8a8 => Some((p[0], p[0], p[0], p[1])),
        MemoryFormat::G8a8Premultiplied => {
            let g = unpremultiplied(p[0], p[1]);
            Some((g, g, g, p[1]))
        },
        MemoryFormat::R8g8b8 => Some((p[0], p[1], p[2], 255u8)),
        MemoryFormat::B8g8r8 => Some((p[2], p[1], p[0], 255u8)),
        MemoryFormat::R8g8b8a8 => Some((p[0], p[1], p[2], p[3])),
        MemoryFormat::R8g8b8a8Premultiplied => Some(
            (
                unpremultiplied(p[0], p[3]),
                unpremultiplied(p[1], p[3]),
                unpremultiplied(p[2], p[3]),
                p[3],
            ),
        ),
        MemoryFormat::B8g8r8a8 => Some((p[2], p[1], p[0], p[3])),
        MemoryFormat::B8g8r8a8Premultiplied => Some(
            (
                unpremultiplied(p[2], p[3]),
                unpremultiplied(p[1], p[3]),
                unpremultiplied(p[0], p[3]),
                p[3],
            ),
        ),
        MemoryFormat::A8r8g8b8 => Some((p[1], p[2], p[3], p[0])),
        MemoryFormat::A8r8g8b8Premultiplied => Some(
            (
                unpremultiplied(p[1], p[0]),
                unpremultiplied(p[2], p[0]),
                unpremultiplied(p[3], p[0]),
                p[0],
            ),
        ),
        MemoryFormat::A8b8g8r8 => Some((p[3], p[2], p[1], p[0])),
        _ => None,
    }
}

/// Read one pixel stored as `fmt` and return it as straight-alpha RGBA8,
/// or `None` for layouts that have no 8-bit sampler.
pub fn sample_rgba8(fmt: MemoryFormat, p: &[u8]) -> (r: Option<(u8, u8, u8, u8)>)
    requires
        p@.len() >= fmt.spec_bytes_per_pixel(),
    ensures
        r == rgba8_sample(fmt, p@),
        r is Some <==> has_rgba8_sampler(fmt),
{
    proof {
        reveal(rgba8_sample);
    }
    match fmt {
        MemoryFormat::G8 => Some((p[0], p[0], p[0], 255)),
        MemoryFormat::G8a8 => Some((p[0], p[0], p[0], p[1])),
        MemoryFormat::G8a8Premultiplied => {
            let (g, a) = unpremul_g8(p[0], p[1]);
            Some((g, g, g, a))
        },
        MemoryFormat::R8g8b8 => Some((p[0], p[1], p[2], 255)),
        MemoryFormat::B8g8r8 => Some((p[2], p[1], p[0], 255)),
        MemoryFormat::R8g8b8a8 => Some((p[0], p[1], p[2], p[3])),
        MemoryFormat::R8g8b8a8Premultiplied => Some(unpremul_rgb8(p[0], p[1], p[2], p[3])),
        MemoryFormat::B8g8r8a8 => Some((p[2], p[1], p[0], p[3])),
        MemoryFormat::B8g8r8a8Premultiplied => Some(unpremul_rgb8(p[2], p[1], p[0], p[3])),
        MemoryFormat::A8r8g8b8 => Some((p[1], p[2], p[3], p[0])),
        MemoryFormat::A8r8g8b8Premultiplied => Some(unpremul_rgb8(p[1], p[2], p[3], p[0])),
        MemoryFormat::A8b8g8r8 => Some((p[3], p[2], p[1], p[0])),
        _ => None,
    }
}

/// The straight-alpha RGBA8 value of the pixel `p` of a byte layout with
/// description `d`: each colour read at its offset, alpha at its offset
/// or 255 where there is none, colour unpremultiplied where the layout
/// premultiplies.
pub open spec fn byte_layout_pixel(d: LayoutDescription, p: Seq<u8>) -> (u8, u8, u8, u8) {
    let a = match d.alpha {
        Some(k) => p[k as int],
        None => 255u8,
    };
    let r = p[d.red as int];
    let g = p[d.green as int];
    let b = p[d.blue as int];
    if d.premultiplied {
        (unpremultiplied(r, a), unpremultiplied(g, a), unpremultiplied(b, a), a)
    } else {
        (r, g, b, a)
    }
}

/// Sampling reads each channel where the layout keeps it: every layout of
/// byte channels samples to the value its channel offsets give, and
/// layouts of wider channels have no 8-bit sampler.
pub proof fn law_samples_follow_the_layout(format: MemoryFormat, p: Seq<u8>)
    ensures
        rgba8_sample(format, p) == if layout_of(format).storage == ChannelStorage::Byte {
            Some(byte_layout_pixel(layout_of(format), p))
        } else {
            None::<(u8, u8, u8, u8)>
        },
        has_rgba8_sampler(format) <==> layout_of(format).storage == ChannelStorage::Byte,
{
    reveal(rgba8_sample);
}

/// A premultiplied layout samples to its straight counterpart (the layout
/// with the same channel offsets) with each colour channel unpremultiplied
/// by alpha; so opaque pixels sample alike in both.
pub proof fn law_premultiplied_samples_unpremultiply(
    premultiplied: MemoryFormat,
    straight: MemoryFormat,
    p: Seq<u8>,
)
    requires
        layout_of(premultiplied).premultiplied,
        layout_of(premultiplied).storage == ChannelStorage::Byte,
        layout_of(straight) == (LayoutDescription { premultiplied: false, ..layout_of(premultiplied) }),
    ensures
        rgba8_sample(straight, p) matches Some((r, g, b, a)) && rgba8_sample(premultiplied, p)
            == Some((unpremultiplied(r, a), unpremultiplied(g, a), unpremultiplied(b, a), a)),
{
    law_samples_follow_the_layout(premultiplied, p);
    law_samples_follow_the_layout(straight, p);
}

/// The four output bytes of one pixel.
pub open spec fn pixel_rgba8(format: MemoryFormat, p: Seq<u8>) -> Seq<u8> {
    match rgba8_sample(format, p) {
        Some((r, g, b, a)) => seq![r, g, b, a],
        None => Seq::empty(),
    }
}

/// RGBA8 bytes of the first `n` pixels of the row starting at byte `start`.
pub open spec fn row_rgba8(data: Seq<u8>, format: MemoryFormat, start: int, n: nat) -> Seq<u8>
    decreases n,
{
    let bpp = format.spec_bytes_per_pixel() as int;
    if n == 0 {
        Seq::empty()
    } else {
        row_rgba8(data, format, start, (n - 1) as nat) + pixel_rgba8(
            format,
            data.subrange(start + (n - 1) * bpp, start + n * bpp),
        )
    }
}

/// RGBA8 bytes, row-major and unpadded, of the first `rows` rows of an
/// image of `width` pixels per row, rows `stride` bytes apart in `data`.
pub open spec fn image_rgba8(
    data: Seq<u8>,
    format: MemoryFormat,
    stride: nat,
    width: nat,
    rows: nat,
) -> Seq<u8>
    decreases rows,
{
    if rows == 0 {
        Seq::empty()
    } else {
        image_rgba8(data, format, stride, width, (rows - 1) as nat) + row_rgba8(
            data,
            format,
            (rows - 1) * stride,
            width,
        )
    }
}

/// Why [`to_rgba8`] refuses an input.
pub enum Rgba8Failure {
    RowWidthOverflow,
    NarrowStride,
    OutputStrideOverflow,
    OutputSizeOverflow,
    OutputTooLarge,
    InputSizeOverflow,
    ShortInput,
    NoSampler,
}

/// Bytes one row of pixels occupies in the input.
pub open spec fn row_bytes_of(width: u32, format: MemoryFormat) -> int {
    width * format.spec_bytes_per_pixel()
}

/// Bytes the input must hold for `height` rows: all rows but the last
/// take a full stride, the last only its pixels.
pub open spec fn needed_input(width: u32, height: u32, stride: u32, format: MemoryFormat) -> int {
    (height - 1) * stride + row_bytes_of(width, format)
}

/// The first check [`to_rgba8`] fails on, in the order it checks, or
/// `None` when the conversion succeeds.
#[verifier::opaque]
pub open spec fn rgba8_failure(
    data_len: nat,
    width: u32,
    height: u32,
    stride: u32,
    format: MemoryFormat,
) -> Option<Rgba8Failure> {
    if row_bytes_of(width, format) > usize::MAX {
        Some(Rgba8Failure::RowWidthOverflow)
    } else if row_bytes_of(width, format) > stride {
        Some(Rgba8Failure::NarrowStride)
    } else if width * 4 > usize::MAX {
        Some(Rgba8Failure::OutputStrideOverflow)
    } else if width * 4 * height > usize::MAX {
        Some(Rgba8Failure::OutputSizeOverflow)
    } else if width * 4 * height > MAX_OUTPUT_BYTES {
        Some(Rgba8Failure::OutputTooLarge)
    } else if height > 0 && ((height - 1) * stride > usize::MAX || needed_input(
        width,
        height,
        stride,
        format,
    ) > usize::MAX) {
        Some(Rgba8Failure::InputSizeOverflow)
    } else if height > 0 && data_len < needed_input(width, height, stride, format) {
        Some(Rgba8Failure::ShortInput)
    } else if width > 0 && height > 0 && !has_rgba8_sampler(format) {
        Some(Rgba8Failure::NoSampler)
    } else {
        None
    }
}

/// The text `format!("stride {stride} narrower than {row_bytes} bytes/row")`
/// gives.
pub uninterp spec fn narrow_stride_text(stride: usize, row_bytes: usize) -> Seq<char>;

/// The text `format!("no rgba8 sampler for {format:?}")` gives.
pub uninterp spec fn no_sampler_text(format: MemoryFormat) -> Seq<char>;

/// The error [`to_rgba8`] returns for each failure of a conversion of
/// `width` pixels per row, rows `stride` bytes apart, from `format`.
pub open spec fn reports_failure(
    e: Error,
    f: Rgba8Failure,
    width: u32,
    stride: u32,
    format: MemoryFormat,
) -> bool {
    match f {
        Rgba8Failure::RowWidthOverflow => e == Error::LimitExceeded("row width overflow"),
        Rgba8Failure::NarrowStride => e matches Error::Malformed(m) && m@ == narrow_stride_text(
            stride as usize,
            row_bytes_of(width, format) as usize,
        ),
        Rgba8Failure::OutputStrideOverflow => e == Error::LimitExceeded("output stride overflow"),
        Rgba8Failure::OutputSizeOverflow => e == Error::LimitExceeded("output size overflow"),
        Rgba8Failure::OutputTooLarge => e == Error::LimitExceeded("output exceeds 1 GiB"),
        Rgba8Failure::InputSizeOverflow => e == Error::LimitExceeded("input size overflow"),
        Rgba8Failure::ShortInput => e == Error::Truncated("texture data shorter than dimensions"),
        Rgba8Failure::NoSampler => e matches Error::Internal(m) && m@ == no_sampler_text(format),
    }
}

/// `r` is what [`to_rgba8`] returns for these arguments: the unpadded
/// RGBA8 pixels, or the error of the first check that fails.
pub open spec fn rgba8_conversion(
    data: Seq<u8>,
    width: u32,
    height: u32,
    stride: u32,
    format: MemoryFormat,
    r: Result<Vec<u8>, Error>,
) -> bool {
    match rgba8_failure(data.len(), width, height, stride, format) {
        None => r matches Ok(out) && out@ == image_rgba8(
            data,
            format,
            stride as nat,
            width as nat,
            height as nat,
        ),
        Some(k) => r matches Err(e) && reports_failure(e, k, width, stride, format),
    }
}

/// Message of the error for a stride that cannot hold one row: `format!`.
/// Claimed: its text is `narrow_stride_text` of the two numbers.
#[verifier::external_body]
fn narrow_stride_message(stride: usize, row_bytes: usize) -> (r: String)
    ensures
        r@ == narrow_stride_text(stride, row_bytes),
{
    format!("stride {stride} narrower than {row_bytes} bytes/row")
}

/// Message of the error for a layout without an 8-bit sampler: `format!`
/// over the layout's derived `Debug`. Claimed: its text is
/// `no_sampler_text` of the layout.
#[verifier::external_body]
fn no_sampler_message(format: MemoryFormat) -> (r: String)
    ensures
        r@ == no_sampler_text(format),
{
    format!("no rgba8 sampler for {format:?}")
}

proof fn lemma_row_len(data: Seq<u8>, format: MemoryFormat, start: int, n: nat)
    requires
        has_rgba8_sampler(format),
    ensures
        row_rgba8(data, format, start, n).len() == 4 * n,
    decreases n,
{
    reveal(rgba8_sample);
    if n > 0 {
        lemma_row_len(data, format, start, (n - 1) as nat);
    }
}

proof fn lemma_image_len(data: Seq<u8>, format: MemoryFormat, stride: nat, width: nat, rows: nat)
    requires
        rows == 0 || has_rgba8_sampler(format) || width == 0,
    ensures
        image_rgba8(data, format, stride, width, rows).len() == 4 * width * rows,
    decreases rows,
{
    if rows > 0 {
        lemma_image_len(data, format, stride, width, (rows - 1) as nat);
        if has_rgba8_sampler(format) {
            lemma_row_len(data, format, (rows - 1) * stride, width);
        }
        let prev = image_rgba8(data, format, stride, width, (rows - 1) as nat).len();
        assert(prev + 4 * width == 4 * width * rows) by (nonlinear_arith)
            requires
                prev == 4 * width * (rows - 1),
        ;
    }
}

/// Convert raw pixel data from `format` into a flat RGBA8 row-major
/// buffer with no padding between rows. Bound-checks the input and caps
/// the output allocation at [`MAX_OUTPUT_BYTES`].
pub fn to_rgba8(
    data: &[u8],
    width: u32,
    height: u32,
    stride: u32,
    format: MemoryFormat,
) -> (r: Result<Vec<u8>, Error>)
    ensures
        rgba8_conversion(data@, width, height, stride, format, r),
        r matches Ok(out) ==> out@.len() == 4 * width * height,
{
    proof {
        reveal(rgba8_failure);
    }
    let bpp = format.bytes_per_pixel() as usize;
    let w = width as usize;
    let h = height as usize;
    let s = stride as usize;
    let dlen = data.len();

    let row_bytes = match w.checked_mul(bpp) {
        Some(n) => n,
        None => return Err(Error::LimitExceeded("row width overflow")),
    };
    if row_bytes > s {
        return Err(Error::Malformed(narrow_stride_message(s, row_bytes)));
    }
    // Reject hostile width/height before any per-pixel arithmetic or
    // input bounds-check, so an absurd request fails on the cap rather
    // than on a misleading truncation error.
    let out_stride = match w.checked_mul(4) {
        Some(n) => n,
        None => return Err(Error::LimitExceeded("output stride overflow")),
    };
    let out_total = match out_stride.checked_mul(h) {
        Some(n) => n,
        None => return Err(Error::LimitExceeded("output size overflow")),
    };
    if out_total > MAX_OUTPUT_BYTES {
        return Err(Error::LimitExceeded("output exceeds 1 GiB"));
    }
    if h > 0 {
        let needed = match (h - 1).checked_mul(s) {
            Some(n) => match n.checked_add(row_bytes) {
                Some(m) => m,
                None => return Err(Error::LimitExceeded("input size overflow")),
            },
            None => return Err(Error::LimitExceeded("input size overflow")),
        };
        if dlen < needed {
            return Err(Error::Truncated("texture data shorter than dimensions"));
        }
    }
    let ghost fail = rgba8_failure(data@.len(), width, height, stride, format);
    proof {
        reveal(rgba8_failure);
        assert(fail is None || fail == Some(Rgba8Failure::NoSampler));
        assert(!has_rgba8_sampler(format) && w > 0 && h > 0 ==> fail == Some(Rgba8Failure::NoSampler));
        assert(has_rgba8_sampler(format) || w == 0 || h == 0 ==> fail is None);
    }
    let mut out: Vec<u8> = Vec::with_capacity(out_total);
    let mut y: usize = 0;
    while y < h
        invariant
            bpp == format.spec_bytes_per_pixel(),
            w == width,
            h == height,
            s == stride,
            dlen == data@.len(),
            row_bytes == w * bpp,
            row_bytes <= s,
            y <= h,
            h > 0 ==> (h - 1) * s + row_bytes <= dlen,
            out@ == image_rgba8(data@, format, s as nat, w as nat, y as nat),
            y > 0 ==> has_rgba8_sampler(format) || w == 0,
            fail == rgba8_failure(data@.len(), width, height, stride, format),
            !has_rgba8_sampler(format) && w > 0 && h > 0 ==> fail == Some(Rgba8Failure::NoSampler),
            has_rgba8_sampler(format) || w == 0 || h == 0 ==> fail is None,
        decreases h - y,
    {
        assert(y * s <= (h - 1) * s) by (nonlinear_arith)
            requires
                y < h,
        ;
        let row_offset = y * s;
        let mut x: usize = 0;
        while x < w
            invariant
                bpp == format.spec_bytes_per_pixel(),
                w == width,
                h == height,
                row_bytes == w * bpp,
                dlen == data@.len(),
                y < h,
                row_offset == y * s,
                row_offset + row_bytes <= dlen,
                x <= w,
                out@ == image_rgba8(data@, format, s as nat, w as nat, y as nat) + row_rgba8(
                    data@,
                    format,
                    row_offset as int,
                    x as nat,
                ),
                x > 0 ==> has_rgba8_sampler(format),
                fail == rgba8_failure(data@.len(), width, height, stride, format),
                !has_rgba8_sampler(format) && w > 0 && h > 0 ==> fail == Some(Rgba8Failure::NoSampler),
            decreases w - x,
        {
            assert(x * bpp + bpp <= row_bytes && (x + 1) * bpp == x * bpp + bpp) by (nonlinear_arith)
                requires
                    x < w,
                    row_bytes == w * bpp,
            ;
            let start = row_offset + x * bpp;
            let p = slice_subrange(data, start, start + bpp);
            match sample_rgba8(format, p) {
                Some((r, g, b, a)) => {
                    out.push(r);
                    out.push(g);
                    out.push(b);
                    out.push(a);
                },
                None => {
                    return Err(Error::Internal(no_sampler_message(format)));
                },
            }
            proof {
                assert(out@ =~= image_rgba8(data@, format, s as nat, w as nat, y as nat) + row_rgba8(
                    data@,
                    format,
                    row_offset as int,
                    (x + 1) as nat,
                ));
            }
            x = x + 1;
        }
        proof {
            assert(((y + 1) as nat - 1) * s == y * s);
            assert(image_rgba8(data@, format, s as nat, w as nat, (y + 1) as nat) == image_rgba8(
                data@,
                format,
                s as nat,
                w as nat,
                y as nat,
            ) + row_rgba8(data@, format, y * s, w as nat));
        }
        y = y + 1;
    }
    proof {
        lemma_image_len(data@, format, s as nat, w as nat, h as nat);
    }
    Ok(out)
}


/// One frame queued for encoding.
#[derive(Debug, Clone)]
pub struct EncodeFrame {
    /// Image width in pixels.
    pub width: u32,
    /// Image height in pixels.
    pub height: u32,
    /// Byte distance between the start of consecutive rows in `data`.
    /// Must be at least `width * format.bytes_per_pixel()`.
    pub stride: u32,
    /// Pixel layout of `data`.
    pub format: MemoryFormat,
    /// Raw pixel bytes. Must contain at least
    /// `(height - 1) * stride + width * format.bytes_per_pixel()` bytes.
    pub data: Vec<u8>,
}

/// Builder that turns one or more [`EncodeFrame`]s into encoded bytes for
/// a chosen [`KnownFormat`].
#[derive(Debug)]
pub struct Encoder {
    target: KnownFormat,
    frames: Vec<EncodeFrame>,
    quality: u8,
    compression: u8,
    icc_profile: Option<Vec<u8>>,
    metadata: Vec<(String, String)>,
}

/// Abstract state of an [`Encoder`].
pub struct EncoderView {
    pub target: KnownFormat,
    pub frames: Seq<EncodeFrame>,
    pub quality: u8,
    pub compression: u8,
    pub icc_profile: Option<Seq<u8>>,
    pub metadata: Seq<(String, String)>,
}

/// Targets that have an encoder.
pub open spec fn is_encodable(target: KnownFormat) -> bool {
    match target {
        KnownFormat::Png
        | KnownFormat::Jpeg
        | KnownFormat::Gif
        | KnownFormat::WebP
        | KnownFormat::Tiff
        | KnownFormat::Bmp => true,
        _ => false,
    }
}

/// Whether an encoder for `target` exists.
fn is_supported(target: KnownFormat) -> (r: bool)
    ensures
        r == is_encodable(target),
{
    match target {
        KnownFormat::Png
        | KnownFormat::Jpeg
        | KnownFormat::Gif
        | KnownFormat::WebP
        | KnownFormat::Tiff
        | KnownFormat::Bmp => true,
        _ => false,
    }
}

impl View for Encoder {
    type V = EncoderView;

    closed spec fn view(&self) -> EncoderView {
        EncoderView {
            target: self.target,
            frames: self.frames@,
            quality: self.quality,
            compression: self.compression,
            icc_profile: match self.icc_profile {
                Some(v) => Some(v@),
                None => None,
            },
            metadata: self.metadata@,
        }
    }
}

impl Encoder {
    /// Create an encoder for `target`, with quality 75, compression 6,
    /// no ICC profile, no metadata and no frames. Returns
    /// [`Error::UnsupportedFormat`] when no encoder for that format exists.
    pub fn new(target: KnownFormat) -> (r: Result<Self, Error>)
        ensures
            is_encodable(target) <==> r is Ok,
            r matches Err(e) ==> e is UnsupportedFormat,
            r matches Ok(enc) ==> {
                &&& enc@.target == target
                &&& enc@.frames == Seq::<EncodeFrame>::empty()
                &&& enc@.quality == 75
                &&& enc@.compression == 6
                &&& enc@.icc_profile is None
                &&& enc@.metadata == Seq::<(String, String)>::empty()
            },
    {
        if !is_supported(target) {
            return Err(Error::UnsupportedFormat);
        }
        Ok(Encoder {
            target,
            frames: Vec::new(),
            quality: 75,
            compression: 6,
            icc_profile: None,
            metadata: Vec::new(),
        })
    }

    /// Target format the encoder was built for.
    pub fn target(&self) -> (r: KnownFormat)
        ensures
            r == self@.target,
    {
        self.target
    }

    /// Append a frame to encode.
    pub fn add_frame(&mut self, frame: EncodeFrame) -> (r: &mut Self)
        ensures
            r@ == (EncoderView { frames: old(self)@.frames.push(frame), ..old(self)@ }),
            final(self)@ == final(r)@,
    {
        self.frames.push(frame);
        self
    }

    /// Set the lossy quality for codecs that honour it (JPEG). Lossless
    /// codecs ignore this value.
    pub fn set_quality(&mut self, quality: u8) -> (r: &mut Self)
        ensures
            r@ == (EncoderView { quality, ..old(self)@ }),
            final(self)@ == final(r)@,
    {
        self.quality = quality;
        self
    }

    /// Set the compression level for codecs that honour it. The current
    /// codecs ignore it; the value is retained.
    pub fn set_compression(&mut self, compression: u8) -> (r: &mut Self)
        ensures
            r@ == (EncoderView { compression, ..old(self)@ }),
            final(self)@ == final(r)@,
    {
        self.compression = compression;
        self
    }

    /// Attach (or clear, with `None`) an ICC profile that PNG, JPEG and
    /// WebP output embed.
    pub fn set_icc_profile(&mut self, icc: Option<Vec<u8>>) -> (r: &mut Self)
        ensures
            r@ == (EncoderView {
                icc_profile: match icc {
                    Some(v) => Some(v@),
                    None => None,
                },
                ..old(self)@
            }),
            final(self)@ == final(r)@,
    {
        self.icc_profile = icc;
        self
    }

    /// Attach a metadata key/value pair. It is retained on the encoder;
    /// the current codecs do not embed it.
    pub fn add_metadata(&mut self, key: String, value: String) -> (r: &mut Self)
        ensures
            r@ == (EncoderView { metadata: old(self)@.metadata.push((key, value)), ..old(self)@ }),
            final(self)@ == final(r)@,
    {
        self.metadata.push((key, value));
        self
    }

    /// Drop any frames previously added with [`Encoder::add_frame`].
    pub fn clear_frames(&mut self) -> (r: &mut Self)
        ensures
            r@ == (EncoderView { frames: Seq::<EncodeFrame>::empty(), ..old(self)@ }),
            final(self)@ == final(r)@,
    {
        self.frames.clear();
        self
    }

    /// Encode the queued frame into a byte buffer. Frames stay queued.
    ///
    /// Returns [`Error::Internal`] when no frame, or more than one frame,
    /// was queued; the conversion errors of [`to_rgba8`]; and
    /// [`Error::Encoder`] when the codec refuses the image.
    pub fn encode(&self) -> (r: Result<Vec<u8>, Error>)
        ensures
            encode_result(self@, r),
    {
        if self.frames.len() == 0 {
            return Err(Error::Internal("no frames queued for encode".to_owned()));
        }
        if self.frames.len() > 1 {
            return Err(Error::Internal("multi-frame encoding is not yet supported".to_owned()));
        }
        let frame = &self.frames[0];
        let rgba = match to_rgba8(frame.data.as_slice(), frame.width, frame.height, frame.stride, frame.format) {
            Ok(v) => v,
            Err(e) => return Err(e),
        };
        assert(4 * frame.width * frame.height == frame.width * frame.height * 4) by (nonlinear_arith);
        encode_dispatch(self, rgba.as_slice(), frame.width, frame.height)
    }
}

/// `r` is what encoding an encoder in state `v` returns: an
/// [`Error::Internal`] unless exactly one frame is queued, the conversion
/// error of [`to_rgba8`] for that frame, or else the codec's outcome on
/// the frame's RGBA8 pixels.
pub open spec fn encode_result(v: EncoderView, r: Result<Vec<u8>, Error>) -> bool {
    if v.frames.len() == 0 {
        r matches Err(Error::Internal(m)) && m@ == "no frames queued for encode"@
    } else if v.frames.len() > 1 {
        r matches Err(Error::Internal(m)) && m@ == "multi-frame encoding is not yet supported"@
    } else {
        let f = v.frames[0];
        match rgba8_failure(f.data@.len(), f.width, f.height, f.stride, f.format) {
            Some(k) => r matches Err(e) && reports_failure(e, k, f.width, f.stride, f.format),
            None => encoding_outcome(
                r,
                v.target,
                v.quality,
                v.icc_profile,
                image_rgba8(f.data@, f.format, f.stride as nat, f.width as nat, f.height as nat),
                f.width,
                f.height,
            ),
        }
    }
}

/// Two errors carry the same variant and the same values, messages
/// compared by their text.
pub open spec fn same_error(a: Error, b: Error) -> bool {
    match (a, b) {
        (Error::UnsupportedFormat, Error::UnsupportedFormat) => true,
        (Error::Malformed(x), Error::Malformed(y)) => x@ == y@,
        (Error::Truncated(x), Error::Truncated(y)) => x == y,
        (Error::LimitExceeded(x), Error::LimitExceeded(y)) => x == y,
        (
            Error::Decoder { format: f, message: m },
            Error::Decoder { format: g, message: n },
        ) => f == g && m@ == n@,
        (
            Error::Encoder { format: f, message: m },
            Error::Encoder { format: g, message: n },
        ) => f == g && m@ == n@,
        (Error::Internal(x), Error::Internal(y)) => x@ == y@,
        _ => false,
    }
}

/// Two results are alike: the same bytes, or alike errors.
pub open spec fn same_outcome(a: Result<Vec<u8>, Error>, b: Result<Vec<u8>, Error>) -> bool {
    match (a, b) {
        (Ok(x), Ok(y)) => x@ == y@,
        (Err(x), Err(y)) => same_error(x, y),
        _ => false,
    }
}

/// Encoding does not consume the encoder and is deterministic: two calls
/// on one encoder (`encode` takes it by shared reference) return alike
/// results.
pub proof fn law_encode_is_deterministic(v: EncoderView, r1: Result<Vec<u8>, Error>, r2: Result<Vec<u8>, Error>)
    requires
        encode_result(v, r1),
        encode_result(v, r2),
    ensures
        same_outcome(r1, r2),
{
}

/// Settings that reach no codec change nothing that encoding returns:
/// the compression level and metadata never do, the quality only for
/// JPEG, and the ICC profile only for PNG, JPEG and WebP.
pub proof fn law_unused_settings_do_not_change_output(
    v: EncoderView,
    w: EncoderView,
    r1: Result<Vec<u8>, Error>,
    r2: Result<Vec<u8>, Error>,
)
    requires
        v.target == w.target,
        v.frames == w.frames,
        v.quality == w.quality || v.target != KnownFormat::Jpeg,
        v.icc_profile == w.icc_profile || v.target == KnownFormat::Gif || v.target
            == KnownFormat::Tiff || v.target == KnownFormat::Bmp,
        encode_result(v, r1),
        encode_result(w, r2),
    ensures
        same_outcome(r1, r2),
{
}

/// When the queued frame cannot be converted to RGBA8, encoding returns
/// the very error the conversion returns.
pub proof fn law_encode_returns_the_conversion_error(
    v: EncoderView,
    conversion: Result<Vec<u8>, Error>,
    r: Result<Vec<u8>, Error>,
)
    requires
        v.frames.len() == 1,
        rgba8_conversion(
            v.frames[0].data@,
            v.frames[0].width,
            v.frames[0].height,
            v.frames[0].stride,
            v.frames[0].format,
            conversion,
        ),
        conversion is Err,
        encode_result(v, r),
    ensures
        r is Err && same_error(conversion->Err_0, r->Err_0),
{
}

/// An encoder with no frame queued (a new one, or one whose frames were
/// cleared) and one with several frames refuse to encode, with an
/// internal error.
pub proof fn law_encode_needs_exactly_one_frame(v: EncoderView, r: Result<Vec<u8>, Error>)
    requires
        v.frames.len() != 1,
        encode_result(v, r),
    ensures
        r matches Err(Error::Internal(_)),
{
}

/// `r` is the answer of a codec whose outcome is `named`, as encoding for
/// `target` reports it: the same bytes, or an [`Error::Encoder`] naming
/// the format with the codec's error text.
pub open spec fn reports_codec(r: Result<Vec<u8>, Error>, target: KnownFormat, named: Result<Seq<u8>, Seq<char>>) -> bool {
    match r {
        Ok(bytes) => named == Ok::<Seq<u8>, Seq<char>>(bytes@),
        Err(e) => e matches Error::Encoder { format, message } && format == target.spec_name()
            && named == Err::<Seq<u8>, Seq<char>>(message@),
    }
}

/// With one frame queued that converts to the RGBA8 pixels `pixels`,
/// encoding hands those pixels to the codec of the target, and the ICC
/// profile set on the encoder reaches each codec that embeds one: PNG and
/// WebP take the pixels with the profile, JPEG their colour channels with
/// the quality and the profile; GIF, TIFF and BMP take the pixels alone.
pub proof fn law_encode_runs_the_target_codec(
    v: EncoderView,
    pixels: Result<Vec<u8>, Error>,
    r: Result<Vec<u8>, Error>,
)
    requires
        v.frames.len() == 1,
        rgba8_conversion(
            v.frames[0].data@,
            v.frames[0].width,
            v.frames[0].height,
            v.frames[0].stride,
            v.frames[0].format,
            pixels,
        ),
        pixels is Ok,
        encode_result(v, r),
    ensures
        v.target == KnownFormat::Png ==> reports_codec(
            r,
            v.target,
            png_encoding(pixels->Ok_0@, v.frames[0].width, v.frames[0].height, v.icc_profile),
        ),
        v.target == KnownFormat::Jpeg ==> reports_codec(
            r,
            v.target,
            jpeg_encoding(
                rgb_of(pixels->Ok_0@),
                v.frames[0].width,
                v.frames[0].height,
                v.quality,
                v.icc_profile,
            ),
        ),
        v.target == KnownFormat::WebP ==> reports_codec(
            r,
            v.target,
            webp_encoding(pixels->Ok_0@, v.frames[0].width, v.frames[0].height, v.icc_profile),
        ),
        v.target == KnownFormat::Gif ==> reports_codec(
            r,
            v.target,
            gif_encoding(pixels->Ok_0@, v.frames[0].width, v.frames[0].height),
        ),
        v.target == KnownFormat::Tiff ==> reports_codec(
            r,
            v.target,
            tiff_encoding(pixels->Ok_0@, v.frames[0].width, v.frames[0].height),
        ),
        v.target == KnownFormat::Bmp ==> reports_codec(
            r,
            v.target,
            bmp_encoding(pixels->Ok_0@, v.frames[0].width, v.frames[0].height),
        ),
{
}

/// The colour channels of an RGBA8 buffer: every fourth byte dropped.
pub open spec fn rgb_of(rgba: Seq<u8>) -> Seq<u8> {
    Seq::new((rgba.len() / 4) * 3, |i: int| rgba[(i / 3) * 4 + i % 3])
}

/// Copy the colour channels of an RGBA8 buffer, dropping alpha.
pub fn rgba_to_rgb(rgba: &[u8]) -> (r: Vec<u8>)
    ensures
        r@ == rgb_of(rgba@),
{
    let len = rgba.len();
    let n = len / 4;
    let mut out: Vec<u8> = Vec::new();
    let mut i: usize = 0;
    while i < n
        invariant
            len == rgba@.len(),
            n == len / 4,
            i <= n,
            out@.len() == 3 * i,
            forall|k: int| 0 <= k < 3 * i ==> out@[k] == rgba@[(k / 3) * 4 + k % 3],
        decreases n - i,
    {
        let ghost before = out@;
        assert(4 * i + 3 < len);
        out.push(rgba[4 * i]);
        out.push(rgba[4 * i + 1]);
        out.push(rgba[4 * i + 2]);
        proof {
            assert forall|k: int| 0 <= k < 3 * (i + 1) implies out@[k] == rgba@[(k / 3) * 4 + k % 3] by {
                if k >= 3 * i {
                    assert(k / 3 == i);
                    assert(k % 3 == k - 3 * i);
                } else {
                    assert(out@[k] == before[k]);
                }
            }
        }
        i = i + 1;
    }
    assert(out@ =~= rgb_of(rgba@));
    out
}

/// What the codec of `target` produces for an RGBA8 buffer: the encoded
/// bytes, or the text of the codec's error. JPEG is handed the colour
/// channels only.
pub open spec fn codec_output(
    target: KnownFormat,
    quality: u8,
    icc: Option<Seq<u8>>,
    rgba: Seq<u8>,
    width: u32,
    height: u32,
) -> Result<Seq<u8>, Seq<char>> {
    match target {
        KnownFormat::Png => png_encoding(rgba, width, height, icc),
        KnownFormat::Jpeg => jpeg_encoding(rgb_of(rgba), width, height, quality, icc),
        KnownFormat::Gif => gif_encoding(rgba, width, height),
        KnownFormat::WebP => webp_encoding(rgba, width, height, icc),
        KnownFormat::Tiff => tiff_encoding(rgba, width, height),
        KnownFormat::Bmp => bmp_encoding(rgba, width, height),
        _ => Err(Seq::empty()),
    }
}

/// `r` is what encoding `rgba` for `target` returns: the codec's bytes,
/// an [`Error::Encoder`] naming the format when the codec refuses, and
/// [`Error::UnsupportedFormat`] when there is no codec.
pub open spec fn encoding_outcome(
    r: Result<Vec<u8>, Error>,
    target: KnownFormat,
    quality: u8,
    icc: Option<Seq<u8>>,
    rgba: Seq<u8>,
    width: u32,
    height: u32,
) -> bool {
    if !is_encodable(target) {
        r matches Err(Error::UnsupportedFormat)
    } else {
        match r {
            Ok(bytes) => codec_output(target, quality, icc, rgba, width, height) == Ok::<
                Seq<u8>,
                Seq<char>,
            >(bytes@),
            Err(e) => e matches Error::Encoder { format, message } && format == target.spec_name()
                && codec_output(target, quality, icc, rgba, width, height) == Err::<
                Seq<u8>,
                Seq<char>,
            >(message@),
        }
    }
}

/// Run the codec of the encoder's target over an RGBA8 buffer.
fn encode_dispatch(cfg: &Encoder, rgba: &[u8], width: u32, height: u32) -> (r: Result<Vec<u8>, Error>)
    requires
        rgba@.len() == width * height * 4,
    ensures
        encoding_outcome(r, cfg@.target, cfg@.quality, cfg@.icc_profile, rgba@, width, height),
{
    let result = match cfg.target {
        KnownFormat::Png => match &cfg.icc_profile {
            Some(p) => png_encode_with_icc(rgba, width, height, p.clone()),
            None => png_encode(rgba, width, height),
        },
        KnownFormat::Jpeg => {
            let rgb = rgba_to_rgb(rgba);
            assert(rgb@.len() == width * height * 3);
            match &cfg.icc_profile {
                Some(p) => jpeg_encode_with_icc(rgb.as_slice(), width, height, cfg.quality, p.clone()),
                None => jpeg_encode(rgb.as_slice(), width, height, cfg.quality),
            }
        },
        KnownFormat::Gif => gif_encode(rgba, width, height),
        KnownFormat::WebP => match &cfg.icc_profile {
            Some(p) => webp_encode_with_icc(rgba, width, height, p.clone()),
            None => webp_encode(rgba, width, height),
        },
        KnownFormat::Tiff => tiff_encode(rgba, width, height),
        KnownFormat::Bmp => bmp_encode(rgba, width, height),
        _ => return Err(Error::UnsupportedFormat),
    };
    match result {
        Ok(bytes) => Ok(bytes),
        Err(message) => Err(Error::Encoder { format: cfg.target.name(), message }),
    }
}

/// `r` agrees with a codec whose outcome is `named`: the same bytes, or
/// the same error text.
pub open spec fn codec_agrees(r: Result<Vec<u8>, String>, named: Result<Seq<u8>, Seq<char>>) -> bool {
    match r {
        Ok(bytes) => named == Ok::<Seq<u8>, Seq<char>>(bytes@),
        Err(m) => named == Err::<Seq<u8>, Seq<char>>(m@),
    }
}

/// What the `image` crate's PNG encoder gives for an RGBA8 buffer with an
/// optional ICC profile: the bytes it writes, or the text of its error.
pub uninterp spec fn png_encoding(rgba: Seq<u8>, width: u32, height: u32, icc: Option<Seq<u8>>) -> Result<Seq<u8>, Seq<char>>;

/// What the `image` crate's JPEG encoder gives for an RGB8 buffer at
/// `quality`: the bytes it writes, or the text of its error.
pub uninterp spec fn jpeg_encoding(
    rgb: Seq<u8>,
    width: u32,
    height: u32,
    quality: u8,
    icc: Option<Seq<u8>>,
) -> Result<Seq<u8>, Seq<char>>;

/// What the `image` crate's GIF encoder gives: bytes or error text.
pub uninterp spec fn gif_encoding(rgba: Seq<u8>, width: u32, height: u32) -> Result<Seq<u8>, Seq<char>>;

/// What the `image` crate's lossless WebP encoder gives: bytes or error
/// text.
pub uninterp spec fn webp_encoding(rgba: Seq<u8>, width: u32, height: u32, icc: Option<Seq<u8>>) -> Result<Seq<u8>, Seq<char>>;

/// What the `image` crate's TIFF encoder gives: bytes or error text.
pub uninterp spec fn tiff_encoding(rgba: Seq<u8>, width: u32, height: u32) -> Result<Seq<u8>, Seq<char>>;

/// What the `image` crate's BMP encoder gives: bytes or error text.
pub uninterp spec fn bmp_encoding(rgba: Seq<u8>, width: u32, height: u32) -> Result<Seq<u8>, Seq<char>>;

/// `image::codecs::png::PngEncoder::write_image` on an RGBA8 buffer.
/// Claimed: the output (or the failure) is `png_encoding` of the
/// arguments; the error text is not stated. The encoder panics unless the
/// buffer holds exactly `width * height * 4` bytes.
#[verifier::external_body]
fn png_encode(rgba: &[u8], width: u32, height: u32) -> (r: Result<Vec<u8>, String>)
    requires
        rgba@.len() == width * height * 4,
    ensures
        codec_agrees(r, png_encoding(rgba@, width, height, None)),
{
    let mut out = std::io::Cursor::new(Vec::new());
    let enc = image::codecs::png::PngEncoder::new(&mut out);
    match enc.write_image(rgba, width, height, image::ExtendedColorType::Rgba8) {
        Ok(()) => Ok(out.into_inner()),
        Err(e) => Err(e.to_string()),
    }
}

/// `PngEncoder::set_icc_profile` then `write_image` on an RGBA8 buffer.
/// Claimed: the outcome is `png_encoding` with that profile.
#[verifier::external_body]
fn png_encode_with_icc(rgba: &[u8], width: u32, height: u32, icc: Vec<u8>) -> (r: Result<Vec<u8>, String>)
    requires
        rgba@.len() == width * height * 4,
    ensures
        codec_agrees(r, png_encoding(rgba@, width, height, Some(icc@))),
{
    let mut out = std::io::Cursor::new(Vec::new());
    let mut enc = image::codecs::png::PngEncoder::new(&mut out);
    let _ = enc.set_icc_profile(icc);
    match enc.write_image(rgba, width, height, image::ExtendedColorType::Rgba8) {
        Ok(()) => Ok(out.into_inner()),
        Err(e) => Err(e.to_string()),
    }
}

/// `image::codecs::jpeg::JpegEncoder::new_with_quality` then
/// `write_image` on an RGB8 buffer. Claimed: the outcome is
/// `jpeg_encoding` of the arguments. The encoder panics unless the buffer
/// holds exactly `width * height * 3` bytes.
#[verifier::external_body]
fn jpeg_encode(rgb: &[u8], width: u32, height: u32, quality: u8) -> (r: Result<Vec<u8>, String>)
    requires
        rgb@.len() == width * height * 3,
    ensures
        codec_agrees(r, jpeg_encoding(rgb@, width, height, quality, None)),
{
    let mut out = std::io::Cursor::new(Vec::new());
    let enc = image::codecs::jpeg::JpegEncoder::new_with_quality(&mut out, quality);
    match enc.write_image(rgb, width, height, image::ExtendedColorType::Rgb8) {
        Ok(()) => Ok(out.into_inner()),
        Err(e) => Err(e.to_string()),
    }
}

/// `JpegEncoder::new_with_quality`, `set_icc_profile`, `write_image` on
/// an RGB8 buffer. Claimed: the outcome is `jpeg_encoding` with that
/// profile.
#[verifier::external_body]
fn jpeg_encode_with_icc(
    rgb: &[u8],
    width: u32,
    height: u32,
    quality: u8,
    icc: Vec<u8>,
) -> (r: Result<Vec<u8>, String>)
    requires
        rgb@.len() == width * height * 3,
    ensures
        codec_agrees(r, jpeg_encoding(rgb@, width, height, quality, Some(icc@))),
{
    let mut out = std::io::Cursor::new(Vec::new());
    let mut enc = image::codecs::jpeg::JpegEncoder::new_with_quality(&mut out, quality);
    let _ = enc.set_icc_profile(icc);
    match enc.write_image(rgb, width, height, image::ExtendedColorType::Rgb8) {
        Ok(()) => Ok(out.into_inner()),
        Err(e) => Err(e.to_string()),
    }
}

/// `image::codecs::gif::GifEncoder::encode` on an RGBA8 buffer; the
/// encoder is dropped (writing the trailer) before the bytes are taken.
/// Claimed: the outcome is `gif_encoding` of the arguments.
#[verifier::external_body]
fn gif_encode(rgba: &[u8], width: u32, height: u32) -> (r: Result<Vec<u8>, String>)
    requires
        rgba@.len() == width * height * 4,
    ensures
        codec_agrees(r, gif_encoding(rgba@, width, height)),
{
    let mut out = std::io::Cursor::new(Vec::new());
    let result = {
        let mut enc = image::codecs::gif::GifEncoder::new(&mut out);
        enc.encode(rgba, width, height, image::ExtendedColorType::Rgba8)
    };
    match result {
        Ok(()) => Ok(out.into_inner()),
        Err(e) => Err(e.to_string()),
    }
}

/// `image::codecs::webp::WebPEncoder::new_lossless` then `write_image`.
/// Claimed: the outcome is `webp_encoding` of the arguments.
#[verifier::external_body]
fn webp_encode(rgba: &[u8], width: u32, height: u32) -> (r: Result<Vec<u8>, String>)
    requires
        rgba@.len() == width * height * 4,
    ensures
        codec_agrees(r, webp_encoding(rgba@, width, height, None)),
{
    let mut out = std::io::Cursor::new(Vec::new());
    let enc = image::codecs::webp::WebPEncoder::new_lossless(&mut out);
    match enc.write_image(rgba, width, height, image::ExtendedColorType::Rgba8) {
        Ok(()) => Ok(out.into_inner()),
        Err(e) => Err(e.to_string()),
    }
}

/// `WebPEncoder::new_lossless`, `set_icc_profile`, `write_image`.
/// Claimed: the outcome is `webp_encoding` with that profile.
#[verifier::external_body]
fn webp_encode_with_icc(rgba: &[u8], width: u32, height: u32, icc: Vec<u8>) -> (r: Result<Vec<u8>, String>)
    requires
        rgba@.len() == width * height * 4,
    ensures
        codec_agrees(r, webp_encoding(rgba@, width, height, Some(icc@))),
{
    let mut out = std::io::Cursor::new(Vec::new());
    let mut enc = image::codecs::webp::WebPEncoder::new_lossless(&mut out);
    let _ = enc.set_icc_profile(icc);
    match enc.write_image(rgba, width, height, image::ExtendedColorType::Rgba8) {
        Ok(()) => Ok(out.into_inner()),
        Err(e) => Err(e.to_string()),
    }
}

/// `image::codecs::tiff::TiffEncoder::write_image` on an RGBA8 buffer.
/// Claimed: the outcome is `tiff_encoding` of the arguments.
#[verifier::external_body]
fn tiff_encode(rgba: &[u8], width: u32, height: u32) -> (r: Result<Vec<u8>, String>)
    requires
        rgba@.len() == width * height * 4,
    ensures
        codec_agrees(r, tiff_encoding(rgba@, width, height)),
{
    let mut out = std::io::Cursor::new(Vec::new());
    let enc = image::codecs::tiff::TiffEncoder::new(&mut out);
    match enc.write_image(rgba, width, height, image::ExtendedColorType::Rgba8) {
        Ok(()) => Ok(out.into_inner()),
        Err(e) => Err(e.to_string()),
    }
}

/// `image::codecs::bmp::BmpEncoder::write_image` on an RGBA8 buffer.
/// Claimed: the outcome is `bmp_encoding` of the arguments.
#[verifier::external_body]
fn bmp_encode(rgba: &[u8], width: u32, height: u32) -> (r: Result<Vec<u8>, String>)
    requires
        rgba@.len() == width * height * 4,
    ensures
        codec_agrees(r, bmp_encoding(rgba@, width, height)),
{
    let mut out = std::io::Cursor::new(Vec::new());
    let result = image::codecs::bmp::BmpEncoder::new(&mut out).write_image(
        rgba,
        width,
        height,
        image::ExtendedColorType::Rgba8,
    );
    match result {
        Ok(()) => Ok(out.into_inner()),
        Err(e) => Err(e.to_string()),
    }
}

} // verus!
