//! Memory-format selection for the libglycin compatibility layer.
//!
//! The glycin v2 ABI numbers its memory formats (`GlyMemoryFormat`)
//! differently from glycin-ng's `GLYCIN_NG_FORMAT_*` constants, and lets a
//! caller restrict the formats it accepts with a selection bitmask
//! (`GlyMemoryFormatSelection`). This module maps between the two
//! numberings and converts a decoded frame into a format the caller
//! accepts.

use vstd::prelude::*;
use vstd::slice::slice_subrange;

use crate::encoder::{has_rgba8_sampler, rgba8_sample, sample_rgba8};
use crate::format::{is_grey, layout_of, ChannelStorage, MemoryFormat};
use crate::pixel::{luma, luma_of};

verus! {

pub const GLYCIN_NG_FORMAT_UNKNOWN: u32 = 0;
pub const GLYCIN_NG_FORMAT_G8: u32 = 1;
pub const GLYCIN_NG_FORMAT_G8A8: u32 = 2;
pub const GLYCIN_NG_FORMAT_G8A8_PRE: u32 = 3;
pub const GLYCIN_NG_FORMAT_G16: u32 = 4;
pub const GLYCIN_NG_FORMAT_G16A16: u32 = 5;
pub const GLYCIN_NG_FORMAT_G16A16_PRE: u32 = 6;
pub const GLYCIN_NG_FORMAT_R8G8B8: u32 = 10;
pub const GLYCIN_NG_FORMAT_R8G8B8A8: u32 = 11;
pub const GLYCIN_NG_FORMAT_R8G8B8A8_PRE: u32 = 12;
pub const GLYCIN_NG_FORMAT_B8G8R8: u32 = 13;
pub const GLYCIN_NG_FORMAT_B8G8R8A8: u32 = 14;
pub const GLYCIN_NG_FORMAT_B8G8R8A8_PRE: u32 = 15;
pub const GLYCIN_NG_FORMAT_A8R8G8B8: u32 = 16;
pub const GLYCIN_NG_FORMAT_A8R8G8B8_PRE: u32 = 17;
pub const GLYCIN_NG_FORMAT_A8B8G8R8: u32 = 18;
pub const GLYCIN_NG_FORMAT_R16G16B16: u32 = 20;
pub const GLYCIN_NG_FORMAT_R16G16B16A16: u32 = 21;
pub const GLYCIN_NG_FORMAT_R16G16B16A16_PRE: u32 = 22;
pub const GLYCIN_NG_FORMAT_R16G16B16_F: u32 = 23;
pub const GLYCIN_NG_FORMAT_R16G16B16A16_F: u32 = 24;
pub const GLYCIN_NG_FORMAT_R32G32B32_F: u32 = 25;
pub const GLYCIN_NG_FORMAT_R32G32B32A32_F: u32 = 26;
pub const GLYCIN_NG_FORMAT_R32G32B32A32_F_PRE: u32 = 27;

// `GlyMemoryFormat` values; positional in the C enum.
pub const GLY_MEMORY_B8G8R8A8_PREMULTIPLIED: i32 = 0;
pub const GLY_MEMORY_A8R8G8B8_PREMULTIPLIED: i32 = 1;
pub const GLY_MEMORY_R8G8B8A8_PREMULTIPLIED: i32 = 2;
pub const GLY_MEMORY_B8G8R8A8: i32 = 3;
pub const GLY_MEMORY_A8R8G8B8: i32 = 4;
pub const GLY_MEMORY_R8G8B8A8: i32 = 5;
pub const GLY_MEMORY_A8B8G8R8: i32 = 6;
pub const GLY_MEMORY_R8G8B8: i32 = 7;
pub const GLY_MEMORY_B8G8R8: i32 = 8;
pub const GLY_MEMORY_R16G16B16: i32 = 9;
pub const GLY_MEMORY_R16G16B16A16_PREMULTIPLIED: i32 = 10;
pub const GLY_MEMORY_R16G16B16A16: i32 = 11;
pub const GLY_MEMORY_R16G16B16_FLOAT: i32 = 12;
pub const GLY_MEMORY_R16G16B16A16_FLOAT: i32 = 13;
pub const GLY_MEMORY_R32G32B32_FLOAT: i32 = 14;
pub const GLY_MEMORY_R32G32B32A32_FLOAT_PREMULTIPLIED: i32 = 15;
pub const GLY_MEMORY_R32G32B32A32_FLOAT: i32 = 16;
pub const GLY_MEMORY_G8A8_PREMULTIPLIED: i32 = 17;
pub const GLY_MEMORY_G8A8: i32 = 18;
pub const GLY_MEMORY_G8: i32 = 19;
pub const GLY_MEMORY_G16A16_PREMULTIPLIED: i32 = 20;
pub const GLY_MEMORY_G16A16: i32 = 21;
pub const GLY_MEMORY_G16: i32 = 22;

/// Every bit a `GlyMemoryFormatSelection` may carry: one per
/// `GlyMemoryFormat` value, bit `n` for value `n`.
pub const SELECTION_ALL: u32 = 0x7f_ffff;

/// The glycin-ng layout a `GLYCIN_NG_FORMAT_*` constant names.
pub open spec fn ng_memory_format(format: u32) -> Option<MemoryFormat> {
    if format == GLYCIN_NG_FORMAT_G8 { Some(MemoryFormat::G8) }
    else if format == GLYCIN_NG_FORMAT_G8A8 { Some(MemoryFormat::G8a8) }
    else if format == GLYCIN_NG_FORMAT_G8A8_PRE { Some(MemoryFormat::G8a8Premultiplied) }
    else if format == GLYCIN_NG_FORMAT_G16 { Some(MemoryFormat::G16) }
    else if format == GLYCIN_NG_FORMAT_G16A16 { Some(MemoryFormat::G16a16) }
    else if format == GLYCIN_NG_FORMAT_G16A16_PRE { Some(MemoryFormat::G16a16Premultiplied) }
    else if format == GLYCIN_NG_FORMAT_R8G8B8 { Some(MemoryFormat::R8g8b8) }
    else if format == GLYCIN_NG_FORMAT_R8G8B8A8 { Some(MemoryFormat::R8g8b8a8) }
    else if format == GLYCIN_NG_FORMAT_R8G8B8A8_PRE { Some(MemoryFormat::R8g8b8a8Premultiplied) }
    else if format == GLYCIN_NG_FORMAT_B8G8R8 { Some(MemoryFormat::B8g8r8) }
    else if format == GLYCIN_NG_FORMAT_B8G8R8A8 { Some(MemoryFormat::B8g8r8a8) }
    else if format == GLYCIN_NG_FORMAT_B8G8R8A8_PRE { Some(MemoryFormat::B8g8r8a8Premultiplied) }
    else if format == GLYCIN_NG_FORMAT_A8R8G8B8 { Some(MemoryFormat::A8r8g8b8) }
    else if format == GLYCIN_NG_FORMAT_A8R8G8B8_PRE { Some(MemoryFormat::A8r8g8b8Premultiplied) }
    else if format == GLYCIN_NG_FORMAT_A8B8G8R8 { Some(MemoryFormat::A8b8g8r8) }
    else if format == GLYCIN_NG_FORMAT_R16G16B16 { Some(MemoryFormat::R16g16b16) }
    else if format == GLYCIN_NG_FORMAT_R16G16B16A16 { Some(MemoryFormat::R16g16b16a16) }
    else if format == GLYCIN_NG_FORMAT_R16G16B16A16_PRE { Some(MemoryFormat::R16g16b16a16Premultiplied) }
    else if format == GLYCIN_NG_FORMAT_R16G16B16_F { Some(MemoryFormat::R16g16b16Float) }
    else if format == GLYCIN_NG_FORMAT_R16G16B16A16_F { Some(MemoryFormat::R16g16b16a16Float) }
    else if format == GLYCIN_NG_FORMAT_R32G32B32_F { Some(MemoryFormat::R32g32b32Float) }
    else if format == GLYCIN_NG_FORMAT_R32G32B32A32_F { Some(MemoryFormat::R32g32b32a32Float) }
    else if format == GLYCIN_NG_FORMAT_R32G32B32A32_F_PRE { Some(MemoryFormat::R32g32b32a32FloatPremultiplied) }
    else { None }
}

/// The layout a `GLYCIN_NG_FORMAT_*` constant names, if any.
pub fn memory_format_of(format: u32) -> (r: Option<MemoryFormat>)
    ensures
        r == ng_memory_format(format),
{
    if format == GLYCIN_NG_FORMAT_G8 { Some(MemoryFormat::G8) }
    else if format == GLYCIN_NG_FORMAT_G8A8 { Some(MemoryFormat::G8a8) }
    else if format == GLYCIN_NG_FORMAT_G8A8_PRE { Some(MemoryFormat::G8a8Premultiplied) }
    else if format == GLYCIN_NG_FORMAT_G16 { Some(MemoryFormat::G16) }
    else if format == GLYCIN_NG_FORMAT_G16A16 { Some(MemoryFormat::G16a16) }
    else if format == GLYCIN_NG_FORMAT_G16A16_PRE { Some(MemoryFormat::G16a16Premultiplied) }
    else if format == GLYCIN_NG_FORMAT_R8G8B8 { Some(MemoryFormat::R8g8b8) }
    else if format == GLYCIN_NG_FORMAT_R8G8B8A8 { Some(MemoryFormat::R8g8b8a8) }
    else if format == GLYCIN_NG_FORMAT_R8G8B8A8_PRE { Some(MemoryFormat::R8g8b8a8Premultiplied) }
    else if format == GLYCIN_NG_FORMAT_B8G8R8 { Some(MemoryFormat::B8g8r8) }
    else if format == GLYCIN_NG_FORMAT_B8G8R8A8 { Some(MemoryFormat::B8g8r8a8) }
    else if format == GLYCIN_NG_FORMAT_B8G8R8A8_PRE { Some(MemoryFormat::B8g8r8a8Premultiplied) }
    else if format == GLYCIN_NG_FORMAT_A8R8G8B8 { Some(MemoryFormat::A8r8g8b8) }
    else if format == GLYCIN_NG_FORMAT_A8R8G8B8_PRE { Some(MemoryFormat::A8r8g8b8Premultiplied) }
    else if format == GLYCIN_NG_FORMAT_A8B8G8R8 { Some(MemoryFormat::A8b8g8r8) }
    else if format == GLYCIN_NG_FORMAT_R16G16B16 { Some(MemoryFormat::R16g16b16) }
    else if format == GLYCIN_NG_FORMAT_R16G16B16A16 { Some(MemoryFormat::R16g16b16a16) }
    else if format == GLYCIN_NG_FORMAT_R16G16B16A16_PRE { Some(MemoryFormat::R16g16b16a16Premultiplied) }
    else if format == GLYCIN_NG_FORMAT_R16G16B16_F { Some(MemoryFormat::R16g16b16Float) }
    else if format == GLYCIN_NG_FORMAT_R16G16B16A16_F { Some(MemoryFormat::R16g16b16a16Float) }
    else if format == GLYCIN_NG_FORMAT_R32G32B32_F { Some(MemoryFormat::R32g32b32Float) }
    else if format == GLYCIN_NG_FORMAT_R32G32B32A32_F { Some(MemoryFormat::R32g32b32a32Float) }
    else if format == GLYCIN_NG_FORMAT_R32G32B32A32_F_PRE { Some(MemoryFormat::R32g32b32a32FloatPremultiplied) }
    else { None }
}

/// The `GlyMemoryFormat` value of a glycin-ng layout constant; unknown
/// constants map to `GLY_MEMORY_R8G8B8A8`.
pub open spec fn gly_of_ng(format: u32) -> i32 {
    if format == GLYCIN_NG_FORMAT_B8G8R8A8_PRE { GLY_MEMORY_B8G8R8A8_PREMULTIPLIED }
    else if format == GLYCIN_NG_FORMAT_A8R8G8B8_PRE { GLY_MEMORY_A8R8G8B8_PREMULTIPLIED }
    else if format == GLYCIN_NG_FORMAT_R8G8B8A8_PRE { GLY_MEMORY_R8G8B8A8_PREMULTIPLIED }
    else if format == GLYCIN_NG_FORMAT_B8G8R8A8 { GLY_MEMORY_B8G8R8A8 }
    else if format == GLYCIN_NG_FORMAT_A8R8G8B8 { GLY_MEMORY_A8R8G8B8 }
    else if format == GLYCIN_NG_FORMAT_R8G8B8A8 { GLY_MEMORY_R8G8B8A8 }
    else if format == GLYCIN_NG_FORMAT_A8B8G8R8 { GLY_MEMORY_A8B8G8R8 }
    else if format == GLYCIN_NG_FORMAT_R8G8B8 { GLY_MEMORY_R8G8B8 }
    else if format == GLYCIN_NG_FORMAT_B8G8R8 { GLY_MEMORY_B8G8R8 }
    else if format == GLYCIN_NG_FORMAT_R16G16B16 { GLY_MEMORY_R16G16B16 }
    else if format == GLYCIN_NG_FORMAT_R16G16B16A16_PRE { GLY_MEMORY_R16G16B16A16_PREMULTIPLIED }
    else if format == GLYCIN_NG_FORMAT_R16G16B16A16 { GLY_MEMORY_R16G16B16A16 }
    else if format == GLYCIN_NG_FORMAT_R16G16B16_F { GLY_MEMORY_R16G16B16_FLOAT }
    else if format == GLYCIN_NG_FORMAT_R16G16B16A16_F { GLY_MEMORY_R16G16B16A16_FLOAT }
    else if format == GLYCIN_NG_FORMAT_R32G32B32_F { GLY_MEMORY_R32G32B32_FLOAT }
    else if format == GLYCIN_NG_FORMAT_R32G32B32A32_F_PRE { GLY_MEMORY_R32G32B32A32_FLOAT_PREMULTIPLIED }
    else if format == GLYCIN_NG_FORMAT_R32G32B32A32_F { GLY_MEMORY_R32G32B32A32_FLOAT }
    else if format == GLYCIN_NG_FORMAT_G8A8_PRE { GLY_MEMORY_G8A8_PREMULTIPLIED }
    else if format == GLYCIN_NG_FORMAT_G8A8 { GLY_MEMORY_G8A8 }
    else if format == GLYCIN_NG_FORMAT_G8 { GLY_MEMORY_G8 }
    else if format == GLYCIN_NG_FORMAT_G16A16_PRE { GLY_MEMORY_G16A16_PREMULTIPLIED }
    else if format == GLYCIN_NG_FORMAT_G16A16 { GLY_MEMORY_G16A16 }
    else if format == GLYCIN_NG_FORMAT_G16 { GLY_MEMORY_G16 }
    else { GLY_MEMORY_R8G8B8A8 }
}

/// Convert a glycin-ng format constant into the matching glycin v2
/// `GlyMemoryFormat` value, `GLY_MEMORY_R8G8B8A8` for unknown constants.
pub fn ng_to_gly(format: u32) -> (r: i32)
    ensures
        r == gly_of_ng(format),
        0 <= r <= 22,
{
    if format == GLYCIN_NG_FORMAT_B8G8R8A8_PRE { GLY_MEMORY_B8G8R8A8_PREMULTIPLIED }
    else if format == GLYCIN_NG_FORMAT_A8R8G8B8_PRE { GLY_MEMORY_A8R8G8B8_PREMULTIPLIED }
    else if format == GLYCIN_NG_FORMAT_R8G8B8A8_PRE { GLY_MEMORY_R8G8B8A8_PREMULTIPLIED }
    else if format == GLYCIN_NG_FORMAT_B8G8R8A8 { GLY_MEMORY_B8G8R8A8 }
    else if format == GLYCIN_NG_FORMAT_A8R8G8B8 { GLY_MEMORY_A8R8G8B8 }
    else if format == GLYCIN_NG_FORMAT_R8G8B8A8 { GLY_MEMORY_R8G8B8A8 }
    else if format == GLYCIN_NG_FORMAT_A8B8G8R8 { GLY_MEMORY_A8B8G8R8 }
    else if format == GLYCIN_NG_FORMAT_R8G8B8 { GLY_MEMORY_R8G8B8 }
    else if format == GLYCIN_NG_FORMAT_B8G8R8 { GLY_MEMORY_B8G8R8 }
    else if format == GLYCIN_NG_FORMAT_R16G16B16 { GLY_MEMORY_R16G16B16 }
    else if format == GLYCIN_NG_FORMAT_R16G16B16A16_PRE { GLY_MEMORY_R16G16B16A16_PREMULTIPLIED }
    else if format == GLYCIN_NG_FORMAT_R16G16B16A16 { GLY_MEMORY_R16G16B16A16 }
    else if format == GLYCIN_NG_FORMAT_R16G16B16_F { GLY_MEMORY_R16G16B16_FLOAT }
    else if format == GLYCIN_NG_FORMAT_R16G16B16A16_F { GLY_MEMORY_R16G16B16A16_FLOAT }
    else if format == GLYCIN_NG_FORMAT_R32G32B32_F { GLY_MEMORY_R32G32B32_FLOAT }
    else if format == GLYCIN_NG_FORMAT_R32G32B32A32_F_PRE { GLY_MEMORY_R32G32B32A32_FLOAT_PREMULTIPLIED }
    else if format == GLYCIN_NG_FORMAT_R32G32B32A32_F { GLY_MEMORY_R32G32B32A32_FLOAT }
    else if format == GLYCIN_NG_FORMAT_G8A8_PRE { GLY_MEMORY_G8A8_PREMULTIPLIED }
    else if format == GLYCIN_NG_FORMAT_G8A8 { GLY_MEMORY_G8A8 }
    else if format == GLYCIN_NG_FORMAT_G8 { GLY_MEMORY_G8 }
    else if format == GLYCIN_NG_FORMAT_G16A16_PRE { GLY_MEMORY_G16A16_PREMULTIPLIED }
    else if format == GLYCIN_NG_FORMAT_G16A16 { GLY_MEMORY_G16A16 }
    else if format == GLYCIN_NG_FORMAT_G16 { GLY_MEMORY_G16 }
    else { GLY_MEMORY_R8G8B8A8 }
}

/// The glycin-ng constant of the 8-bit `GlyMemoryFormat` values; other
/// values are not round-tripped.
pub open spec fn ng_of_gly(value: i32) -> Option<u32> {
    if value == GLY_MEMORY_B8G8R8A8_PREMULTIPLIED { Some(GLYCIN_NG_FORMAT_B8G8R8A8_PRE) }
    else if value == GLY_MEMORY_A8R8G8B8_PREMULTIPLIED { Some(GLYCIN_NG_FORMAT_A8R8G8B8_PRE) }
    else if value == GLY_MEMORY_R8G8B8A8_PREMULTIPLIED { Some(GLYCIN_NG_FORMAT_R8G8B8A8_PRE) }
    else if value == GLY_MEMORY_B8G8R8A8 { Some(GLYCIN_NG_FORMAT_B8G8R8A8) }
    else if value == GLY_MEMORY_A8R8G8B8 { Some(GLYCIN_NG_FORMAT_A8R8G8B8) }
    else if value == GLY_MEMORY_R8G8B8A8 { Some(GLYCIN_NG_FORMAT_R8G8B8A8) }
    else if value == GLY_MEMORY_A8B8G8R8 { Some(GLYCIN_NG_FORMAT_A8B8G8R8) }
    else if value == GLY_MEMORY_R8G8B8 { Some(GLYCIN_NG_FORMAT_R8G8B8) }
    else if value == GLY_MEMORY_B8G8R8 { Some(GLYCIN_NG_FORMAT_B8G8R8) }
    else { None }
}

/// Convert a glycin v2 `GlyMemoryFormat` value into the matching
/// `GLYCIN_NG_FORMAT_*` constant, `None` for values that are not
/// round-tripped.
pub fn gly_to_ng(value: i32) -> (r: Option<u32>)
    ensures
        r == ng_of_gly(value),
{
    if value == GLY_MEMORY_B8G8R8A8_PREMULTIPLIED { Some(GLYCIN_NG_FORMAT_B8G8R8A8_PRE) }
    else if value == GLY_MEMORY_A8R8G8B8_PREMULTIPLIED { Some(GLYCIN_NG_FORMAT_A8R8G8B8_PRE) }
    else if value == GLY_MEMORY_R8G8B8A8_PREMULTIPLIED { Some(GLYCIN_NG_FORMAT_R8G8B8A8_PRE) }
    else if value == GLY_MEMORY_B8G8R8A8 { Some(GLYCIN_NG_FORMAT_B8G8R8A8) }
    else if value == GLY_MEMORY_A8R8G8B8 { Some(GLYCIN_NG_FORMAT_A8R8G8B8) }
    else if value == GLY_MEMORY_R8G8B8A8 { Some(GLYCIN_NG_FORMAT_R8G8B8A8) }
    else if value == GLY_MEMORY_A8B8G8R8 { Some(GLYCIN_NG_FORMAT_A8B8G8R8) }
    else if value == GLY_MEMORY_R8G8B8 { Some(GLYCIN_NG_FORMAT_R8G8B8) }
    else if value == GLY_MEMORY_B8G8R8 { Some(GLYCIN_NG_FORMAT_B8G8R8) }
    else { None }
}

/// `GlyMemoryFormat` values whose pixels carry alpha.
pub open spec fn gly_has_alpha(value: i32) -> bool {
    value == GLY_MEMORY_B8G8R8A8_PREMULTIPLIED || value == GLY_MEMORY_A8R8G8B8_PREMULTIPLIED
        || value == GLY_MEMORY_R8G8B8A8_PREMULTIPLIED || value == GLY_MEMORY_B8G8R8A8
        || value == GLY_MEMORY_A8R8G8B8 || value == GLY_MEMORY_R8G8B8A8
        || value == GLY_MEMORY_A8B8G8R8 || value == GLY_MEMORY_R16G16B16A16_PREMULTIPLIED
        || value == GLY_MEMORY_R16G16B16A16 || value == GLY_MEMORY_R16G16B16A16_FLOAT
        || value == GLY_MEMORY_R32G32B32A32_FLOAT_PREMULTIPLIED
        || value == GLY_MEMORY_R32G32B32A32_FLOAT || value == GLY_MEMORY_G8A8_PREMULTIPLIED
        || value == GLY_MEMORY_G8A8 || value == GLY_MEMORY_G16A16_PREMULTIPLIED
        || value == GLY_MEMORY_G16A16
}

/// `GlyMemoryFormat` values whose colour channels are premultiplied.
pub open spec fn gly_is_premultiplied(value: i32) -> bool {
    value == GLY_MEMORY_B8G8R8A8_PREMULTIPLIED || value == GLY_MEMORY_A8R8G8B8_PREMULTIPLIED
        || value == GLY_MEMORY_R8G8B8A8_PREMULTIPLIED
        || value == GLY_MEMORY_R16G16B16A16_PREMULTIPLIED
        || value == GLY_MEMORY_R32G32B32A32_FLOAT_PREMULTIPLIED
        || value == GLY_MEMORY_G8A8_PREMULTIPLIED || value == GLY_MEMORY_G16A16_PREMULTIPLIED
}

/// `gboolean` answer: 1 when `value` has an alpha channel, else 0.
pub fn has_alpha_for_gly(value: i32) -> (r: i32)
    ensures
        r == (if gly_has_alpha(value) { 1i32 } else { 0i32 }),
{
    if value == GLY_MEMORY_B8G8R8A8_PREMULTIPLIED || value == GLY_MEMORY_A8R8G8B8_PREMULTIPLIED
        || value == GLY_MEMORY_R8G8B8A8_PREMULTIPLIED || value == GLY_MEMORY_B8G8R8A8
        || value == GLY_MEMORY_A8R8G8B8 || value == GLY_MEMORY_R8G8B8A8
        || value == GLY_MEMORY_A8B8G8R8 || value == GLY_MEMORY_R16G16B16A16_PREMULTIPLIED
        || value == GLY_MEMORY_R16G16B16A16 || value == GLY_MEMORY_R16G16B16A16_FLOAT
        || value == GLY_MEMORY_R32G32B32A32_FLOAT_PREMULTIPLIED
        || value == GLY_MEMORY_R32G32B32A32_FLOAT || value == GLY_MEMORY_G8A8_PREMULTIPLIED
        || value == GLY_MEMORY_G8A8 || value == GLY_MEMORY_G16A16_PREMULTIPLIED
        || value == GLY_MEMORY_G16A16 {
        1
    } else {
        0
    }
}

/// `gboolean` answer: 1 when `value` is premultiplied, else 0.
pub fn is_premultiplied_for_gly(value: i32) -> (r: i32)
    ensures
        r == (if gly_is_premultiplied(value) { 1i32 } else { 0i32 }),
{
    if value == GLY_MEMORY_B8G8R8A8_PREMULTIPLIED || value == GLY_MEMORY_A8R8G8B8_PREMULTIPLIED
        || value == GLY_MEMORY_R8G8B8A8_PREMULTIPLIED
        || value == GLY_MEMORY_R16G16B16A16_PREMULTIPLIED
        || value == GLY_MEMORY_R32G32B32A32_FLOAT_PREMULTIPLIED
        || value == GLY_MEMORY_G8A8_PREMULTIPLIED || value == GLY_MEMORY_G16A16_PREMULTIPLIED {
        1
    } else {
        0
    }
}

/// Bytes per pixel of a `GLYCIN_NG_FORMAT_*` constant, 0 when unknown.
pub open spec fn ng_bytes_per_pixel(format: u32) -> usize {
    match ng_memory_format(format) {
        Some(f) => f.spec_bytes_per_pixel() as usize,
        None => 0,
    }
}

/// Bytes per pixel for a `GLYCIN_NG_FORMAT_*` constant. Returns 0 for
/// unknown values so callers can detect mismatches.
pub fn bytes_per_pixel_ng(format: u32) -> (r: usize)
    ensures
        r == ng_bytes_per_pixel(format),
{
    match memory_format_of(format) {
        Some(f) => f.bytes_per_pixel() as usize,
        None => 0,
    }
}

/// A decoded frame as the compatibility layer holds it.
#[derive(Clone)]
pub struct RawFrame {
    pub width: u32,
    pub height: u32,
    pub stride: u32,
    /// A `GLYCIN_NG_FORMAT_*` constant.
    pub format: u32,
    pub data: Vec<u8>,
    pub delay_ms: u64,
}

/// The selection bit of a glycin-ng layout: bit `n` for `GlyMemoryFormat`
/// value `n`.
pub open spec fn format_bit(ng_format: u32) -> u32 {
    (1u32 << (gly_of_ng(ng_format) as u32)) & SELECTION_ALL
}

/// Whether a selection bitmask admits a glycin-ng layout.
pub open spec fn accepts(selection: u32, ng_format: u32) -> bool {
    selection & format_bit(ng_format) != 0
}

/// Whether `selection` admits the layout `ng_format`.
pub fn selection_accepts(selection: u32, ng_format: u32) -> (r: bool)
    ensures
        r == accepts(selection, ng_format),
{
    let gly = ng_to_gly(ng_format);
    if gly < 0 || gly >= 32 {
        return false;
    }
    let bit: u32 = (1u32 << (gly as u32)) & SELECTION_ALL;
    selection & bit != 0
}

/// The straight-alpha counterpart of a premultiplied layout.
pub open spec fn straight_counterpart(src: u32) -> Option<u32> {
    if src == GLYCIN_NG_FORMAT_R8G8B8A8_PRE { Some(GLYCIN_NG_FORMAT_R8G8B8A8) }
    else if src == GLYCIN_NG_FORMAT_B8G8R8A8_PRE { Some(GLYCIN_NG_FORMAT_B8G8R8A8) }
    else if src == GLYCIN_NG_FORMAT_A8R8G8B8_PRE { Some(GLYCIN_NG_FORMAT_A8R8G8B8) }
    else if src == GLYCIN_NG_FORMAT_G8A8_PRE { Some(GLYCIN_NG_FORMAT_G8A8) }
    else if src == GLYCIN_NG_FORMAT_G16A16_PRE { Some(GLYCIN_NG_FORMAT_G16A16) }
    else { None }
}

/// Widely supported destinations, most preferred first.
pub open spec fn target_priority() -> Seq<u32> {
    seq![
        GLYCIN_NG_FORMAT_R8G8B8A8,
        GLYCIN_NG_FORMAT_B8G8R8A8,
        GLYCIN_NG_FORMAT_A8R8G8B8,
        GLYCIN_NG_FORMAT_R8G8B8,
        GLYCIN_NG_FORMAT_B8G8R8,
        GLYCIN_NG_FORMAT_G8A8,
        GLYCIN_NG_FORMAT_G8,
    ]
}

/// The first of `candidates`, from index `i` on, that `selection` admits.
pub open spec fn first_accepted(candidates: Seq<u32>, selection: u32, i: int) -> Option<u32>
    decreases candidates.len() - i,
{
    if i < 0 || i >= candidates.len() {
        None
    } else if accepts(selection, candidates[i]) {
        Some(candidates[i])
    } else {
        first_accepted(candidates, selection, i + 1)
    }
}

/// The layout a frame in `src` is converted to: the straight-alpha
/// counterpart of `src` when admitted, else the first admitted layout of
/// the priority list.
pub open spec fn chosen_target(src: u32, selection: u32) -> Option<u32> {
    match straight_counterpart(src) {
        Some(s) => if accepts(selection, s) {
            Some(s)
        } else {
            first_accepted(target_priority(), selection, 0)
        },
        None => first_accepted(target_priority(), selection, 0),
    }
}

fn pick_target(src: u32, selection: u32) -> (r: Option<u32>)
    ensures
        r == chosen_target(src, selection),
{
    // Prefer the straight-alpha equivalent of the source, then a small
    // priority list of widely-supported destinations.
    let straight = if src == GLYCIN_NG_FORMAT_R8G8B8A8_PRE {
        Some(GLYCIN_NG_FORMAT_R8G8B8A8)
    } else if src == GLYCIN_NG_FORMAT_B8G8R8A8_PRE {
        Some(GLYCIN_NG_FORMAT_B8G8R8A8)
    } else if src == GLYCIN_NG_FORMAT_A8R8G8B8_PRE {
        Some(GLYCIN_NG_FORMAT_A8R8G8B8)
    } else if src == GLYCIN_NG_FORMAT_G8A8_PRE {
        Some(GLYCIN_NG_FORMAT_G8A8)
    } else if src == GLYCIN_NG_FORMAT_G16A16_PRE {
        Some(GLYCIN_NG_FORMAT_G16A16)
    } else {
        None
    };
    if let Some(s) = straight {
        if selection_accepts(selection, s) {
            return Some(s);
        }
    }
    let priority: Vec<u32> = vec![
        GLYCIN_NG_FORMAT_R8G8B8A8,
        GLYCIN_NG_FORMAT_B8G8R8A8,
        GLYCIN_NG_FORMAT_A8R8G8B8,
        GLYCIN_NG_FORMAT_R8G8B8,
        GLYCIN_NG_FORMAT_B8G8R8,
        GLYCIN_NG_FORMAT_G8A8,
        GLYCIN_NG_FORMAT_G8,
    ];
    assert(priority@ =~= target_priority());
    let mut i: usize = 0;
    while i < priority.len()
        invariant
            priority@ == target_priority(),
            i <= priority@.len(),
            chosen_target(src, selection) == first_accepted(target_priority(), selection, 0),
            first_accepted(target_priority(), selection, 0) == first_accepted(
                target_priority(),
                selection,
                i as int,
            ),
        decreases priority@.len() - i,
    {
        if selection_accepts(selection, priority[i]) {
            return Some(priority[i]);
        }
        i = i + 1;
    }
    None
}

/// The bytes one straight-alpha RGBA8 pixel becomes in layout `target`.
/// Layouts without an 8-bit writer receive the RGBA8 bytes.
pub open spec fn emitted(target: u32, r: u8, g: u8, b: u8, a: u8) -> Seq<u8> {
    if target == GLYCIN_NG_FORMAT_R8G8B8A8 { seq![r, g, b, a] }
    else if target == GLYCIN_NG_FORMAT_B8G8R8A8 { seq![b, g, r, a] }
    else if target == GLYCIN_NG_FORMAT_A8R8G8B8 { seq![a, r, g, b] }
    else if target == GLYCIN_NG_FORMAT_A8B8G8R8 { seq![a, b, g, r] }
    else if target == GLYCIN_NG_FORMAT_R8G8B8 { seq![r, g, b] }
    else if target == GLYCIN_NG_FORMAT_B8G8R8 { seq![b, g, r] }
    else if target == GLYCIN_NG_FORMAT_G8A8 { seq![luma_of(r, g, b), a] }
    else if target == GLYCIN_NG_FORMAT_G8 { seq![luma_of(r, g, b)] }
    else { seq![r, g, b, a] }
}

/// Append one pixel to `out` in layout `target`.
pub fn emit_pixel(target: u32, r: u8, g: u8, b: u8, a: u8, out: &mut Vec<u8>)
    ensures
        final(out)@ == old(out)@ + emitted(target, r, g, b, a),
{
    if target == GLYCIN_NG_FORMAT_R8G8B8A8 {
        out.push(r); out.push(g); out.push(b); out.push(a);
    } else if target == GLYCIN_NG_FORMAT_B8G8R8A8 {
        out.push(b); out.push(g); out.push(r); out.push(a);
    } else if target == GLYCIN_NG_FORMAT_A8R8G8B8 {
        out.push(a); out.push(r); out.push(g); out.push(b);
    } else if target == GLYCIN_NG_FORMAT_A8B8G8R8 {
        out.push(a); out.push(b); out.push(g); out.push(r);
    } else if target == GLYCIN_NG_FORMAT_R8G8B8 {
        out.push(r); out.push(g); out.push(b);
    } else if target == GLYCIN_NG_FORMAT_B8G8R8 {
        out.push(b); out.push(g); out.push(r);
    } else if target == GLYCIN_NG_FORMAT_G8A8 {
        let y = luma(r, g, b);
        out.push(y); out.push(a);
    } else if target == GLYCIN_NG_FORMAT_G8 {
        out.push(luma(r, g, b));
    } else {
        out.push(r); out.push(g); out.push(b); out.push(a);
    }
    assert(final(out)@ =~= old(out)@ + emitted(target, r, g, b, a));
}

/// One source pixel stored as `format`, written out in layout `target`.
pub open spec fn converted_pixel(format: MemoryFormat, target: u32, p: Seq<u8>) -> Seq<u8> {
    match rgba8_sample(format, p) {
        Some((r, g, b, a)) => emitted(target, r, g, b, a),
        None => Seq::empty(),
    }
}

/// The first `n` pixels of the row starting at byte `start`, converted.
pub open spec fn converted_row(
    data: Seq<u8>,
    format: MemoryFormat,
    target: u32,
    start: int,
    n: nat,
) -> Seq<u8>
    decreases n,
{
    let bpp = format.spec_bytes_per_pixel() as int;
    if n == 0 {
        Seq::empty()
    } else {
        converted_row(data, format, target, start, (n - 1) as nat) + converted_pixel(
            format,
            target,
            data.subrange(start + (n - 1) * bpp, start + n * bpp),
        )
    }
}

/// The first `rows` rows of a frame, converted and packed without padding.
pub open spec fn converted_image(
    data: Seq<u8>,
    format: MemoryFormat,
    target: u32,
    stride: nat,
    width: nat,
    rows: nat,
) -> Seq<u8>
    decreases rows,
{
    if rows == 0 {
        Seq::empty()
    } else {
        converted_image(data, format, target, stride, width, (rows - 1) as nat) + converted_row(
            data,
            format,
            target,
            (rows - 1) * stride,
            width,
        )
    }
}

/// Whether converting a frame of the given shape to `target` fails:
/// an unknown layout on either side, a stride that cannot hold a row,
/// rows reaching past the data, a source layout with no 8-bit sampler,
/// or sizes beyond the address space.
pub open spec fn layout_refused(
    format: u32,
    target: u32,
    width: u32,
    height: u32,
    stride: u32,
    data_len: nat,
) -> bool {
    let src_bpp = ng_bytes_per_pixel(format);
    let dst_bpp = ng_bytes_per_pixel(target);
    ||| src_bpp == 0
    ||| dst_bpp == 0
    ||| width * src_bpp > usize::MAX
    ||| stride < width * src_bpp
    ||| width * dst_bpp > usize::MAX
    ||| (height > 0 && (height - 1) * stride + width * src_bpp > data_len)
    ||| (width > 0 && height > 0 && !has_rgba8_sampler(ng_memory_format(format)->0))
}

/// `out` is `src` converted to layout `target`: same size and delay, the
/// stride of a packed row, and every pixel re-encoded.
pub open spec fn is_conversion(out: RawFrame, src: RawFrame, target: u32) -> bool {
    &&& out.width == src.width
    &&& out.height == src.height
    &&& out.stride == (src.width * ng_bytes_per_pixel(target)) as u32
    &&& out.format == target
    &&& out.delay_ms == src.delay_ms
    &&& out.data@ == converted_image(
        src.data@,
        ng_memory_format(src.format)->0,
        target,
        src.stride as nat,
        src.width as nat,
        src.height as nat,
    )
}

/// Convert `src` to layout `target`, rows packed without padding; `None`
/// when [`layout_refused`] holds.
fn convert_layout(src: &RawFrame, target: u32) -> (r: Option<RawFrame>)
    ensures
        match r {
            None => layout_refused(src.format, target, src.width, src.height, src.stride, src.data@.len()),
            Some(out) => {
                &&& !layout_refused(src.format, target, src.width, src.height, src.stride, src.data@.len())
                &&& is_conversion(out, *src, target)
            },
        },
{
    let src_bpp = bytes_per_pixel_ng(src.format);
    let dst_bpp = bytes_per_pixel_ng(target);
    if src_bpp == 0 || dst_bpp == 0 {
        return None;
    }
    let format = match memory_format_of(src.format) {
        Some(f) => f,
        None => return None,
    };
    let width = src.width as usize;
    let height = src.height as usize;
    let src_stride = src.stride as usize;
    let dlen = src.data.len();
    let row_len = match width.checked_mul(src_bpp) {
        Some(n) => n,
        None => return None,
    };
    if src_stride < row_len {
        return None;
    }
    let dst_stride = match width.checked_mul(dst_bpp) {
        Some(n) => n,
        None => return None,
    };
    let ghost refused = layout_refused(src.format, target, src.width, src.height, src.stride, src.data@.len());
    let mut out: Vec<u8> = Vec::new();
    let mut y: usize = 0;
    while y < height
        invariant
            src_bpp == format.spec_bytes_per_pixel(),
            ng_memory_format(src.format) == Some(format),
            src_bpp == ng_bytes_per_pixel(src.format),
            dst_bpp == ng_bytes_per_pixel(target),
            src_bpp != 0,
            dst_bpp != 0,
            width == src.width,
            height == src.height,
            src_stride == src.stride,
            dlen == src.data@.len(),
            row_len == width * src_bpp,
            row_len <= src_stride,
            dst_stride == width * dst_bpp,
            y <= height,
            out@ == converted_image(src.data@, format, target, src_stride as nat, width as nat, y as nat),
            y > 0 ==> has_rgba8_sampler(format) || width == 0,
            y > 0 ==> (y - 1) * src_stride + row_len <= dlen,
            refused == layout_refused(src.format, target, src.width, src.height, src.stride, src.data@.len()),
        decreases height - y,
    {
        let row_off = match y.checked_mul(src_stride) {
            Some(n) => n,
            None => {
                assert((height - 1) * src_stride + row_len > dlen) by (nonlinear_arith)
                    requires
                        y * src_stride > usize::MAX,
                        y < height,
                        dlen <= usize::MAX,
                        row_len >= 0,
                ;
                return None;
            },
        };
        let row_end = match row_off.checked_add(row_len) {
            Some(n) => n,
            None => {
                assert((height - 1) * src_stride + row_len > dlen) by (nonlinear_arith)
                    requires
                        row_off == y * src_stride,
                        row_off + row_len > usize::MAX,
                        y < height,
                        dlen <= usize::MAX,
                ;
                return None;
            },
        };
        if row_end > dlen {
            assert((height - 1) * src_stride + row_len > dlen) by (nonlinear_arith)
                requires
                    row_off == y * src_stride,
                    row_end == row_off + row_len,
                    row_end > dlen,
                    y < height,
            ;
            return None;
        }
        let mut x: usize = 0;
        while x < width
            invariant
                src_bpp == format.spec_bytes_per_pixel(),
                ng_memory_format(src.format) == Some(format),
                src_bpp != 0,
                width == src.width,
                height == src.height,
                dlen == src.data@.len(),
                row_len == width * src_bpp,
                y < height,
                row_off == y * src_stride,
                row_off + row_len <= dlen,
                x <= width,
                out@ == converted_image(src.data@, format, target, src_stride as nat, width as nat, y as nat)
                    + converted_row(src.data@, format, target, row_off as int, x as nat),
                x > 0 ==> has_rgba8_sampler(format),
                refused == layout_refused(src.format, target, src.width, src.height, src.stride, src.data@.len()),
            decreases width - x,
        {
            assert(x * src_bpp + src_bpp <= row_len && (x + 1) * src_bpp == x * src_bpp + src_bpp)
                by (nonlinear_arith)
                requires
                    x < width,
                    row_len == width * src_bpp,
            ;
            let start = row_off + x * src_bpp;
            let p = slice_subrange(src.data.as_slice(), start, start + src_bpp);
            let (r, g, b, a) = match sample_rgba8(format, p) {
                Some(px) => px,
                None => return None,
            };
            emit_pixel(target, r, g, b, a, &mut out);
            proof {
                assert(out@ =~= converted_image(src.data@, format, target, src_stride as nat, width as nat, y as nat)
                    + converted_row(src.data@, format, target, row_off as int, (x + 1) as nat));
            }
            x = x + 1;
        }
        proof {
            assert(((y + 1) as nat - 1) * src_stride == y * src_stride);
        }
        y = y + 1;
    }
    Some(RawFrame {
        width: src.width,
        height: src.height,
        stride: dst_stride as u32,
        format: target,
        data: out,
        delay_ms: src.delay_ms,
    })
}

/// `r` is what [`maybe_convert`] gives for `frame` under `selection_bits`:
/// the frame itself when the selection is empty, carries unknown bits or
/// already admits the frame's layout, when no candidate layout is
/// admitted, or when the conversion is refused; else the frame converted
/// to the chosen layout.
pub open spec fn conversion_result(frame: RawFrame, selection_bits: u32, r: RawFrame) -> bool {
    if selection_bits == 0 || selection_bits & !SELECTION_ALL != 0 || accepts(
        selection_bits,
        frame.format,
    ) {
        r == frame
    } else {
        match chosen_target(frame.format, selection_bits) {
            None => r == frame,
            Some(t) => if layout_refused(
                frame.format,
                t,
                frame.width,
                frame.height,
                frame.stride,
                frame.data@.len(),
            ) {
                r == frame
            } else {
                is_conversion(r, frame, t)
            },
        }
    }
}

/// Convert `frame` so that it sits in a layout `selection_bits` admits.
///
/// The frame is returned unchanged when the selection is empty (the
/// caller never restricted formats), carries bits outside
/// [`SELECTION_ALL`], already admits the frame's layout, admits none of
/// the candidate layouts, or when the conversion to the chosen layout is
/// refused.
pub fn maybe_convert(frame: RawFrame, selection_bits: u32) -> (r: RawFrame)
    ensures
        conversion_result(frame, selection_bits, r),
{
    if selection_bits == 0 {
        return frame;
    }
    if selection_bits & !SELECTION_ALL != 0 {
        return frame;
    }
    if selection_accepts(selection_bits, frame.format) {
        return frame;
    }
    let target = match pick_target(frame.format, selection_bits) {
        Some(t) => t,
        None => return frame,
    };
    match convert_layout(&frame, target) {
        Some(converted) => converted,
        None => frame,
    }
}

/// A glycin v2 value that maps to a glycin-ng layout maps back to itself.
pub proof fn law_gly_values_round_trip(value: i32)
    ensures
        ng_of_gly(value) matches Some(n) ==> gly_of_ng(n) == value,
{
}

proof fn lemma_first_accepted_is_accepted(candidates: Seq<u32>, selection: u32, i: int)
    ensures
        first_accepted(candidates, selection, i) matches Some(t) ==> accepts(selection, t),
    decreases candidates.len() - i,
{
    if 0 <= i < candidates.len() && !accepts(selection, candidates[i]) {
        lemma_first_accepted_is_accepted(candidates, selection, i + 1);
    }
}

/// A frame is only ever converted into a layout the caller's selection
/// admits.
pub proof fn law_conversion_target_is_admitted(src: u32, selection: u32)
    ensures
        chosen_target(src, selection) matches Some(t) ==> accepts(selection, t),
{
    lemma_first_accepted_is_accepted(target_priority(), selection, 0);
}

/// Converting twice is converting once: a frame [`maybe_convert`] gave
/// back comes back unchanged under the same selection.
pub proof fn law_conversion_is_idempotent(frame: RawFrame, selection_bits: u32, once: RawFrame, twice: RawFrame)
    requires
        conversion_result(frame, selection_bits, once),
        conversion_result(once, selection_bits, twice),
    ensures
        twice == once,
{
    law_conversion_target_is_admitted(frame.format, selection_bits);
}

/// The value a straight 8-bit layout `f` keeps of the straight RGBA8
/// pixel (r, g, b, a): grey layouts keep the luma, layouts without alpha
/// keep the pixel as opaque.
pub open spec fn kept_value(f: MemoryFormat, r: u8, g: u8, b: u8, a: u8) -> (u8, u8, u8, u8) {
    let alpha = if layout_of(f).alpha is Some { a } else { 255u8 };
    if is_grey(layout_of(f)) {
        let y = luma_of(r, g, b);
        (y, y, y, alpha)
    } else {
        (r, g, b, alpha)
    }
}

/// Writing a pixel in a straight 8-bit layout and reading it back with
/// that layout's own sampler gives the pixel again (as grey, or opaque,
/// where the layout keeps no colour or no alpha), and the written pixel
/// is exactly one pixel of the layout long.
pub proof fn law_emitted_pixels_read_back(target: u32, r: u8, g: u8, b: u8, a: u8)
    requires
        ng_memory_format(target) matches Some(f) && layout_of(f).storage == ChannelStorage::Byte
            && !layout_of(f).premultiplied,
    ensures
        rgba8_sample(ng_memory_format(target)->0, emitted(target, r, g, b, a)) == Some(
            kept_value(ng_memory_format(target)->0, r, g, b, a),
        ),
        emitted(target, r, g, b, a).len() == ng_memory_format(target)->0.spec_bytes_per_pixel(),
{
    reveal(rgba8_sample);
}

/// The layout each glycin v2 `GlyMemoryFormat` value names, in the order
/// of that enumeration.
pub open spec fn gly_layout(value: i32) -> Option<MemoryFormat> {
    match value {
        0 => Some(MemoryFormat::B8g8r8a8Premultiplied),
        1 => Some(MemoryFormat::A8r8g8b8Premultiplied),
        2 => Some(MemoryFormat::R8g8b8a8Premultiplied),
        3 => Some(MemoryFormat::B8g8r8a8),
        4 => Some(MemoryFormat::A8r8g8b8),
        5 => Some(MemoryFormat::R8g8b8a8),
        6 => Some(MemoryFormat::A8b8g8r8),
        7 => Some(MemoryFormat::R8g8b8),
        8 => Some(MemoryFormat::B8g8r8),
        9 => Some(MemoryFormat::R16g16b16),
        10 => Some(MemoryFormat::R16g16b16a16Premultiplied),
        11 => Some(MemoryFormat::R16g16b16a16),
        12 => Some(MemoryFormat::R16g16b16Float),
        13 => Some(MemoryFormat::R16g16b16a16Float),
        14 => Some(MemoryFormat::R32g32b32Float),
        15 => Some(MemoryFormat::R32g32b32a32FloatPremultiplied),
        16 => Some(MemoryFormat::R32g32b32a32Float),
        17 => Some(MemoryFormat::G8a8Premultiplied),
        18 => Some(MemoryFormat::G8a8),
        19 => Some(MemoryFormat::G8),
        20 => Some(MemoryFormat::G16a16Premultiplied),
        21 => Some(MemoryFormat::G16a16),
        22 => Some(MemoryFormat::G16),
        _ => None,
    }
}

/// The glycin v2 numbering names the same layout as the glycin-ng constant
/// it is computed from.
pub proof fn law_numbering_keeps_the_layout(format: u32)
    ensures
        ng_memory_format(format) matches Some(f) ==> gly_layout(gly_of_ng(format)) == Some(f),
        gly_layout(gly_of_ng(format)) is Some,
{
}

/// Distinct glycin-ng layouts get distinct glycin v2 values.
pub proof fn law_numbering_is_injective(x: u32, y: u32)
    requires
        ng_memory_format(x) is Some,
        ng_memory_format(y) is Some,
        gly_of_ng(x) == gly_of_ng(y),
    ensures
        x == y,
{
    law_numbering_keeps_the_layout(x);
    law_numbering_keeps_the_layout(y);
}

/// The alpha and premultiplication answers for a glycin v2 value are the
/// properties of the layout it names; values naming no layout have
/// neither.
pub proof fn law_gly_answers_follow_the_layout(value: i32)
    ensures
        gly_layout(value) matches Some(f) ==> (gly_has_alpha(value) <==> layout_of(f).alpha is Some)
            && (gly_is_premultiplied(value) <==> layout_of(f).premultiplied),
        gly_layout(value) is None ==> !gly_has_alpha(value) && !gly_is_premultiplied(value),
{
}

/// A glycin v2 value converted back to a glycin-ng constant names the
/// same layout.
pub proof fn law_reverse_numbering_keeps_the_layout(value: i32)
    ensures
        ng_of_gly(value) matches Some(n) ==> ng_memory_format(n) == gly_layout(value),
{
}

} // verus!
