//! Pixel memory layouts and the image formats the library knows.

use vstd::prelude::*;

verus! {

/// In-memory layout of one pixel.
#[derive(Clone, Copy, Debug, PartialEq, Eq, Structural)]
pub enum MemoryFormat {
    G8,
    G8a8,
    G8a8Premultiplied,
    G16,
    G16a16,
    G16a16Premultiplied,
    R8g8b8,
    B8g8r8,
    R8g8b8a8,
    R8g8b8a8Premultiplied,
    B8g8r8a8,
    B8g8r8a8Premultiplied,
    A8r8g8b8,
    A8r8g8b8Premultiplied,
    A8b8g8r8,
    R16g16b16,
    R16g16b16a16,
    R16g16b16a16Premultiplied,
    R16g16b16Float,
    R16g16b16a16Float,
    R32g32b32Float,
    R32g32b32a32Float,
    R32g32b32a32FloatPremultiplied,
}

impl MemoryFormat {
    /// Size of one pixel in bytes.
    pub open spec fn spec_bytes_per_pixel(self) -> u8 {
        match self {
            MemoryFormat::G8 => 1,
            MemoryFormat::G8a8 | MemoryFormat::G8a8Premultiplied | MemoryFormat::G16 => 2,
            MemoryFormat::R8g8b8 | MemoryFormat::B8g8r8 => 3,
            MemoryFormat::G16a16
            | MemoryFormat::G16a16Premultiplied
            | MemoryFormat::R8g8b8a8
            | MemoryFormat::R8g8b8a8Premultiplied
            | MemoryFormat::B8g8r8a8
            | MemoryFormat::B8g8r8a8Premultiplied
            | MemoryFormat::A8r8g8b8
            | MemoryFormat::A8r8g8b8Premultiplied
            | MemoryFormat::A8b8g8r8 => 4,
            MemoryFormat::R16g16b16 | MemoryFormat::R16g16b16Float => 6,
            MemoryFormat::R16g16b16a16
            | MemoryFormat::R16g16b16a16Premultiplied
            | MemoryFormat::R16g16b16a16Float => 8,
            MemoryFormat::R32g32b32Float => 12,
            MemoryFormat::R32g32b32a32Float | MemoryFormat::R32g32b32a32FloatPremultiplied => 16,
        }
    }

    /// Size of one pixel in bytes.
    #[verifier::when_used_as_spec(spec_bytes_per_pixel)]
    pub fn bytes_per_pixel(self) -> (r: u8)
        ensures
            r == self.spec_bytes_per_pixel(),
    {
        match self {
            MemoryFormat::G8 => 1,
            MemoryFormat::G8a8 | MemoryFormat::G8a8Premultiplied | MemoryFormat::G16 => 2,
            MemoryFormat::R8g8b8 | MemoryFormat::B8g8r8 => 3,
            MemoryFormat::G16a16
            | MemoryFormat::G16a16Premultiplied
            | MemoryFormat::R8g8b8a8
            | MemoryFormat::R8g8b8a8Premultiplied
            | MemoryFormat::B8g8r8a8
            | MemoryFormat::B8g8r8a8Premultiplied
            | MemoryFormat::A8r8g8b8
            | MemoryFormat::A8r8g8b8Premultiplied
            | MemoryFormat::A8b8g8r8 => 4,
            MemoryFormat::R16g16b16 | MemoryFormat::R16g16b16Float => 6,
            MemoryFormat::R16g16b16a16
            | MemoryFormat::R16g16b16a16Premultiplied
            | MemoryFormat::R16g16b16a16Float => 8,
            MemoryFormat::R32g32b32Float => 12,
            MemoryFormat::R32g32b32a32Float | MemoryFormat::R32g32b32a32FloatPremultiplied => 16,
        }
    }
}

/// How the channels of a layout are stored.
#[derive(Clone, Copy, Debug, PartialEq, Eq, Structural)]
pub enum ChannelStorage {
    /// One byte per channel.
    Byte,
    /// A 16-bit unsigned integer per channel, in the machine's byte order.
    Word,
    /// An IEEE 754 binary16 value per channel.
    Half,
    /// An IEEE 754 binary32 value per channel.
    Float32,
}

/// Where a layout keeps each channel: the byte offset of its red, green
/// and blue channels (all three the same for grey layouts), of its alpha
/// channel if it has one, and whether colour is premultiplied by alpha.
pub struct LayoutDescription {
    pub storage: ChannelStorage,
    pub red: u8,
    pub green: u8,
    pub blue: u8,
    pub alpha: Option<u8>,
    pub premultiplied: bool,
}

/// A layout of `storage` channels at the given offsets.
pub open spec fn described(
    storage: ChannelStorage,
    red: u8,
    green: u8,
    blue: u8,
    alpha: Option<u8>,
    premultiplied: bool,
) -> LayoutDescription {
    LayoutDescription { storage, red, green, blue, alpha, premultiplied }
}

/// The channel positions each layout's name spells out: `R8g8b8a8` holds
/// red at byte 0 and alpha at byte 3, `A8b8g8r8` alpha at byte 0 and red
/// at byte 3, `G16a16` grey in the word at 0 and alpha in the word at 2.
pub open spec fn layout_of(format: MemoryFormat) -> LayoutDescription {
    let byte = ChannelStorage::Byte;
    let word = ChannelStorage::Word;
    let half = ChannelStorage::Half;
    let float = ChannelStorage::Float32;
    match format {
        MemoryFormat::G8 => described(byte, 0, 0, 0, None, false),
        MemoryFormat::G8a8 => described(byte, 0, 0, 0, Some(1), false),
        MemoryFormat::G8a8Premultiplied => described(byte, 0, 0, 0, Some(1), true),
        MemoryFormat::G16 => described(word, 0, 0, 0, None, false),
        MemoryFormat::G16a16 => described(word, 0, 0, 0, Some(2), false),
        MemoryFormat::G16a16Premultiplied => described(word, 0, 0, 0, Some(2), true),
        MemoryFormat::R8g8b8 => described(byte, 0, 1, 2, None, false),
        MemoryFormat::B8g8r8 => described(byte, 2, 1, 0, None, false),
        MemoryFormat::R8g8b8a8 => described(byte, 0, 1, 2, Some(3), false),
        MemoryFormat::R8g8b8a8Premultiplied => described(byte, 0, 1, 2, Some(3), true),
        MemoryFormat::B8g8r8a8 => described(byte, 2, 1, 0, Some(3), false),
        MemoryFormat::B8g8r8a8Premultiplied => described(byte, 2, 1, 0, Some(3), true),
        MemoryFormat::A8r8g8b8 => described(byte, 1, 2, 3, Some(0), false),
        MemoryFormat::A8r8g8b8Premultiplied => described(byte, 1, 2, 3, Some(0), true),
        MemoryFormat::A8b8g8r8 => described(byte, 3, 2, 1, Some(0), false),
        MemoryFormat::R16g16b16 => described(word, 0, 2, 4, None, false),
        MemoryFormat::R16g16b16a16 => described(word, 0, 2, 4, Some(6), false),
        MemoryFormat::R16g16b16a16Premultiplied => described(word, 0, 2, 4, Some(6), true),
        MemoryFormat::R16g16b16Float => described(half, 0, 2, 4, None, false),
        MemoryFormat::R16g16b16a16Float => described(half, 0, 2, 4, Some(6), false),
        MemoryFormat::R32g32b32Float => described(float, 0, 4, 8, None, false),
        MemoryFormat::R32g32b32a32Float => described(float, 0, 4, 8, Some(12), false),
        MemoryFormat::R32g32b32a32FloatPremultiplied => described(float, 0, 4, 8, Some(12), true),
    }
}

/// Bytes one channel of `storage` takes.
pub open spec fn storage_size(storage: ChannelStorage) -> int {
    match storage {
        ChannelStorage::Byte => 1,
        ChannelStorage::Word | ChannelStorage::Half => 2,
        ChannelStorage::Float32 => 4,
    }
}

/// A grey layout: one value stands for red, green and blue.
pub open spec fn is_grey(d: LayoutDescription) -> bool {
    d.red == d.green && d.green == d.blue
}

/// Number of channels a layout stores.
pub open spec fn channel_count(d: LayoutDescription) -> int {
    (if is_grey(d) { 1int } else { 3int }) + (if d.alpha is Some { 1int } else { 0int })
}

/// A pixel is its channels and nothing else: its size is the number of
/// channels times the size of one, and every channel lies inside it.
pub proof fn law_pixel_size_matches_channels(format: MemoryFormat)
    ensures
        format.spec_bytes_per_pixel() == channel_count(layout_of(format)) * storage_size(
            layout_of(format).storage,
        ),
        layout_of(format).red + storage_size(layout_of(format).storage)
            <= format.spec_bytes_per_pixel(),
        layout_of(format).green + storage_size(layout_of(format).storage)
            <= format.spec_bytes_per_pixel(),
        layout_of(format).blue + storage_size(layout_of(format).storage)
            <= format.spec_bytes_per_pixel(),
        layout_of(format).alpha matches Some(k) ==> k + storage_size(layout_of(format).storage)
            <= format.spec_bytes_per_pixel(),
{
    let d = layout_of(format);
    match format {
        MemoryFormat::G8 => {
            assert(channel_count(d) == 1 && storage_size(d.storage) == 1);
        },
        MemoryFormat::G8a8 => {
            assert(channel_count(d) == 2 && storage_size(d.storage) == 1);
        },
        MemoryFormat::G8a8Premultiplied => {
            assert(channel_count(d) == 2 && storage_size(d.storage) == 1);
        },
        MemoryFormat::G16 => {
            assert(channel_count(d) == 1 && storage_size(d.storage) == 2);
        },
        MemoryFormat::G16a16 => {
            assert(channel_count(d) == 2 && storage_size(d.storage) == 2);
        },
        MemoryFormat::G16a16Premultiplied => {
            assert(channel_count(d) == 2 && storage_size(d.storage) == 2);
        },
        MemoryFormat::R8g8b8 => {
            assert(channel_count(d) == 3 && storage_size(d.storage) == 1);
        },
        MemoryFormat::B8g8r8 => {
            assert(channel_count(d) == 3 && storage_size(d.storage) == 1);
        },
        MemoryFormat::R8g8b8a8 => {
            assert(channel_count(d) == 4 && storage_size(d.storage) == 1);
        },
        MemoryFormat::R8g8b8a8Premultiplied => {
            assert(channel_count(d) == 4 && storage_size(d.storage) == 1);
        },
        MemoryFormat::B8g8r8a8 => {
            assert(channel_count(d) == 4 && storage_size(d.storage) == 1);
        },
        MemoryFormat::B8g8r8a8Premultiplied => {
            assert(channel_count(d) == 4 && storage_size(d.storage) == 1);
        },
        MemoryFormat::A8r8g8b8 => {
            assert(channel_count(d) == 4 && storage_size(d.storage) == 1);
        },
        MemoryFormat::A8r8g8b8Premultiplied => {
            assert(channel_count(d) == 4 && storage_size(d.storage) == 1);
        },
        MemoryFormat::A8b8g8r8 => {
            assert(channel_count(d) == 4 && storage_size(d.storage) == 1);
        },
        MemoryFormat::R16g16b16 => {
            assert(channel_count(d) == 3 && storage_size(d.storage) == 2);
        },
        MemoryFormat::R16g16b16a16 => {
            assert(channel_count(d) == 4 && storage_size(d.storage) == 2);
        },
        MemoryFormat::R16g16b16a16Premultiplied => {
            assert(channel_count(d) == 4 && storage_size(d.storage) == 2);
        },
        MemoryFormat::R16g16b16Float => {
            assert(channel_count(d) == 3 && storage_size(d.storage) == 2);
        },
        MemoryFormat::R16g16b16a16Float => {
            assert(channel_count(d) == 4 && storage_size(d.storage) == 2);
        },
        MemoryFormat::R32g32b32Float => {
            assert(channel_count(d) == 3 && storage_size(d.storage) == 4);
        },
        MemoryFormat::R32g32b32a32Float => {
            assert(channel_count(d) == 4 && storage_size(d.storage) == 4);
        },
        MemoryFormat::R32g32b32a32FloatPremultiplied => {
            assert(channel_count(d) == 4 && storage_size(d.storage) == 4);
        },
    }
}

/// Image container formats the library recognises.
#[derive(Clone, Copy, Debug, PartialEq, Eq, Structural)]
pub enum KnownFormat {
    Png,
    Jpeg,
    Gif,
    WebP,
    Tiff,
    Bmp,
    Ico,
    Tga,
    Qoi,
    Exr,
    Pnm,
    Dds,
    Jxl,
    Svg,
}

impl KnownFormat {
    /// Short lower-case name used in error reports.
    pub open spec fn spec_name(self) -> &'static str {
        match self {
            KnownFormat::Png => "png",
            KnownFormat::Jpeg => "jpeg",
            KnownFormat::Gif => "gif",
            KnownFormat::WebP => "webp",
            KnownFormat::Tiff => "tiff",
            KnownFormat::Bmp => "bmp",
            KnownFormat::Ico => "ico",
            KnownFormat::Tga => "tga",
            KnownFormat::Qoi => "qoi",
            KnownFormat::Exr => "exr",
            KnownFormat::Pnm => "pnm",
            KnownFormat::Dds => "dds",
            KnownFormat::Jxl => "jxl",
            KnownFormat::Svg => "svg",
        }
    }

    /// Short lower-case name used in error reports.
    #[verifier::when_used_as_spec(spec_name)]
    pub fn name(self) -> (r: &'static str)
        ensures
            r == self.spec_name(),
    {
        match self {
            KnownFormat::Png => "png",
            KnownFormat::Jpeg => "jpeg",
            KnownFormat::Gif => "gif",
            KnownFormat::WebP => "webp",
            KnownFormat::Tiff => "tiff",
            KnownFormat::Bmp => "bmp",
            KnownFormat::Ico => "ico",
            KnownFormat::Tga => "tga",
            KnownFormat::Qoi => "qoi",
            KnownFormat::Exr => "exr",
            KnownFormat::Pnm => "pnm",
            KnownFormat::Dds => "dds",
            KnownFormat::Jxl => "jxl",
            KnownFormat::Svg => "svg",
        }
    }
}

} // verus!
