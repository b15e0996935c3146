use glycin_ng::format::MemoryFormat;
use glycin_ng::texture::{texture_to_rgba8, texture_to_rgba8_ordered};

fn tex(format: MemoryFormat, data: Vec<u8>, w: u32, h: u32) -> (Vec<u8>, u32, u32, u32, MemoryFormat) {
    let stride = w * format.bytes_per_pixel() as u32;
    (data, w, h, stride, format)
}

fn convert(t: (Vec<u8>, u32, u32, u32, MemoryFormat)) -> (Vec<u8>, u32) {
    texture_to_rgba8(&t.0, t.1, t.2, t.3, t.4)
}

#[test]
fn rgba8_passes_through() {
    let t = tex(MemoryFormat::R8g8b8a8, vec![1, 2, 3, 4, 5, 6, 7, 8], 2, 1);
    let (bytes, stride) = convert(t);
    assert_eq!(stride, 8);
    assert_eq!(bytes, vec![1, 2, 3, 4, 5, 6, 7, 8]);
}

#[test]
fn rgb8_gains_opaque_alpha() {
    let t = tex(MemoryFormat::R8g8b8, vec![1, 2, 3, 4, 5, 6], 2, 1);
    let (bytes, _) = convert(t);
    assert_eq!(bytes, vec![1, 2, 3, 255, 4, 5, 6, 255]);
}

#[test]
fn bgr_channels_get_swapped() {
    let t = tex(MemoryFormat::B8g8r8, vec![10, 20, 30], 1, 1);
    let (bytes, _) = convert(t);
    assert_eq!(bytes, vec![30, 20, 10, 255]);
}

#[test]
fn g8_replicates_across_channels() {
    let t = tex(MemoryFormat::G8, vec![42, 200], 2, 1);
    let (bytes, _) = convert(t);
    assert_eq!(bytes, vec![42, 42, 42, 255, 200, 200, 200, 255]);
}

#[test]
fn g8a8_premultiplied_is_unpremultiplied() {
    // Premultiplied (g=50, a=100) -> straight (g=128 ish, a=100).
    let t = tex(MemoryFormat::G8a8Premultiplied, vec![50, 100], 1, 1);
    let (bytes, _) = convert(t);
    // 50 / 100 * 255 = 127.5 -> 127
    assert_eq!(bytes[0], 127);
    assert_eq!(bytes[3], 100);
}

#[test]
fn g16_downsamples() {
    let v: u16 = 0xABCD;
    let bytes = v.to_ne_bytes();
    let t = tex(MemoryFormat::G16, bytes.to_vec(), 1, 1);
    let (out, _) = convert(t);
    assert_eq!(out[0], 0xAB);
}

#[test]
fn rgb16_float_decodes_to_byte() {
    let mut data = Vec::new();
    data.extend_from_slice(&0x3C00_u16.to_ne_bytes()); // 1.0
    data.extend_from_slice(&0x3800_u16.to_ne_bytes()); // 0.5
    data.extend_from_slice(&0x0000_u16.to_ne_bytes()); // 0.0
    let t = tex(MemoryFormat::R16g16b16Float, data, 1, 1);
    let (out, _) = convert(t);
    assert_eq!(out, vec![255, 128, 0, 255]);
}

#[test]
fn rgba16_float_decodes_to_byte() {
    let mut data = Vec::new();
    data.extend_from_slice(&0x3C00_u16.to_ne_bytes()); // 1.0
    data.extend_from_slice(&0x3800_u16.to_ne_bytes()); // 0.5
    data.extend_from_slice(&0x0000_u16.to_ne_bytes()); // 0.0
    data.extend_from_slice(&0x3C00_u16.to_ne_bytes()); // 1.0
    let t = tex(MemoryFormat::R16g16b16a16Float, data, 1, 1);
    let (out, _) = convert(t);
    assert_eq!(out, vec![255, 128, 0, 255]);
}

#[test]
fn byte_order_picks_the_high_byte() {
    let data = [0x12, 0x34];
    let (le, _) = texture_to_rgba8_ordered(&data, 1, 1, 2, MemoryFormat::G16, true);
    let (be, _) = texture_to_rgba8_ordered(&data, 1, 1, 2, MemoryFormat::G16, false);
    assert_eq!(le, vec![0x34, 0x34, 0x34, 255]);
    assert_eq!(be, vec![0x12, 0x12, 0x12, 255]);
}

#[test]
fn sixteen_bit_premultiplied_is_unpremultiplied() {
    // Little-endian high bytes: r=g=b=64, a=128.
    let data = [0, 64, 0, 64, 0, 64, 0, 128];
    let (out, _) =
        texture_to_rgba8_ordered(&data, 1, 1, 8, MemoryFormat::R16g16b16a16Premultiplied, true);
    assert_eq!(out, vec![127, 127, 127, 128]);
}

#[test]
fn rows_are_read_stride_apart() {
    // Two rows of one ARGB pixel, rows six bytes apart.
    let data = [9, 1, 2, 3, 0, 0, 8, 4, 5, 6];
    let (out, stride) = texture_to_rgba8(&data, 1, 2, 6, MemoryFormat::A8r8g8b8);
    assert_eq!(out, vec![1, 2, 3, 9, 4, 5, 6, 8]);
    assert_eq!(stride, 4);
}

#[test]
fn empty_texture_gives_no_bytes() {
    let (out, stride) = texture_to_rgba8(&[], 3, 0, 12, MemoryFormat::R8g8b8a8);
    assert!(out.is_empty());
    assert_eq!(stride, 12);
}

#[test]
fn eight_bit_layouts_ignore_byte_order() {
    let data = [1, 2, 3, 4];
    for format in [MemoryFormat::R8g8b8a8, MemoryFormat::A8b8g8r8, MemoryFormat::G8a8Premultiplied] {
        let (le, _) = texture_to_rgba8_ordered(&data, 1, 1, 4, format, true);
        let (be, _) = texture_to_rgba8_ordered(&data, 1, 1, 4, format, false);
        assert_eq!(le, be, "{format:?}");
    }
}
