use glycin_ng::shim_format::{
    bytes_per_pixel_ng, gly_to_ng, has_alpha_for_gly, is_premultiplied_for_gly, maybe_convert,
    ng_to_gly, selection_accepts, RawFrame, GLYCIN_NG_FORMAT_B8G8R8A8, GLYCIN_NG_FORMAT_G16A16,
    GLYCIN_NG_FORMAT_G8, GLYCIN_NG_FORMAT_G8A8_PRE, GLYCIN_NG_FORMAT_R16G16B16,
    GLYCIN_NG_FORMAT_R32G32B32A32_F, GLYCIN_NG_FORMAT_R8G8B8, GLYCIN_NG_FORMAT_R8G8B8A8,
    GLYCIN_NG_FORMAT_R8G8B8A8_PRE, GLYCIN_NG_FORMAT_UNKNOWN, GLY_MEMORY_B8G8R8A8, GLY_MEMORY_G8,
    GLY_MEMORY_G8A8, GLY_MEMORY_G8A8_PREMULTIPLIED, GLY_MEMORY_R8G8B8, GLY_MEMORY_R8G8B8A8,
    GLY_MEMORY_R8G8B8A8_PREMULTIPLIED,
};

/// Selection bit of `GlyMemoryFormat` value `n`.
fn bit(n: i32) -> u32 {
    1 << n
}

fn frame(format: u32, data: Vec<u8>, w: u32, h: u32) -> RawFrame {
    let stride = w * bytes_per_pixel_ng(format) as u32;
    RawFrame {
        width: w,
        height: h,
        stride,
        format,
        data,
        delay_ms: 0,
    }
}

#[test]
fn empty_selection_is_passthrough() {
    let f = frame(GLYCIN_NG_FORMAT_R8G8B8A8_PRE, vec![64, 64, 64, 128], 1, 1);
    let out = maybe_convert(f, 0);
    assert_eq!(out.format, GLYCIN_NG_FORMAT_R8G8B8A8_PRE);
}

#[test]
fn premul_unpremultiplies_when_caller_wants_straight() {
    let f = frame(GLYCIN_NG_FORMAT_R8G8B8A8_PRE, vec![64, 64, 64, 128], 1, 1);
    let out = maybe_convert(f, bit(GLY_MEMORY_R8G8B8A8));
    assert_eq!(out.format, GLYCIN_NG_FORMAT_R8G8B8A8);
    assert_eq!(out.data, &[127, 127, 127, 128]);
}

#[test]
fn already_accepted_is_passthrough() {
    let f = frame(GLYCIN_NG_FORMAT_R8G8B8A8, vec![10, 20, 30, 40], 1, 1);
    let out = maybe_convert(f, bit(GLY_MEMORY_R8G8B8A8));
    assert_eq!(out.format, GLYCIN_NG_FORMAT_R8G8B8A8);
    assert_eq!(out.data, &[10, 20, 30, 40]);
}

#[test]
fn rgb_to_rgba_adds_opaque_alpha() {
    let f = frame(GLYCIN_NG_FORMAT_R8G8B8, vec![10, 20, 30], 1, 1);
    let out = maybe_convert(f, bit(GLY_MEMORY_R8G8B8A8));
    assert_eq!(out.format, GLYCIN_NG_FORMAT_R8G8B8A8);
    assert_eq!(out.data, &[10, 20, 30, 255]);
}

#[test]
fn unknown_selection_bits_are_passthrough() {
    let f = frame(GLYCIN_NG_FORMAT_R8G8B8, vec![10, 20, 30], 1, 1);
    let out = maybe_convert(f, bit(GLY_MEMORY_R8G8B8A8) | (1 << 30));
    assert_eq!(out.format, GLYCIN_NG_FORMAT_R8G8B8);
    assert_eq!(out.data, &[10, 20, 30]);
}

#[test]
fn rgba_to_bgra_swaps_channels() {
    let f = frame(GLYCIN_NG_FORMAT_R8G8B8A8, vec![10, 20, 30, 40], 1, 1);
    let out = maybe_convert(f, bit(GLY_MEMORY_B8G8R8A8));
    assert_eq!(out.format, GLYCIN_NG_FORMAT_B8G8R8A8);
    assert_eq!(out.data, &[30, 20, 10, 40]);
    assert_eq!(out.stride, 4);
}

#[test]
fn round_trip_r8g8b8a8() {
    assert_eq!(ng_to_gly(GLYCIN_NG_FORMAT_R8G8B8A8), GLY_MEMORY_R8G8B8A8);
    assert_eq!(gly_to_ng(GLY_MEMORY_R8G8B8A8).unwrap(), GLYCIN_NG_FORMAT_R8G8B8A8);
}

#[test]
fn alpha_classification() {
    assert_eq!(has_alpha_for_gly(GLY_MEMORY_R8G8B8A8), 1);
    assert_eq!(has_alpha_for_gly(GLY_MEMORY_R8G8B8), 0);
    assert_eq!(has_alpha_for_gly(GLY_MEMORY_G8A8), 1);
    assert_eq!(has_alpha_for_gly(GLY_MEMORY_G8), 0);
}

#[test]
fn premul_classification() {
    assert_eq!(is_premultiplied_for_gly(GLY_MEMORY_R8G8B8A8_PREMULTIPLIED), 1);
    assert_eq!(is_premultiplied_for_gly(GLY_MEMORY_R8G8B8A8), 0);
    assert_eq!(is_premultiplied_for_gly(GLY_MEMORY_G8A8_PREMULTIPLIED), 1);
}

#[test]
fn bytes_per_pixel_matches_ng_layout() {
    assert_eq!(bytes_per_pixel_ng(GLYCIN_NG_FORMAT_R8G8B8), 3);
    assert_eq!(bytes_per_pixel_ng(GLYCIN_NG_FORMAT_R8G8B8A8), 4);
    assert_eq!(bytes_per_pixel_ng(GLYCIN_NG_FORMAT_G16A16), 4);
    assert_eq!(bytes_per_pixel_ng(GLYCIN_NG_FORMAT_R16G16B16), 6);
    assert_eq!(bytes_per_pixel_ng(GLYCIN_NG_FORMAT_R32G32B32A32_F), 16);
    assert_eq!(bytes_per_pixel_ng(GLYCIN_NG_FORMAT_UNKNOWN), 0);
}

#[test]
fn eight_bit_values_round_trip_through_the_glycin_numbering() {
    let mut round_tripped = 0;
    for gly in -2..30i32 {
        if let Some(ng) = gly_to_ng(gly) {
            assert_eq!(ng_to_gly(ng), gly, "{gly}");
            round_tripped += 1;
        }
    }
    assert_eq!(round_tripped, 9);
    assert_eq!(gly_to_ng(GLY_MEMORY_G8), None);
    // Unknown constants map to straight RGBA8.
    assert_eq!(ng_to_gly(GLYCIN_NG_FORMAT_UNKNOWN), GLY_MEMORY_R8G8B8A8);
}

#[test]
fn selection_admits_by_bit() {
    assert!(selection_accepts(bit(GLY_MEMORY_G8), GLYCIN_NG_FORMAT_G8));
    assert!(!selection_accepts(bit(GLY_MEMORY_G8), GLYCIN_NG_FORMAT_G8A8_PRE));
    // Unknown constants count as straight RGBA8.
    assert!(selection_accepts(bit(GLY_MEMORY_R8G8B8A8), GLYCIN_NG_FORMAT_UNKNOWN));
}

#[test]
fn converting_twice_is_converting_once() {
    let f = frame(GLYCIN_NG_FORMAT_R8G8B8A8_PRE, vec![64, 64, 64, 128, 0, 0, 0, 0], 2, 1);
    let selection = bit(GLY_MEMORY_B8G8R8A8);
    let once = maybe_convert(f, selection);
    let twice = maybe_convert(once.clone(), selection);
    assert_eq!(once.format, GLYCIN_NG_FORMAT_B8G8R8A8);
    assert_eq!(twice.format, once.format);
    assert_eq!(twice.data, once.data);
    assert_eq!(twice.stride, once.stride);
}
