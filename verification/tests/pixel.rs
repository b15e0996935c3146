use glycin_ng::pixel::{half_to_u8, luma, unpremul_g8, unpremul_rgb8};

#[test]
fn half_to_u8_scales_to_byte_range() {
    // 0.0 -> 0
    assert_eq!(half_to_u8(0x0000), 0);
    // 1.0 -> 255
    assert_eq!(half_to_u8(0x3C00), 255);
    // 0.5 -> 128
    assert_eq!(half_to_u8(0x3800), 128);
}

#[test]
fn half_handles_special_values() {
    // +inf clamps to 255
    assert_eq!(half_to_u8(0x7C00), 255);
    // -inf clamps to 0
    assert_eq!(half_to_u8(0xFC00), 0);
    // NaN maps to 0
    assert_eq!(half_to_u8(0x7E00), 0);
}

#[test]
fn half_to_u8_rounds_and_clamps() {
    // -1.0 clamps to 0, 2.0 clamps to 255.
    assert_eq!(half_to_u8(0xBC00), 0);
    assert_eq!(half_to_u8(0x4000), 255);
    // 0.25 * 255 + 0.5 = 64.25 -> 64
    assert_eq!(half_to_u8(0x3400), 64);
    // The smallest subnormal is far below half a step.
    assert_eq!(half_to_u8(0x0001), 0);
    // -0.0
    assert_eq!(half_to_u8(0x8000), 0);
}

#[test]
fn unpremultiply_examples() {
    assert_eq!(unpremul_g8(50, 100), (127, 100));
    assert_eq!(unpremul_g8(200, 100), (255, 100));
    assert_eq!(unpremul_g8(7, 0), (0, 0));
    assert_eq!(unpremul_rgb8(64, 64, 64, 128), (127, 127, 127, 128));
    assert_eq!(unpremul_rgb8(1, 2, 3, 0), (0, 0, 0, 0));
    // An opaque pixel is its own straight form.
    assert_eq!(unpremul_rgb8(10, 20, 30, 255), (10, 20, 30, 255));
}

#[test]
fn luma_weights_channels() {
    assert_eq!(luma(255, 255, 255), 255);
    assert_eq!(luma(0, 0, 0), 0);
    assert_eq!(luma(100, 0, 0), 30);
    assert_eq!(luma(0, 100, 0), 59);
    assert_eq!(luma(0, 0, 100), 11);
}

#[test]
fn unpremultiplying_never_darkens() {
    for a in 1..=255u8 {
        for c in [0u8, 1, 17, 128, 200, 255] {
            assert!(unpremul_g8(c, a).0 >= c, "c={c} a={a}");
        }
    }
}
