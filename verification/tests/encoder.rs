use glycin_ng::encoder::{to_rgba8, EncodeFrame, Encoder};
use glycin_ng::error::Error;
use glycin_ng::format::{KnownFormat, MemoryFormat};

#[test]
fn new_rejects_format_with_no_encoder() {
    // QOI / JXL / SVG / TGA / EXR / PNM / DDS / ICO have no encoder.
    assert!(matches!(
        Encoder::new(KnownFormat::Qoi),
        Err(Error::UnsupportedFormat)
    ));
    assert!(matches!(
        Encoder::new(KnownFormat::Svg),
        Err(Error::UnsupportedFormat)
    ));
}

#[test]
fn encode_with_no_frames_is_internal_error() {
    let enc = Encoder::new(KnownFormat::Png).unwrap();
    assert!(matches!(enc.encode(), Err(Error::Internal(_))));
}

#[test]
fn encode_with_multiple_frames_is_internal_error() {
    let mut enc = Encoder::new(KnownFormat::Png).unwrap();
    let mk = || EncodeFrame {
        width: 1,
        height: 1,
        stride: 4,
        format: MemoryFormat::R8g8b8a8,
        data: vec![0, 0, 0, 255],
    };
    enc.add_frame(mk());
    enc.add_frame(mk());
    assert!(matches!(enc.encode(), Err(Error::Internal(_))));
}

#[test]
fn to_rgba8_rejects_short_input() {
    let data = vec![1, 2, 3, 4, 5, 6];
    assert!(matches!(
        to_rgba8(&data, 2, 2, 6, MemoryFormat::R8g8b8),
        Err(Error::Truncated(_))
    ));
}

#[test]
fn to_rgba8_rejects_oversized_output() {
    let stub = [0u8; 4];
    assert!(matches!(
        to_rgba8(&stub, 32768, 32768, 32768 * 4, MemoryFormat::R8g8b8a8),
        Err(Error::LimitExceeded(_))
    ));
}

#[test]
fn to_rgba8_rejects_narrow_stride() {
    let data = vec![0u8; 64];
    assert!(matches!(
        to_rgba8(&data, 4, 4, 8, MemoryFormat::R8g8b8),
        Err(Error::Malformed(_))
    ));
}

#[test]
fn png_round_trip_recovers_pixel() {
    let mut enc = Encoder::new(KnownFormat::Png).unwrap();
    enc.add_frame(EncodeFrame {
        width: 2,
        height: 1,
        stride: 8,
        format: MemoryFormat::R8g8b8a8,
        data: vec![10, 20, 30, 255, 40, 50, 60, 255],
    });
    let bytes = enc.encode().expect("encode should succeed");
    assert!(bytes.starts_with(b"\x89PNG"));
}

#[test]
fn png_output_decodes_back_to_the_pixels() {
    let mut enc = Encoder::new(KnownFormat::Png).unwrap();
    enc.add_frame(EncodeFrame {
        width: 2,
        height: 1,
        stride: 8,
        format: MemoryFormat::B8g8r8a8,
        data: vec![30, 20, 10, 255, 60, 50, 40, 128],
    });
    let bytes = enc.encode().expect("encode should succeed");
    let img = image::load_from_memory_with_format(&bytes, image::ImageFormat::Png)
        .expect("decodes")
        .to_rgba8();
    assert_eq!(img.as_raw(), &vec![10, 20, 30, 255, 40, 50, 60, 128]);
}

#[test]
fn every_supported_target_encodes_a_pixel() {
    for (target, magic) in [
        (KnownFormat::Png, &b"\x89PNG"[..]),
        (KnownFormat::Jpeg, &b"\xff\xd8"[..]),
        (KnownFormat::Gif, &b"GIF8"[..]),
        (KnownFormat::WebP, &b"RIFF"[..]),
        (KnownFormat::Tiff, &b"II"[..]),
        (KnownFormat::Bmp, &b"BM"[..]),
    ] {
        let mut enc = Encoder::new(target).unwrap();
        enc.add_frame(EncodeFrame {
            width: 1,
            height: 1,
            stride: 3,
            format: MemoryFormat::R8g8b8,
            data: vec![1, 2, 3],
        });
        let bytes = enc.encode().expect("encode should succeed");
        assert!(bytes.starts_with(magic), "{target:?}");
    }
}

#[test]
fn jpeg_encodes_the_colour_channels() {
    // JPEG has no alpha channel: the codec gets the colour channels only.
    let mut enc = Encoder::new(KnownFormat::Jpeg).unwrap();
    enc.set_quality(100);
    enc.add_frame(EncodeFrame {
        width: 1,
        height: 1,
        stride: 4,
        format: MemoryFormat::R8g8b8a8,
        data: vec![200, 100, 50, 0],
    });
    let bytes = enc.encode().expect("encode should succeed");
    assert!(bytes.starts_with(b"\xff\xd8"));
    let img = image::load_from_memory_with_format(&bytes, image::ImageFormat::Jpeg)
        .expect("decodes")
        .to_rgb8();
    let px = img.get_pixel(0, 0);
    assert!((px[0] as i32 - 200).abs() <= 4, "{px:?}");
    assert!((px[1] as i32 - 100).abs() <= 4, "{px:?}");
    assert!((px[2] as i32 - 50).abs() <= 4, "{px:?}");
}

#[test]
fn errors_carry_their_messages() {
    let enc = Encoder::new(KnownFormat::Png).unwrap();
    match enc.encode() {
        Err(Error::Internal(m)) => assert_eq!(m, "no frames queued for encode"),
        other => panic!("unexpected {other:?}"),
    }
    match to_rgba8(&[0u8; 64], 4, 4, 8, MemoryFormat::R8g8b8) {
        Err(Error::Malformed(m)) => assert_eq!(m, "stride 8 narrower than 12 bytes/row"),
        other => panic!("unexpected {other:?}"),
    }
    match to_rgba8(&[0u8; 2], 1, 1, 2, MemoryFormat::G16) {
        Err(Error::Internal(m)) => assert_eq!(m, "no rgba8 sampler for G16"),
        other => panic!("unexpected {other:?}"),
    }
    let mut two = Encoder::new(KnownFormat::Png).unwrap();
    for _ in 0..2 {
        two.add_frame(EncodeFrame {
            width: 1,
            height: 1,
            stride: 4,
            format: MemoryFormat::R8g8b8a8,
            data: vec![0, 0, 0, 255],
        });
    }
    match two.encode() {
        Err(Error::Internal(m)) => assert_eq!(m, "multi-frame encoding is not yet supported"),
        other => panic!("unexpected {other:?}"),
    }
}

#[test]
fn encoding_twice_gives_the_same_bytes() {
    let mut enc = Encoder::new(KnownFormat::WebP).unwrap();
    enc.add_frame(EncodeFrame {
        width: 2,
        height: 1,
        stride: 6,
        format: MemoryFormat::R8g8b8,
        data: vec![1, 2, 3, 4, 5, 6],
    });
    assert_eq!(enc.encode().unwrap(), enc.encode().unwrap());
}

#[test]
fn clear_frames_empties_the_queue() {
    let mut enc = Encoder::new(KnownFormat::Png).unwrap();
    enc.add_frame(EncodeFrame {
        width: 1,
        height: 1,
        stride: 4,
        format: MemoryFormat::R8g8b8a8,
        data: vec![0, 0, 0, 255],
    });
    enc.clear_frames();
    assert!(matches!(enc.encode(), Err(Error::Internal(_))));
    assert_eq!(enc.target(), KnownFormat::Png);
}

#[test]
fn setters_chain_and_keep_target() {
    let mut enc = Encoder::new(KnownFormat::Jpeg).unwrap();
    enc.set_quality(90)
        .set_compression(3)
        .set_icc_profile(None)
        .add_metadata("k".to_string(), "v".to_string());
    assert_eq!(enc.target(), KnownFormat::Jpeg);
}

#[test]
fn to_rgba8_converts_every_byte_layout() {
    let rgba = to_rgba8(&[1, 2, 3, 9, 4, 5, 6, 9], 2, 1, 8, MemoryFormat::R8g8b8a8).unwrap();
    assert_eq!(rgba, vec![1, 2, 3, 9, 4, 5, 6, 9]);
    let bgr = to_rgba8(&[10, 20, 30], 1, 1, 3, MemoryFormat::B8g8r8).unwrap();
    assert_eq!(bgr, vec![30, 20, 10, 255]);
    let argb = to_rgba8(&[4, 1, 2, 3], 1, 1, 4, MemoryFormat::A8r8g8b8).unwrap();
    assert_eq!(argb, vec![1, 2, 3, 4]);
    let abgr = to_rgba8(&[4, 3, 2, 1], 1, 1, 4, MemoryFormat::A8b8g8r8).unwrap();
    assert_eq!(abgr, vec![1, 2, 3, 4]);
    let grey = to_rgba8(&[7, 9], 1, 1, 2, MemoryFormat::G8a8).unwrap();
    assert_eq!(grey, vec![7, 7, 7, 9]);
    let pre = to_rgba8(&[64, 64, 64, 128], 1, 1, 4, MemoryFormat::R8g8b8a8Premultiplied).unwrap();
    assert_eq!(pre, vec![127, 127, 127, 128]);
}

#[test]
fn to_rgba8_skips_row_padding() {
    // Two rows of one RGB pixel, rows five bytes apart.
    let data = [1, 2, 3, 0, 0, 4, 5, 6];
    let out = to_rgba8(&data, 1, 2, 5, MemoryFormat::R8g8b8).unwrap();
    assert_eq!(out, vec![1, 2, 3, 255, 4, 5, 6, 255]);
}

#[test]
fn to_rgba8_without_sampler_is_internal() {
    let data = [0u8; 2];
    assert!(matches!(
        to_rgba8(&data, 1, 1, 2, MemoryFormat::G16),
        Err(Error::Internal(_))
    ));
    // An empty image never needs a sampler.
    assert_eq!(to_rgba8(&[], 0, 0, 0, MemoryFormat::G16).unwrap(), Vec::<u8>::new());
}

fn one_pixel_png(quality: u8, compression: u8, metadata: bool) -> Vec<u8> {
    let mut enc = Encoder::new(KnownFormat::Png).unwrap();
    enc.set_quality(quality).set_compression(compression);
    if metadata {
        enc.add_metadata("Comment".to_string(), "hello".to_string());
    }
    enc.add_frame(EncodeFrame {
        width: 1,
        height: 1,
        stride: 4,
        format: MemoryFormat::R8g8b8a8,
        data: vec![9, 8, 7, 255],
    });
    enc.encode().unwrap()
}

#[test]
fn settings_that_reach_no_codec_change_nothing() {
    let plain = one_pixel_png(75, 6, false);
    assert_eq!(one_pixel_png(75, 1, true), plain);
    // PNG ignores the lossy quality.
    assert_eq!(one_pixel_png(10, 6, false), plain);
}
