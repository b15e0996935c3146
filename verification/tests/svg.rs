use glycin_ng::error::Error;
use glycin_ng::svg::{local_name, render_size, rgba_stride, root_svg_attrs};

#[test]
fn root_svg_attributes_are_read_raw() {
    let doc = br#"<?xml version="1.0"?><!--c--><svg width="10mm" height="50%" viewBox="0 0 4 4"><g/></svg>"#;
    let attrs = root_svg_attrs(doc).expect("root is svg");
    let keys: Vec<&[u8]> = attrs.iter().map(|(k, _)| k.as_slice()).collect();
    assert_eq!(keys, vec![&b"width"[..], &b"height"[..], &b"viewBox"[..]]);
    assert_eq!(attrs[0].1, b"10mm".to_vec());
    assert_eq!(attrs[2].1, b"0 0 4 4".to_vec());
}

#[test]
fn only_the_document_element_counts() {
    assert!(root_svg_attrs(b"<html><svg width=\"1\"/></html>").is_none());
    assert!(root_svg_attrs(b"<svg:svg xmlns:svg=\"x\" width=\"2\"/>").is_some());
    assert!(root_svg_attrs(b"no markup at all").is_none());
    assert!(root_svg_attrs(b"").is_none());
}

#[test]
fn local_names_drop_the_prefix() {
    assert_eq!(local_name(b"svg:svg"), b"svg");
    assert_eq!(local_name(b"svg"), b"svg");
    assert_eq!(local_name(b"a:b:c"), b"b:c");
}

#[test]
fn render_size_prefers_the_hint_and_never_goes_below_one() {
    assert_eq!(render_size((16, 8), None), (16, 8));
    assert_eq!(render_size((16, 8), Some((64, 32))), (64, 32));
    assert_eq!(render_size((16, 8), Some((0, 0))), (1, 1));
}

#[test]
fn stride_overflow_is_a_limit() {
    assert_eq!(rgba_stride(16).unwrap(), 64);
    assert!(matches!(rgba_stride(u32::MAX), Err(Error::LimitExceeded("stride"))));
}
