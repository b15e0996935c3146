use glycin_ng::empty_groups::{is_group, is_referenced, strip, worth_scanning};
use glycin_ng::xinclude::{contains_xinclude, expand, strip_svg_prolog};

const NS: &str = "xmlns=\"http://www.w3.org/2000/svg\"";

fn doc(body: &str) -> String {
    format!("<svg {NS} width=\"16\" height=\"16\">{body}</svg>")
}

#[test]
fn ignores_documents_without_nested_svg() {
    let d = doc("<g opacity=\"0.5\"/><rect width=\"4\" height=\"4\"/>");
    assert!(strip(d.as_bytes()).is_none());
}

#[test]
fn ignores_documents_without_opacity() {
    let d = doc(&format!("<svg {NS}><g/><rect width=\"4\" height=\"4\"/></svg>"));
    assert!(strip(d.as_bytes()).is_none());
}

#[test]
fn removes_self_closing_and_paired_empty_groups() {
    let d = doc(&format!(
        "<g opacity=\"0.75\"><svg {NS}><g transform=\"translate(-41,-447)\"/><g></g>\
         <g><rect width=\"4\" height=\"4\"/></g></svg></g>"
    ));
    let out = strip(d.as_bytes()).expect("should rewrite");
    let s = String::from_utf8(out).unwrap();
    assert!(s.contains("<rect"), "content must survive: {s}");
    assert!(!s.contains("translate(-41,-447)"), "empty group kept: {s}");
    // One group remains: the one wrapping the rect, plus the
    // opacity group.
    assert_eq!(s.matches("<g").count(), 2, "{s}");
}

#[test]
fn keeps_group_with_filter() {
    let d = doc(&format!(
        "<g opacity=\"0.5\"><svg {NS}><g filter=\"url(#f)\"/>\
         <g><rect width=\"4\" height=\"4\"/></g></svg></g>"
    ));
    let out = strip(d.as_bytes());
    let s = out
        .map(|v| String::from_utf8(v).unwrap())
        .unwrap_or(d.clone());
    assert!(s.contains("filter=\"url(#f)\""), "filtered group dropped: {s}");
}

#[test]
fn keeps_referenced_group() {
    let d = doc(&format!(
        "<g opacity=\"0.5\"><svg {NS}><g id=\"layer1\"/><use href=\"#layer1\"/>\
         <g><rect width=\"4\" height=\"4\"/></g></svg></g>"
    ));
    let out = strip(d.as_bytes());
    let s = out
        .map(|v| String::from_utf8(v).unwrap())
        .unwrap_or(d.clone());
    assert!(s.contains("id=\"layer1\""), "referenced group dropped: {s}");
}

#[test]
fn keeps_group_holding_only_whitespace_content() {
    // Whitespace-only groups are still empty and may go.
    let d = doc(&format!(
        "<g opacity=\"0.5\"><svg {NS}><g>\n  </g><g><rect width=\"4\" height=\"4\"/></g></svg></g>"
    ));
    let out = strip(d.as_bytes()).expect("should rewrite");
    let s = String::from_utf8(out).unwrap();
    assert!(s.contains("<rect"), "{s}");
}

#[test]
fn strip_output_is_exact() {
    let d = "<svg><g opacity=\"0.5\"><svg><g/><g>\n</g><g><rect/></g></svg></g></svg>";
    let out = strip(d.as_bytes()).expect("should rewrite");
    assert_eq!(
        String::from_utf8(out).unwrap(),
        "<svg><g opacity=\"0.5\"><svg><g><rect/></g></svg></g></svg>"
    );
}

#[test]
fn strip_keeps_nested_groups_with_content() {
    let d = "<svg opacity=\"1\"><svg><g><g><path/></g></g></svg></svg>";
    // Nothing is empty, so nothing was removed.
    assert!(strip(d.as_bytes()).is_none());
}

#[test]
fn strip_refuses_malformed_documents() {
    let d = "<svg opacity=\"1\"><svg><g/></svg></x></svg>";
    assert!(strip(d.as_bytes()).is_none());
}

#[test]
fn group_names_and_references() {
    assert!(is_group(b"g"));
    assert!(is_group(b"svg:g"));
    assert!(!is_group(b"gg"));
    assert!(!is_group(b":"));
    assert!(!is_group(b""));
    assert!(is_referenced(b"a", b"url(#a)"));
    assert!(!is_referenced(b"a", b"a"));
    assert!(!is_referenced(b"", b"#"));
}

#[test]
fn scanning_needs_two_svg_tags_and_opacity() {
    assert!(worth_scanning(b"<svg><svg opacity"));
    assert!(!worth_scanning(b"<svg opacity"));
    assert!(!worth_scanning(b"<svg><svg>"));
    assert!(worth_scanning(b"opacity<svg<svg"));
}

const GTK_RECOLOR_WRAPPER: &str = r#"<?xml version="1.0" encoding="UTF-8" standalone="no"?>
<svg version="1.1" xmlns="http://www.w3.org/2000/svg" xmlns:xi="http://www.w3.org/2001/XInclude" width="16" height="16">
  <style>path { fill: #fff !important; }</style>
  <g><xi:include href="data:text/xml;base64,PHN2ZyB4bWxucz0iaHR0cDovL3d3dy53My5vcmcvMjAwMC9zdmciPjxwYXRoIGQ9Ik0wIDBoMTZ2MTZIMHoiIGZpbGw9IiMyZTM0MzYiLz48L3N2Zz4="/></g>
</svg>"#;

#[test]
fn passes_through_when_no_xinclude() {
    let svg = b"<svg xmlns=\"http://www.w3.org/2000/svg\"><rect width=\"4\" height=\"4\"/></svg>";
    assert!(expand(svg).is_none());
}

#[test]
fn inlines_data_uri_xinclude() {
    let out = expand(GTK_RECOLOR_WRAPPER.as_bytes()).expect("expanded");
    let s = std::str::from_utf8(&out).unwrap();
    assert!(!s.contains("xi:include"), "xi:include should be gone: {s}");
    assert!(s.contains("<svg xmlns=\"http://www.w3.org/2000/svg\"><path"));
}

#[test]
fn leaves_unrecognized_href_intact() {
    // External-URL href that cannot be resolved: the element is left as-is
    // so the caller's error path stays visible.
    let svg = br#"<?xml version="1.0"?>
<svg xmlns="http://www.w3.org/2000/svg" xmlns:xi="http://www.w3.org/2001/XInclude">
  <xi:include href="https://example.com/icon.svg"/>
</svg>"#;
    let out = expand(svg);
    assert!(out.is_none(), "no expansion -> caller keeps its input");
}

#[test]
fn expand_output_is_exact() {
    // "<svg/>" in base64.
    let d = "<a><xi:include href=\"data:image/svg+xml;base64,PHN2Zy8+\"/><!--c--></a>";
    let out = expand(d.as_bytes()).expect("expanded");
    assert_eq!(String::from_utf8(out).unwrap(), "<a><svg/><!--c--></a>");
}

#[test]
fn expand_drops_content_of_non_empty_include() {
    let d = "<a><xi:include href=\"data:text/xml;base64,PHN2Zy8+\"><b/></xi:include>t</a>";
    let out = expand(d.as_bytes()).expect("expanded");
    assert_eq!(String::from_utf8(out).unwrap(), "<a><svg/>t</a>");
    // The unprefixed name counts too, once the document mentions XInclude.
    let d = "<!--xi:include--><a><include href=\"data:text/xml;base64,PHN2Zy8+\"><b/></include></a>";
    let out = expand(d.as_bytes()).expect("expanded");
    assert_eq!(String::from_utf8(out).unwrap(), "<!--xi:include--><a><svg/></a>");
}

#[test]
fn expand_refuses_bad_base64() {
    let d = "<a><xi:include href=\"data:text/xml;base64,@@@\"/></a>";
    assert!(expand(d.as_bytes()).is_none());
}

#[test]
fn prolog_is_dropped_and_utf8_checked() {
    assert_eq!(
        strip_svg_prolog(b"  <?xml version=\"1.0\"?>\n<svg/>").unwrap(),
        b"<svg/>".to_vec()
    );
    assert_eq!(strip_svg_prolog(b"<svg/>").unwrap(), b"<svg/>".to_vec());
    assert!(strip_svg_prolog(b"<?xml never closes").is_none());
    assert!(strip_svg_prolog(&[0xff, 0xfe]).is_none());
    assert!(contains_xinclude(b"<xi:include/>"));
    assert!(!contains_xinclude(b"<include/>"));
}
