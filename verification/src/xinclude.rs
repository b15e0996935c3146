//! Inlining of `xi:include` elements in SVG documents.
//!
//! GTK's symbolic-icon recolouring wraps each icon in an outer SVG that
//! pulls the icon in through XInclude, with the icon itself carried in a
//! base64 `data:` URI. The SVG renderer does not implement XInclude (it is
//! an XML-layer feature), so this pass replaces every such element with the
//! decoded payload's markup, its XML declaration dropped. Nested `<svg>`
//! elements are their own viewports, which is what the recolour wrapper
//! expects.
//!
//! Documents without an expandable `xi:include` come back as `None`, so the
//! caller keeps its input as it is.

use base64::Engine;
use vstd::prelude::*;
use vstd::slice::{slice_subrange, slice_to_vec};
use vstd::utf8::valid_utf8;

use crate::bytes::{
    append, first_at, is_utf8, leading_space_len, memchr_subseq, occurs_at, occurs_in, opt_bytes,
    position_of, strip_prefix, trim_leading_whitespace,
};
use crate::xml::{
    attrs_view, is_final, lemma_prefixed_twice, next_token, prefixed, token_bytes, well_terminated, write_token, xml_pending,
    xml_reader, xml_tokens, XmlKind, XmlTokenView,
};

verus! {

/// `xi:include`
pub const XI_INCLUDE: [u8; 10] = [0x78, 0x69, 0x3a, 0x69, 0x6e, 0x63, 0x6c, 0x75, 0x64, 0x65];

/// `include`
pub const INCLUDE: [u8; 7] = [0x69, 0x6e, 0x63, 0x6c, 0x75, 0x64, 0x65];

/// `href`
pub const HREF: [u8; 4] = [0x68, 0x72, 0x65, 0x66];

/// `data:text/xml;base64,`
pub const XML_DATA_URI: [u8; 21] = [
    0x64, 0x61, 0x74, 0x61, 0x3a, 0x74, 0x65, 0x78, 0x74, 0x2f, 0x78, 0x6d, 0x6c, 0x3b, 0x62, 0x61,
    0x73, 0x65, 0x36, 0x34, 0x2c,
];

/// `data:image/svg+xml;base64,`
pub const SVG_DATA_URI: [u8; 26] = [
    0x64, 0x61, 0x74, 0x61, 0x3a, 0x69, 0x6d, 0x61, 0x67, 0x65, 0x2f, 0x73, 0x76, 0x67, 0x2b, 0x78,
    0x6d, 0x6c, 0x3b, 0x62, 0x61, 0x73, 0x65, 0x36, 0x34, 0x2c,
];

/// `<?xml`
pub const XML_DECL_START: [u8; 5] = [0x3c, 0x3f, 0x78, 0x6d, 0x6c];

/// `>`
pub const TAG_CLOSE: u8 = 0x3e;

/// What base64's `STANDARD` engine decodes `input` to, `None` where it
/// refuses it.
pub uninterp spec fn base64_standard_decode(input: Seq<u8>) -> Option<Seq<u8>>;

/// `base64::engine::general_purpose::STANDARD.decode`. Claimed: the result
/// is `base64_standard_decode` of the input, an error being `None`. The
/// engine's alphabet and padding rules are not restated here.
#[verifier::external_body]
fn base64_decode(input: &[u8]) -> (r: Option<Vec<u8>>)
    ensures
        opt_bytes(r) == base64_standard_decode(input@),
{
    base64::engine::general_purpose::STANDARD.decode(input).ok()
}

/// The element names the pass expands: `xi:include`, or `include` where
/// the prefix was dropped.
pub open spec fn is_xinclude_name(name: Seq<u8>) -> bool {
    name == XI_INCLUDE@ || name == INCLUDE@
}

/// Whether `name` is an XInclude element name.
pub fn is_xinclude(name: &[u8]) -> (r: bool)
    ensures
        r == is_xinclude_name(name@),
{
    let a = name.len() == 10 && strip_prefix(name, &XI_INCLUDE).is_some();
    let b = name.len() == 7 && strip_prefix(name, &INCLUDE).is_some();
    proof {
        if name@.len() == 10 && occurs_at(name@, XI_INCLUDE@, 0) {
            assert(name@ =~= name@.subrange(0, 10));
        }
        if name@.len() == 7 && occurs_at(name@, INCLUDE@, 0) {
            assert(name@ =~= name@.subrange(0, 7));
        }
        if name@ == XI_INCLUDE@ {
            assert(name@.subrange(0, 10) =~= name@);
        }
        if name@ == INCLUDE@ {
            assert(name@.subrange(0, 7) =~= name@);
        }
    }
    a || b
}

/// The base64 text of an `href` value: what follows a
/// `data:text/xml;base64,` or `data:image/svg+xml;base64,` prefix.
pub open spec fn data_uri_text(value: Seq<u8>) -> Option<Seq<u8>> {
    if occurs_at(value, XML_DATA_URI@, 0) {
        Some(value.skip(XML_DATA_URI@.len() as int))
    } else if occurs_at(value, SVG_DATA_URI@, 0) {
        Some(value.skip(SVG_DATA_URI@.len() as int))
    } else {
        None
    }
}

/// The decoded payload of an element's attributes: the first `href`
/// decides; its value must be a base64 data URI that decodes.
pub open spec fn data_uri_payload(attrs: Seq<(Seq<u8>, Seq<u8>)>) -> Option<Seq<u8>>
    decreases attrs.len(),
{
    if attrs.len() == 0 {
        None
    } else if attrs[0].0 == HREF@ {
        match data_uri_text(attrs[0].1) {
            Some(text) => base64_standard_decode(text),
            None => None,
        }
    } else {
        data_uri_payload(attrs.drop_first())
    }
}

/// The payload of the first `href` attribute, decoded.
pub fn extract_data_uri_payload(attrs: &Vec<(Vec<u8>, Vec<u8>)>) -> (r: Option<Vec<u8>>)
    ensures
        opt_bytes(r) == data_uri_payload(attrs_view(attrs@)),
{
    let ghost all = attrs_view(attrs@);
    assert(all.skip(0) =~= all);
    let mut j: usize = 0;
    while j < attrs.len()
        invariant
            j <= attrs@.len(),
            all == attrs_view(attrs@),
            data_uri_payload(all) == data_uri_payload(all.skip(j as int)),
        decreases attrs@.len() - j,
    {
        assert(all.skip(j as int)[0] == all[j as int]);
        assert(all.skip(j as int).drop_first() =~= all.skip(j + 1));
        let key = attrs[j].0.as_slice();
        if key.len() == 4 && strip_prefix(key, &HREF).is_some() {
            assert(key@ =~= key@.subrange(0, 4));
            let value = attrs[j].1.as_slice();
            let text = match strip_prefix(value, &XML_DATA_URI) {
                Some(rest) => rest,
                None => match strip_prefix(value, &SVG_DATA_URI) {
                    Some(rest) => rest,
                    None => {
                        return None;
                    },
                },
            };
            return base64_decode(text);
        }
        proof {
            if key@ == HREF@ {
                assert(key@.subrange(0, 4) =~= key@);
            }
        }
        j = j + 1;
    }
    assert(all.skip(j as int) =~= Seq::<(Seq<u8>, Seq<u8>)>::empty());
    None
}

/// The markup to paste for a decoded payload: leading whitespace and a
/// leading `<?xml ...>` declaration (up to its first `>`) dropped, then
/// whitespace again; `None` when the declaration never closes or the rest
/// is not UTF-8.
pub open spec fn svg_body(payload: Seq<u8>) -> Option<Seq<u8>> {
    let trimmed = payload.skip(leading_space_len(payload));
    let after = if occurs_at(trimmed, XML_DECL_START@, 0) {
        let rest = trimmed.skip(XML_DECL_START@.len() as int);
        if exists|k: int| first_at(rest, TAG_CLOSE, k) {
            let k = choose|k: int| first_at(rest, TAG_CLOSE, k);
            let tail = rest.skip(k + 1);
            Some(tail.skip(leading_space_len(tail)))
        } else {
            None
        }
    } else {
        Some(trimmed)
    };
    match after {
        Some(body) => if valid_utf8(body) {
            Some(body)
        } else {
            None
        },
        None => None,
    }
}

/// Drop the XML declaration of a decoded payload; see [`svg_body`].
pub fn strip_svg_prolog(payload: &[u8]) -> (r: Option<Vec<u8>>)
    ensures
        opt_bytes(r) == svg_body(payload@),
{
    let trimmed = trim_leading_whitespace(payload);
    let after: &[u8] = match strip_prefix(trimmed, &XML_DECL_START) {
        Some(rest) => match position_of(rest, TAG_CLOSE) {
            Some(k) => {
                assert(first_at(rest@, TAG_CLOSE, k as int));
                assert(k < rest@.len());
                proof {
                    let c = choose|c: int| first_at(rest@, TAG_CLOSE, c);
                    if c < k {
                        assert(rest@[c] == TAG_CLOSE);
                    }
                    if k < c {
                        assert(rest@[k as int] == TAG_CLOSE);
                    }
                    assert(c == k);
                }
                let n = rest.len();
                trim_leading_whitespace(slice_subrange(rest, k + 1, n))
            },
            None => {
                return None;
            },
        },
        None => trimmed,
    };
    if is_utf8(after) {
        Some(slice_to_vec(after))
    } else {
        None
    }
}

/// The markup an XInclude element is replaced with, if it can be expanded.
pub open spec fn inline_body(attrs: Seq<(Seq<u8>, Seq<u8>)>) -> Option<Seq<u8>> {
    match data_uri_payload(attrs) {
        Some(payload) => svg_body(payload),
        None => None,
    }
}

/// The pass from token `i` on, inside `depth` levels of an expanded
/// non-empty `xi:include` whose content is being dropped: the bytes written
/// and whether an element was expanded, `None` when the document is cut
/// short or malformed.
pub open spec fn expand_run(toks: Seq<XmlTokenView>, i: int, depth: nat) -> Option<(Seq<u8>, bool)>
    decreases toks.len() - i,
{
    if i < 0 || i >= toks.len() {
        None
    } else {
        let t = toks[i];
        if depth > 0 {
            if is_final(t.kind) {
                None
            } else if t.kind == XmlKind::Start && is_xinclude_name(t.name) {
                expand_run(toks, i + 1, depth + 1)
            } else if t.kind == XmlKind::End && is_xinclude_name(t.name) {
                expand_run(toks, i + 1, (depth - 1) as nat)
            } else {
                expand_run(toks, i + 1, depth)
            }
        } else if t.kind == XmlKind::Failed {
            None
        } else if t.kind == XmlKind::Eof {
            Some((Seq::empty(), false))
        } else if (t.kind == XmlKind::Empty || t.kind == XmlKind::Start) && is_xinclude_name(t.name) {
            match inline_body(t.attrs) {
                Some(body) => prefixed(
                    body,
                    true,
                    expand_run(toks, i + 1, if t.kind == XmlKind::Start { 1 } else { 0 }),
                ),
                None => prefixed(token_bytes(t), false, expand_run(toks, i + 1, 0)),
            }
        } else {
            prefixed(token_bytes(t), false, expand_run(toks, i + 1, 0))
        }
    }
}

/// The XInclude pass over a document: `None` unless the document mentions
/// `xi:include`, reads without error to its end, and at least one element
/// was expanded; then the rewritten document.
pub open spec fn expanded(input: Seq<u8>) -> Option<Seq<u8>> {
    if !occurs_in(input, XI_INCLUDE@) {
        None
    } else {
        match expand_run(xml_tokens(input), 0, 0) {
            Some((out, true)) => Some(out),
            _ => None,
        }
    }
}

/// Whether the document mentions `xi:include` at all.
pub fn contains_xinclude(input: &[u8]) -> (r: bool)
    ensures
        r == occurs_in(input@, XI_INCLUDE@),
{
    memchr_subseq(input, &XI_INCLUDE)
}

/// Replace every `xi:include` element whose `href` is a base64 data URI
/// with the decoded markup; see [`expanded`].
pub fn expand(input: &[u8]) -> (r: Option<Vec<u8>>)
    ensures
        opt_bytes(r) == expanded(input@),
{
    if !contains_xinclude(input) {
        return None;
    }
    let input_len = input.len();
    let mut reader = xml_reader(input);
    let ghost toks = xml_tokens(input@);
    let ghost mut i: int = 0;
    let mut out: Vec<u8> = Vec::new();
    let mut expanded_any = false;
    let mut depth: usize = 0;
    assert(toks.skip(0) =~= toks);
    loop
        invariant
            toks == xml_tokens(input@),
            well_terminated(toks),
            toks.len() <= input@.len() + 1,
            input_len == input@.len(),
            occurs_in(input@, XI_INCLUDE@),
            0 <= i < toks.len(),
            xml_pending(reader) == toks.skip(i),
            depth <= i,
            expand_run(toks, 0, 0) == prefixed(out@, expanded_any, expand_run(toks, i, depth as nat)),
        decreases toks.len() - i,
    {
        assert(toks.skip(i)[0] == toks[i]);
        let t = next_token(&mut reader);
        let ghost here = i;
        proof {
            assert(toks.skip(i).drop_first() =~= toks.skip(i + 1));
            i = i + 1;
        }
        proof {
            if !is_final(t@.kind) {
                assert(here < toks.len() - 1);
            }
        }
        if depth > 0 {
            match t.kind {
                XmlKind::Eof | XmlKind::Failed => {
                    return None;
                },
                XmlKind::Start => {
                    if is_xinclude(t.name.as_slice()) {
                        depth = depth + 1;
                    }
                },
                XmlKind::End => {
                    if is_xinclude(t.name.as_slice()) {
                        depth = depth - 1;
                    }
                },
                _ => {},
            }
        } else {
            match t.kind {
                XmlKind::Failed => {
                    return None;
                },
                XmlKind::Eof => {
                    proof {
                        assert(t@ == toks[here]);
                        assert(expand_run(toks, here, 0) == Some((Seq::<u8>::empty(), false)));
                        assert(out@ + Seq::<u8>::empty() =~= out@);
                    }
                    return if expanded_any {
                        Some(out)
                    } else {
                        None
                    };
                },
                XmlKind::Empty | XmlKind::Start => {
                    if is_xinclude(t.name.as_slice()) {
                        let body = match extract_data_uri_payload(&t.attrs) {
                            Some(payload) => strip_svg_prolog(payload.as_slice()),
                            None => None,
                        };
                        match body {
                            Some(body) => {
                                proof {
                                    lemma_prefixed_twice(
                                        out@,
                                        expanded_any,
                                        body@,
                                        true,
                                        expand_run(toks, i, depth as nat),
                                    );
                                }
                                append(&mut out, body.as_slice());
                                expanded_any = true;
                                if t.kind == XmlKind::Start {
                                    depth = 1;
                                }
                            },
                            None => {
                                proof {
                                    lemma_prefixed_twice(
                                        out@,
                                        expanded_any,
                                        token_bytes(t@),
                                        false,
                                        expand_run(toks, i, 0),
                                    );
                                }
                                write_token(&mut out, &t);
                            },
                        }
                    } else {
                        proof {
                            lemma_prefixed_twice(
                                out@,
                                expanded_any,
                                token_bytes(t@),
                                false,
                                expand_run(toks, i, 0),
                            );
                        }
                        write_token(&mut out, &t);
                    }
                },
                _ => {
                    proof {
                        lemma_prefixed_twice(
                            out@,
                            expanded_any,
                            token_bytes(t@),
                            false,
                            expand_run(toks, i, 0),
                        );
                    }
                    write_token(&mut out, &t);
                },
            }
        }
    }
}

/// A token the pass replaces: an `xi:include` element, empty or not,
/// whose `href` decodes to markup.
pub open spec fn expandable(t: XmlTokenView) -> bool {
    &&& (t.kind == XmlKind::Empty || t.kind == XmlKind::Start)
    &&& is_xinclude_name(t.name)
    &&& inline_body(t.attrs) is Some
}

proof fn lemma_expansion_needs_an_expandable_token(toks: Seq<XmlTokenView>, i: int, depth: nat)
    ensures
        expand_run(toks, i, depth) matches Some((_, true)) ==> exists|j: int|
            i <= j < toks.len() && #[trigger] expandable(toks[j]),
    decreases toks.len() - i,
{
    if 0 <= i < toks.len() {
        let t = toks[i];
        lemma_expansion_needs_an_expandable_token(toks, i + 1, 0);
        lemma_expansion_needs_an_expandable_token(toks, i + 1, depth + 1);
        if depth > 0 {
            lemma_expansion_needs_an_expandable_token(toks, i + 1, (depth - 1) as nat);
            lemma_expansion_needs_an_expandable_token(toks, i + 1, depth);
        } else if (t.kind == XmlKind::Empty || t.kind == XmlKind::Start) && is_xinclude_name(t.name)
            && inline_body(t.attrs) is Some {
            assert(expandable(toks[i]));
        }
        lemma_expansion_needs_an_expandable_token(toks, i + 1, 1);
    }
}

/// The pass answers `None`, leaving the caller with its input,
/// for a document that does not mention `xi:include` and for one in which
/// no `xi:include` element has a `href` that decodes to markup.
pub proof fn law_only_expandable_documents_are_rewritten(input: Seq<u8>)
    ensures
        !occurs_in(input, XI_INCLUDE@) ==> expanded(input) is None,
        expanded(input) is Some ==> exists|j: int|
            0 <= j < xml_tokens(input).len() && #[trigger] expandable(xml_tokens(input)[j]),
{
    lemma_expansion_needs_an_expandable_token(xml_tokens(input), 0, 0);
}

/// The depth the pass is at after token `i`, entered at depth `depth`:
/// how many levels of an expanded non-empty `xi:include` it is inside.
pub open spec fn depth_after(toks: Seq<XmlTokenView>, i: int, depth: nat) -> nat {
    let t = toks[i];
    if depth > 0 {
        if t.kind == XmlKind::Start && is_xinclude_name(t.name) {
            depth + 1
        } else if t.kind == XmlKind::End && is_xinclude_name(t.name) {
            (depth - 1) as nat
        } else {
            depth
        }
    } else if expandable(t) && t.kind == XmlKind::Start {
        1
    } else {
        0
    }
}

/// The depth the pass is at when it reaches token `j`.
pub open spec fn depth_before(toks: Seq<XmlTokenView>, j: int) -> nat
    decreases j,
{
    if j <= 0 {
        0
    } else {
        depth_after(toks, j - 1, depth_before(toks, j - 1))
    }
}

proof fn lemma_occurs_after_prefix(pre: Seq<u8>, out: Seq<u8>, needle: Seq<u8>)
    requires
        occurs_in(out, needle),
    ensures
        occurs_in(pre + out, needle),
{
    let k = choose|k: int| occurs_at(out, needle, k);
    assert((pre + out).subrange(pre.len() + k, pre.len() + k + needle.len()) =~= out.subrange(
        k,
        k + needle.len(),
    ));
    assert(occurs_at(pre + out, needle, pre.len() + k));
}

proof fn lemma_untouched_tokens_are_written(toks: Seq<XmlTokenView>, i: int, j: int)
    requires
        0 <= i <= j < toks.len(),
        well_terminated(toks),
        depth_before(toks, j) == 0,
        !expandable(toks[j]),
        !is_final(toks[j].kind),
    ensures
        expand_run(toks, i, depth_before(toks, i)) matches Some((out, _)) ==> occurs_in(
            out,
            token_bytes(toks[j]),
        ),
    decreases j - i,
{
    let t = toks[i];
    let d = depth_before(toks, i);
    let tb = token_bytes(toks[j]);
    if i == j {
        if let Some((out, f)) = expand_run(toks, i + 1, 0) {
            assert((tb + out).subrange(0, tb.len() as int) =~= tb);
            assert(occurs_at(tb + out, tb, 0));
        }
    } else {
        if is_final(t.kind) {
            assert(i < toks.len() - 1);
        }
        assert(depth_before(toks, i + 1) == depth_after(toks, i, d));
        lemma_untouched_tokens_are_written(toks, i + 1, j);
        if let Some((out, f)) = expand_run(toks, i + 1, depth_after(toks, i, d)) {
            lemma_occurs_after_prefix(token_bytes(t), out, tb);
            if let Some(body) = inline_body(t.attrs) {
                lemma_occurs_after_prefix(body, out, tb);
            }
        }
    }
}

/// The pass changes nothing but the elements it expands: every other
/// token it reads outside an expanded element is in the output as it was
/// read. (The token stream is one as the reader yields it: it ends at its
/// first end of input or error.)
pub proof fn law_untouched_tokens_survive(input: Seq<u8>, j: int)
    requires
        well_terminated(xml_tokens(input)),
        0 <= j < xml_tokens(input).len(),
        depth_before(xml_tokens(input), j) == 0,
        !expandable(xml_tokens(input)[j]),
        !is_final(xml_tokens(input)[j].kind),
    ensures
        expanded(input) matches Some(out) ==> occurs_in(out, token_bytes(xml_tokens(input)[j])),
{
    lemma_untouched_tokens_are_written(xml_tokens(input), 0, j);
}

} // verus!
