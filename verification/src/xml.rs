//! XML tokens as the SVG preprocessing passes see them.
//!
//! Tokenizing is quick-xml's: a [`Reader`] over the document bytes yields
//! one [`Event`] per token. The passes in [`crate::xinclude`] and
//! [`crate::empty_groups`] read those events, decide per token, and write
//! tokens back out the way quick-xml's `Writer` does, which is plain
//! concatenation of markup delimiters and the token's bytes
//! ([`token_bytes`]).

use quick_xml::events::{BytesCData, BytesDecl, BytesEnd, BytesPI, BytesStart, BytesText, Event};
use quick_xml::reader::Reader;
use vstd::prelude::*;

use crate::bytes::append;

verus! {

#[verifier::external_type_specification]
#[verifier::external_body]
#[verifier::reject_recursive_types(R)]
pub struct ExXmlReader<R>(Reader<R>);

#[verifier::external_type_specification]
pub struct ExXmlEvent<'a>(Event<'a>);

#[verifier::external_type_specification]
#[verifier::external_body]
pub struct ExBytesStart<'a>(BytesStart<'a>);

#[verifier::external_type_specification]
#[verifier::external_body]
pub struct ExBytesEnd<'a>(BytesEnd<'a>);

#[verifier::external_type_specification]
#[verifier::external_body]
pub struct ExBytesText<'a>(BytesText<'a>);

#[verifier::external_type_specification]
#[verifier::external_body]
pub struct ExBytesCData<'a>(BytesCData<'a>);

#[verifier::external_type_specification]
#[verifier::external_body]
pub struct ExBytesDecl<'a>(BytesDecl<'a>);

#[verifier::external_type_specification]
#[verifier::external_body]
pub struct ExBytesPI<'a>(BytesPI<'a>);

/// Kind of an XML token.
#[derive(Clone, Copy, Debug, PartialEq, Eq, Structural)]
pub enum XmlKind {
    Start,
    Empty,
    End,
    Text,
    CData,
    Comment,
    Decl,
    Pi,
    DocType,
    Eof,
    Failed,
}

/// A token as plain values: its kind, its bytes (what the event
/// dereferences to: the tag content between the delimiters, the text, the
/// comment body, ...), the tag name and, for start tags, the attributes
/// as (key, raw value) pairs.
#[verifier::ext_equal]
pub struct XmlTokenView {
    pub kind: XmlKind,
    pub raw: Seq<u8>,
    pub name: Seq<u8>,
    pub attrs: Seq<(Seq<u8>, Seq<u8>)>,
}

/// The bytes an event dereferences to.
pub uninterp spec fn event_content(e: Event) -> Seq<u8>;

/// The qualified name of a start or empty-element tag.
pub uninterp spec fn start_tag_name(e: BytesStart) -> Seq<u8>;

/// The attributes of a start or empty-element tag, in document order,
/// without duplicate checking, malformed ones skipped: (key, raw value).
pub uninterp spec fn start_tag_attributes(e: BytesStart) -> Seq<(Seq<u8>, Seq<u8>)>;

/// The tokens quick-xml's `Reader` yields for `input` (empty elements not
/// expanded), in order, up to and including the first end of input or
/// error.
pub uninterp spec fn xml_tokens(input: Seq<u8>) -> Seq<XmlTokenView>;

/// The tokens a reader has yet to yield.
pub uninterp spec fn xml_pending(reader: Reader<&[u8]>) -> Seq<XmlTokenView>;

/// The token an event stands for.
pub open spec fn event_view(e: Event) -> XmlTokenView {
    match e {
        Event::Start(s) => XmlTokenView {
            kind: XmlKind::Start,
            raw: event_content(e),
            name: start_tag_name(s),
            attrs: start_tag_attributes(s),
        },
        Event::Empty(s) => XmlTokenView {
            kind: XmlKind::Empty,
            raw: event_content(e),
            name: start_tag_name(s),
            attrs: start_tag_attributes(s),
        },
        Event::End(_) => XmlTokenView {
            kind: XmlKind::End,
            raw: event_content(e),
            name: event_content(e),
            attrs: Seq::empty(),
        },
        Event::Text(_) => plain_token(XmlKind::Text, event_content(e)),
        Event::CData(_) => plain_token(XmlKind::CData, event_content(e)),
        Event::Comment(_) => plain_token(XmlKind::Comment, event_content(e)),
        Event::Decl(_) => plain_token(XmlKind::Decl, event_content(e)),
        Event::PI(_) => plain_token(XmlKind::Pi, event_content(e)),
        Event::DocType(_) => plain_token(XmlKind::DocType, event_content(e)),
        Event::Eof => plain_token(XmlKind::Eof, Seq::empty()),
    }
}

pub open spec fn plain_token(kind: XmlKind, raw: Seq<u8>) -> XmlTokenView {
    XmlTokenView { kind, raw, name: Seq::empty(), attrs: Seq::empty() }
}

/// The last token ends the stream; no token before it does.
pub open spec fn is_final(kind: XmlKind) -> bool {
    kind == XmlKind::Eof || kind == XmlKind::Failed
}

/// A token stream that ends at its last token and only there.
pub open spec fn well_terminated(toks: Seq<XmlTokenView>) -> bool {
    &&& toks.len() > 0
    &&& is_final(toks.last().kind)
    &&& forall|i: int| 0 <= i < toks.len() - 1 ==> !is_final(#[trigger] toks[i].kind)
}

/// `quick_xml::reader::Reader::from_reader` over `input`, with
/// `expand_empty_elements` off. Claimed: the reader will yield
/// `xml_tokens(input)`, a stream that ends at its first end of input or
/// error, with at most one token per input byte besides the last (the
/// reader consumes at least one byte for every event but `Eof`, and
/// reports `Eof` once the input is exhausted).
#[verifier::external_body]
pub(crate) fn xml_reader<'a>(input: &'a [u8]) -> (r: Reader<&'a [u8]>)
    ensures
        xml_pending(r) == xml_tokens(input@),
        well_terminated(xml_pending(r)),
        xml_pending(r).len() <= input@.len() + 1,
{
    let mut reader = Reader::from_reader(input);
    reader.config_mut().expand_empty_elements = false;
    reader
}

/// `Reader::read_event`. Claimed: while tokens are pending, the result is
/// the next one and it is consumed; an error is `None`, and it stands for
/// the token of kind `Failed` that carries no bytes.
#[verifier::external_body]
pub(crate) fn xml_read<'a>(reader: &mut Reader<&'a [u8]>) -> (r: Option<Event<'a>>)
    ensures
        xml_pending(*old(reader)).len() > 0 ==> {
            &&& xml_pending(*final(reader)) == xml_pending(*old(reader)).drop_first()
            &&& match r {
                Some(e) => event_view(e) == xml_pending(*old(reader))[0],
                None => xml_pending(*old(reader))[0] == plain_token(XmlKind::Failed, Seq::empty()),
            }
        },
{
    reader.read_event().ok()
}

/// The bytes an event dereferences to (`<Event as Deref>::deref`).
/// Claimed: `event_content` of the event.
#[verifier::external_body]
pub(crate) fn event_bytes(e: &Event) -> (r: Vec<u8>)
    ensures
        r@ == event_content(*e),
{
    e.to_vec()
}

/// `BytesStart::name`. Claimed: `start_tag_name` of the tag.
#[verifier::external_body]
pub(crate) fn start_name(e: &BytesStart) -> (r: Vec<u8>)
    ensures
        r@ == start_tag_name(*e),
{
    e.name().as_ref().to_vec()
}

/// `BytesStart::attributes` with duplicate checks off, malformed entries
/// skipped. Claimed: `start_tag_attributes` of the tag.
#[verifier::external_body]
pub(crate) fn start_attributes(e: &BytesStart) -> (r: Vec<(Vec<u8>, Vec<u8>)>)
    ensures
        attrs_view(r@) == start_tag_attributes(*e),
{
    e.attributes().with_checks(false).flatten().map(|a| (a.key.as_ref().to_vec(), a.value.to_vec())).collect()
}

/// Attribute pairs by their bytes.
pub open spec fn attrs_view(a: Seq<(Vec<u8>, Vec<u8>)>) -> Seq<(Seq<u8>, Seq<u8>)> {
    a.map_values(|p: (Vec<u8>, Vec<u8>)| (p.0@, p.1@))
}

/// A token read into plain values.
pub struct XmlToken {
    pub kind: XmlKind,
    pub raw: Vec<u8>,
    pub name: Vec<u8>,
    pub attrs: Vec<(Vec<u8>, Vec<u8>)>,
}

impl View for XmlToken {
    type V = XmlTokenView;

    open spec fn view(&self) -> XmlTokenView {
        XmlTokenView {
            kind: self.kind,
            raw: self.raw@,
            name: self.name@,
            attrs: attrs_view(self.attrs@),
        }
    }
}

/// Read the next token of `reader` into plain values.
pub(crate) fn next_token(reader: &mut Reader<&[u8]>) -> (t: XmlToken)
    requires
        xml_pending(*old(reader)).len() > 0,
    ensures
        t@ == xml_pending(*old(reader))[0],
        xml_pending(*final(reader)) == xml_pending(*old(reader)).drop_first(),
{
    let ghost head = xml_pending(*reader)[0];
    let ev = match xml_read(reader) {
        Some(ev) => ev,
        None => {
            let t = XmlToken { kind: XmlKind::Failed, raw: Vec::new(), name: Vec::new(), attrs: Vec::new() };
            assert(t@ =~= plain_token(XmlKind::Failed, Seq::empty()));
            return t;
        },
    };
    let raw = event_bytes(&ev);
    let t = match &ev {
        Event::Start(s) => XmlToken { kind: XmlKind::Start, raw, name: start_name(s), attrs: start_attributes(s) },
        Event::Empty(s) => XmlToken { kind: XmlKind::Empty, raw, name: start_name(s), attrs: start_attributes(s) },
        Event::End(_) => XmlToken { kind: XmlKind::End, name: raw.clone(), raw, attrs: Vec::new() },
        Event::Text(_) => XmlToken { kind: XmlKind::Text, raw, name: Vec::new(), attrs: Vec::new() },
        Event::CData(_) => XmlToken { kind: XmlKind::CData, raw, name: Vec::new(), attrs: Vec::new() },
        Event::Comment(_) => XmlToken { kind: XmlKind::Comment, raw, name: Vec::new(), attrs: Vec::new() },
        Event::Decl(_) => XmlToken { kind: XmlKind::Decl, raw, name: Vec::new(), attrs: Vec::new() },
        Event::PI(_) => XmlToken { kind: XmlKind::Pi, raw, name: Vec::new(), attrs: Vec::new() },
        Event::DocType(_) => XmlToken { kind: XmlKind::DocType, raw, name: Vec::new(), attrs: Vec::new() },
        Event::Eof => XmlToken { kind: XmlKind::Eof, raw: Vec::new(), name: Vec::new(), attrs: Vec::new() },
    };
    assert(t@ =~= head);
    t
}

/// The bytes quick-xml's `Writer::write_event` emits for a token: the
/// token's bytes inside the delimiters of its kind.
pub open spec fn token_bytes(t: XmlTokenView) -> Seq<u8> {
    match t.kind {
        XmlKind::Start => seq![0x3cu8] + t.raw + seq![0x3eu8],
        XmlKind::Empty => seq![0x3cu8] + t.raw + seq![0x2fu8, 0x3eu8],
        XmlKind::End => seq![0x3cu8, 0x2fu8] + t.raw + seq![0x3eu8],
        XmlKind::Text => t.raw,
        XmlKind::CData => seq![0x3cu8, 0x21u8, 0x5bu8, 0x43u8, 0x44u8, 0x41u8, 0x54u8, 0x41u8, 0x5bu8] + t.raw + seq![
            0x5du8,
            0x5du8,
            0x3eu8,
        ],
        XmlKind::Comment => seq![0x3cu8, 0x21u8, 0x2du8, 0x2du8] + t.raw + seq![0x2du8, 0x2du8, 0x3eu8],
        XmlKind::Decl | XmlKind::Pi => seq![0x3cu8, 0x3fu8] + t.raw + seq![0x3fu8, 0x3eu8],
        XmlKind::DocType => seq![0x3cu8, 0x21u8, 0x44u8, 0x4fu8, 0x43u8, 0x54u8, 0x59u8, 0x50u8, 0x45u8, 0x20u8]
            + t.raw + seq![0x3eu8],
        XmlKind::Eof | XmlKind::Failed => Seq::empty(),
    }
}

/// Append the serialization of `t` to `out`.
pub fn write_token(out: &mut Vec<u8>, t: &XmlToken)
    ensures
        final(out)@ == old(out)@ + token_bytes(t@),
{
    let ghost start = out@;
    match t.kind {
        XmlKind::Start => {
            out.push(0x3cu8);
            append(out, t.raw.as_slice());
            out.push(0x3eu8);
        },
        XmlKind::Empty => {
            out.push(0x3cu8);
            append(out, t.raw.as_slice());
            out.push(0x2fu8);
            out.push(0x3eu8);
        },
        XmlKind::End => {
            out.push(0x3cu8);
            out.push(0x2fu8);
            append(out, t.raw.as_slice());
            out.push(0x3eu8);
        },
        XmlKind::Text => {
            append(out, t.raw.as_slice());
        },
        XmlKind::CData => {
            append(out, &[0x3cu8, 0x21u8, 0x5bu8, 0x43u8, 0x44u8, 0x41u8, 0x54u8, 0x41u8, 0x5bu8]);
            append(out, t.raw.as_slice());
            append(out, &[0x5du8, 0x5du8, 0x3eu8]);
        },
        XmlKind::Comment => {
            append(out, &[0x3cu8, 0x21u8, 0x2du8, 0x2du8]);
            append(out, t.raw.as_slice());
            append(out, &[0x2du8, 0x2du8, 0x3eu8]);
        },
        XmlKind::Decl | XmlKind::Pi => {
            out.push(0x3cu8);
            out.push(0x3fu8);
            append(out, t.raw.as_slice());
            out.push(0x3fu8);
            out.push(0x3eu8);
        },
        XmlKind::DocType => {
            append(out, &[0x3cu8, 0x21u8, 0x44u8, 0x4fu8, 0x43u8, 0x54u8, 0x59u8, 0x50u8, 0x45u8, 0x20u8]);
            append(out, t.raw.as_slice());
            out.push(0x3eu8);
        },
        XmlKind::Eof | XmlKind::Failed => {},
    }
    assert(out@ =~= start + token_bytes(t@));
}

/// What a pass over a token stream produces when it writes `pre` and
/// raises its flag by `flag`, then goes on to produce `rest`: a failure
/// anywhere is a failure of the whole.
pub open spec fn prefixed(pre: Seq<u8>, flag: bool, rest: Option<(Seq<u8>, bool)>) -> Option<
    (Seq<u8>, bool),
> {
    match rest {
        Some((out, expanded)) => Some((pre + out, flag || expanded)),
        None => None,
    }
}

pub proof fn lemma_prefixed_twice(a: Seq<u8>, f: bool, b: Seq<u8>, g: bool, rest: Option<(Seq<u8>, bool)>)
    ensures
        prefixed(a, f, prefixed(b, g, rest)) == prefixed(a + b, f || g, rest),
{
    if let Some((out, e)) = rest {
        assert(a + (b + out) =~= (a + b) + out);
    }
}

} // verus!
