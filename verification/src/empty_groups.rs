//! Removal of childless `<g>` elements from SVG documents.
//!
//! The SVG renderer mis-computes the bounds of an isolated layer when a
//! nested `<svg>` inside a group with `opacity < 1` holds a childless,
//! transformed `<g>`: most of the content is then clipped away. GTK's
//! symbolic icons under a theme whose foreground colour has alpha have
//! exactly that shape (the recolour wrapper adds `<g opacity="...">`, and
//! Inkscape-authored icons carry one empty `<g>` per unused layer).
//!
//! An empty group paints nothing, so dropping it changes nothing, with two
//! exceptions kept here: a group with a `filter` may still paint, and a
//! group whose `id` is referenced (`#id` anywhere in the document) must
//! stay reachable.
//!
//! Documents without the triggering shape, or with nothing to remove, come
//! back as `None`, so the caller keeps its input as it is.

use vstd::prelude::*;
use vstd::slice::slice_subrange;

use crate::bytes::{
    append, find, memchr_subseq, occurs_at, occurs_in, opt_bytes, strip_prefix,
};
use crate::xml::{
    attrs_view, is_final, lemma_prefixed_twice, next_token, prefixed, token_bytes,
    well_terminated, write_token, xml_pending, xml_reader, xml_tokens, XmlKind,
    XmlTokenView,
};

verus! {

/// `<svg`
pub const SVG_OPEN: [u8; 4] = [0x3c, 0x73, 0x76, 0x67];

/// `opacity`
pub const OPACITY: [u8; 7] = [0x6f, 0x70, 0x61, 0x63, 0x69, 0x74, 0x79];

/// `filter`
pub const FILTER: [u8; 6] = [0x66, 0x69, 0x6c, 0x74, 0x65, 0x72];

/// `id`
pub const ID: [u8; 2] = [0x69, 0x64];

/// `g`
pub const GROUP: u8 = 0x67;

/// `:`
pub const COLON: u8 = 0x3a;

/// `#`
pub const HASH: u8 = 0x23;

/// A group element's name: `g`, or `g` under any namespace prefix.
pub open spec fn is_group_name(name: Seq<u8>) -> bool {
    ||| name == seq![GROUP]
    ||| (name.len() >= 2 && name[name.len() - 2] == COLON && name[name.len() - 1] == GROUP)
}

/// Whether `name` names a group element.
pub fn is_group(name: &[u8]) -> (r: bool)
    ensures
        r == is_group_name(name@),
{
    let n = name.len();
    if n == 1 && name[0] == GROUP {
        assert(name@ =~= seq![GROUP]);
        return true;
    }
    n >= 2 && name[n - 2] == COLON && name[n - 1] == GROUP
}

/// `#id` occurs in the document: something may point at the element.
pub open spec fn referenced(id: Seq<u8>, document: Seq<u8>) -> bool {
    id.len() > 0 && occurs_in(document, seq![HASH] + id)
}

/// Whether `#id` appears anywhere in `document`; an empty id never does.
pub fn is_referenced(id: &[u8], document: &[u8]) -> (r: bool)
    ensures
        r == referenced(id@, document@),
{
    if id.len() == 0 {
        return false;
    }
    let mut needle: Vec<u8> = Vec::new();
    needle.push(HASH);
    append(&mut needle, id);
    assert(needle@ =~= seq![HASH] + id@);
    memchr_subseq(document, needle.as_slice())
}

/// A group nothing can paint through and nothing can reference: none of
/// its attributes is a `filter`, nor an `id` that is referenced.
pub open spec fn removable_attrs(attrs: Seq<(Seq<u8>, Seq<u8>)>, document: Seq<u8>) -> bool {
    forall|j: int|
        0 <= j < attrs.len() ==> #[trigger] attrs[j].0 != FILTER@ && !(attrs[j].0 == ID@
            && referenced(attrs[j].1, document))
}

/// Whether `a` is the byte string `b`.
fn same_bytes(a: &[u8], b: &[u8]) -> (r: bool)
    ensures
        r == (a@ == b@),
{
    let r = a.len() == b.len() && strip_prefix(a, b).is_some();
    proof {
        if a@.len() == b@.len() && occurs_at(a@, b@, 0) {
            assert(a@ =~= a@.subrange(0, b@.len() as int));
        }
        if a@ == b@ {
            assert(a@.subrange(0, b@.len() as int) =~= a@);
        }
    }
    r
}

/// Whether a group with these attributes may be dropped when empty.
pub fn removable(attrs: &Vec<(Vec<u8>, Vec<u8>)>, document: &[u8]) -> (r: bool)
    ensures
        r == removable_attrs(attrs_view(attrs@), document@),
{
    let ghost all = attrs_view(attrs@);
    let mut j: usize = 0;
    while j < attrs.len()
        invariant
            j <= attrs@.len(),
            all == attrs_view(attrs@),
            forall|k: int|
                0 <= k < j ==> #[trigger] all[k].0 != FILTER@ && !(all[k].0 == ID@ && referenced(
                    all[k].1,
                    document@,
                )),
        decreases attrs@.len() - j,
    {
        assert(all[j as int] == (attrs@[j as int].0@, attrs@[j as int].1@));
        let key = attrs[j].0.as_slice();
        if same_bytes(key, &FILTER) {
            assert(all[j as int].0 == FILTER@);
            return false;
        }
        if same_bytes(key, &ID) && is_referenced(attrs[j].1.as_slice(), document) {
            assert(all[j as int].0 == ID@ && referenced(all[j as int].1, document@));
            return false;
        }
        j = j + 1;
    }
    true
}

/// The document has more than one `<svg` and mentions `opacity`: the only
/// shape that can hit the renderer's bug.
pub open spec fn worth_scanning_spec(input: Seq<u8>) -> bool {
    &&& exists|p: int, q: int|
        p < q && #[trigger] occurs_at(input, SVG_OPEN@, p) && #[trigger] occurs_at(
            input,
            SVG_OPEN@,
            q,
        )
    &&& occurs_in(input, OPACITY@)
}

proof fn lemma_occurs_in_tail(hay: Seq<u8>, needle: Seq<u8>, start: int, k: int)
    requires
        0 <= start <= hay.len(),
    ensures
        occurs_at(hay.skip(start), needle, k) <==> (k >= 0 && occurs_at(hay, needle, start + k)),
{
    if k >= 0 && start + k + needle.len() <= hay.len() {
        assert(hay.skip(start).subrange(k, k + needle.len()) =~= hay.subrange(
            start + k,
            start + k + needle.len(),
        ));
    }
}

/// Cheap probe for the shape [`strip`] is for; see [`worth_scanning_spec`].
pub fn worth_scanning(input: &[u8]) -> (r: bool)
    ensures
        r == worth_scanning_spec(input@),
{
    let first = match find(input, &SVG_OPEN) {
        Some(p) => p,
        None => {
            return false;
        },
    };
    let n = input.len();
    let tail = slice_subrange(input, first + 4, n);
    let second = find(tail, &SVG_OPEN);
    proof {
        let h = input@;
        let s = SVG_OPEN@;
        match second {
            Some(k) => {
                lemma_occurs_in_tail(h, s, first + 4, k as int);
                assert(occurs_at(h, s, first as int) && occurs_at(h, s, first + 4 + k));
            },
            None => {
                assert forall|p: int, q: int|
                    p < q && #[trigger] occurs_at(h, s, p) implies !#[trigger] occurs_at(
                    h,
                    s,
                    q,
                ) by {
                    if occurs_at(h, s, q) {
                        assert(p >= first);
                        if q < first + 4 {
                            assert(h[q] == h.subrange(q, q + 4)[0]);
                            assert(h[q] == h.subrange(first as int, first + 4)[q - first]);
                        } else {
                            lemma_occurs_in_tail(h, s, first + 4, q - first - 4);
                        }
                    }
                };
            },
        }
    }
    if second.is_none() {
        return false;
    }
    find(input, &OPACITY).is_some()
}

/// The bytes of a start tag with content `raw`.
pub open spec fn start_tag_bytes(raw: Seq<u8>) -> Seq<u8> {
    seq![0x3cu8] + raw + seq![0x3eu8]
}

/// The held-back start tags, written out in order.
pub open spec fn open_tags(pending: Seq<Seq<u8>>) -> Seq<u8>
    decreases pending.len(),
{
    if pending.len() == 0 {
        Seq::empty()
    } else {
        open_tags(pending.drop_last()) + start_tag_bytes(pending.last())
    }
}

/// Only ASCII whitespace (space, tab, line feed, form feed, carriage
/// return).
pub open spec fn all_ascii_space(s: Seq<u8>) -> bool {
    forall|j: int|
        0 <= j < s.len() ==> {
            let b = #[trigger] s[j];
            b == 0x20 || b == 0x09 || b == 0x0a || b == 0x0c || b == 0x0d
        }
}

/// The pass from token `i` on, with the start tags of possibly-empty
/// groups held back in `pending`: the bytes written and whether anything
/// was removed, `None` when the document does not read to its end.
pub open spec fn strip_run(
    toks: Seq<XmlTokenView>,
    i: int,
    pending: Seq<Seq<u8>>,
    document: Seq<u8>,
) -> Option<(Seq<u8>, bool)>
    decreases toks.len() - i,
{
    if i < 0 || i >= toks.len() {
        None
    } else {
        let t = toks[i];
        let group = is_group_name(t.name);
        if t.kind == XmlKind::Failed {
            None
        } else if t.kind == XmlKind::Eof {
            Some((Seq::empty(), false))
        } else if t.kind == XmlKind::Empty && group {
            if removable_attrs(t.attrs, document) {
                prefixed(Seq::empty(), true, strip_run(toks, i + 1, pending, document))
            } else {
                prefixed(
                    open_tags(pending) + token_bytes(t),
                    false,
                    strip_run(toks, i + 1, Seq::empty(), document),
                )
            }
        } else if t.kind == XmlKind::Start && group {
            if removable_attrs(t.attrs, document) {
                strip_run(toks, i + 1, pending.push(t.raw), document)
            } else {
                prefixed(
                    open_tags(pending) + token_bytes(t),
                    false,
                    strip_run(toks, i + 1, Seq::empty(), document),
                )
            }
        } else if t.kind == XmlKind::End && group {
            if pending.len() > 0 {
                prefixed(Seq::empty(), true, strip_run(toks, i + 1, pending.drop_last(), document))
            } else {
                prefixed(token_bytes(t), false, strip_run(toks, i + 1, pending, document))
            }
        } else if t.kind == XmlKind::Text && all_ascii_space(t.raw) {
            if pending.len() == 0 {
                prefixed(token_bytes(t), false, strip_run(toks, i + 1, pending, document))
            } else {
                strip_run(toks, i + 1, pending, document)
            }
        } else {
            prefixed(
                open_tags(pending) + token_bytes(t),
                false,
                strip_run(toks, i + 1, Seq::empty(), document),
            )
        }
    }
}

/// The empty-group pass over a document: `None` unless the document has
/// the triggering shape, reads without error to its end and something was
/// removed; then the rewritten document.
pub open spec fn stripped(input: Seq<u8>) -> Option<Seq<u8>> {
    if !worth_scanning_spec(input) {
        None
    } else {
        match strip_run(xml_tokens(input), 0, Seq::empty(), input) {
            Some((out, true)) => Some(out),
            _ => None,
        }
    }
}

/// The held-back start tags by their bytes.
pub open spec fn pending_view(p: Seq<Vec<u8>>) -> Seq<Seq<u8>> {
    p.map_values(|v: Vec<u8>| v@)
}

/// Write out the held-back start tags: their groups have content.
fn flush(out: &mut Vec<u8>, pending: &mut Vec<Vec<u8>>)
    ensures
        final(out)@ == old(out)@ + open_tags(pending_view(old(pending)@)),
        final(pending)@.len() == 0,
{
    let ghost start = out@;
    let ghost all = pending_view(pending@);
    let mut j: usize = 0;
    assert(all.take(0) =~= Seq::<Seq<u8>>::empty());
    while j < pending.len()
        invariant
            j <= pending@.len(),
            all == pending_view(pending@),
            out@ == start + open_tags(all.take(j as int)),
        decreases pending@.len() - j,
    {
        let ghost before = out@;
        out.push(0x3c);
        append(out, pending[j].as_slice());
        out.push(0x3e);
        assert(all.take(j + 1).drop_last() =~= all.take(j as int));
        assert(out@ =~= before + start_tag_bytes(all[j as int]));
        j = j + 1;
    }
    assert(all.take(j as int) =~= all);
    pending.clear();
}

/// Whether the bytes are all ASCII whitespace.
fn is_all_ascii_space(s: &[u8]) -> (r: bool)
    ensures
        r == all_ascii_space(s@),
{
    let mut j: usize = 0;
    while j < s.len()
        invariant
            j <= s@.len(),
            forall|k: int|
                0 <= k < j ==> {
                    let b = #[trigger] s@[k];
                    b == 0x20 || b == 0x09 || b == 0x0a || b == 0x0c || b == 0x0d
                },
        decreases s@.len() - j,
    {
        let b = s[j];
        if !(b == 0x20 || b == 0x09 || b == 0x0a || b == 0x0c || b == 0x0d) {
            assert(s@[j as int] == b);
            return false;
        }
        j = j + 1;
    }
    true
}

/// Remove childless groups from a document; see [`stripped`].
pub fn strip(input: &[u8]) -> (r: Option<Vec<u8>>)
    ensures
        opt_bytes(r) == stripped(input@),
{
    if !worth_scanning(input) {
        return None;
    }
    let mut reader = xml_reader(input);
    let ghost toks = xml_tokens(input@);
    let ghost mut i: int = 0;
    let mut out: Vec<u8> = Vec::new();
    let mut removed_any = false;
    let mut pending: Vec<Vec<u8>> = Vec::new();
    assert(toks.skip(0) =~= toks);
    assert(pending_view(pending@) =~= Seq::<Seq<u8>>::empty());
    loop
        invariant
            toks == xml_tokens(input@),
            well_terminated(toks),
            worth_scanning_spec(input@),
            0 <= i < toks.len(),
            xml_pending(reader) == toks.skip(i),
            strip_run(toks, 0, Seq::empty(), input@) == prefixed(
                out@,
                removed_any,
                strip_run(toks, i, pending_view(pending@), input@),
            ),
        decreases toks.len() - i,
    {
        assert(toks.skip(i)[0] == toks[i]);
        let t = next_token(&mut reader);
        let ghost here = i;
        let ghost tv = t@;
        let ghost pv = pending_view(pending@);
        let ghost out0 = out@;
        proof {
            assert(toks.skip(i).drop_first() =~= toks.skip(i + 1));
            i = i + 1;
            if !is_final(tv.kind) {
                assert(here < toks.len() - 1);
            }
        }
        match t.kind {
            XmlKind::Failed => {
                return None;
            },
            XmlKind::Eof => {
                proof {
                    assert(out@ + Seq::<u8>::empty() =~= out@);
                }
                return if removed_any {
                    Some(out)
                } else {
                    None
                };
            },
            _ => {},
        }
        let group = match t.kind {
            XmlKind::Empty | XmlKind::Start | XmlKind::End => is_group(t.name.as_slice()),
            _ => false,
        };
        let blank = t.kind == XmlKind::Text && is_all_ascii_space(t.raw.as_slice());
        if group && (t.kind == XmlKind::Empty || t.kind == XmlKind::Start) && removable(
            &t.attrs,
            input,
        ) {
            if t.kind == XmlKind::Empty {
                proof {
                    lemma_prefixed_twice(
                        out0,
                        removed_any,
                        Seq::empty(),
                        true,
                        strip_run(toks, i, pv, input@),
                    );
                    assert(out0 + Seq::<u8>::empty() =~= out0);
                }
                removed_any = true;
            } else {
                pending.push(t.raw);
                assert(pending_view(pending@) =~= pv.push(tv.raw));
            }
        } else if group && t.kind == XmlKind::End {
            if pending.len() > 0 {
                pending.pop();
                proof {
                    assert(pending_view(pending@) =~= pv.drop_last());
                    lemma_prefixed_twice(
                        out0,
                        removed_any,
                        Seq::empty(),
                        true,
                        strip_run(toks, i, pv.drop_last(), input@),
                    );
                    assert(out0 + Seq::<u8>::empty() =~= out0);
                }
                removed_any = true;
            } else {
                proof {
                    lemma_prefixed_twice(
                        out0,
                        removed_any,
                        token_bytes(tv),
                        false,
                        strip_run(toks, i, pv, input@),
                    );
                }
                write_token(&mut out, &t);
            }
        } else if blank {
            if pending.len() == 0 {
                proof {
                    lemma_prefixed_twice(
                        out0,
                        removed_any,
                        token_bytes(tv),
                        false,
                        strip_run(toks, i, pv, input@),
                    );
                }
                write_token(&mut out, &t);
            }
        } else {
            proof {
                lemma_prefixed_twice(
                    out0,
                    removed_any,
                    open_tags(pv) + token_bytes(tv),
                    false,
                    strip_run(toks, i, Seq::empty(), input@),
                );
            }
            flush(&mut out, &mut pending);
            write_token(&mut out, &t);
            proof {
                assert(out@ =~= out0 + (open_tags(pv) + token_bytes(tv)));
                assert(pending_view(pending@) =~= Seq::<Seq<u8>>::empty());
            }
        }
    }
}

/// A group element the pass may drop when it turns out to be empty: no
/// `filter`, no referenced `id`.
pub open spec fn removable_group(t: XmlTokenView, document: Seq<u8>) -> bool {
    &&& (t.kind == XmlKind::Empty || t.kind == XmlKind::Start)
    &&& is_group_name(t.name)
    &&& removable_attrs(t.attrs, document)
}

proof fn lemma_removal_needs_a_removable_group(
    toks: Seq<XmlTokenView>,
    i: int,
    pending: Seq<Seq<u8>>,
    document: Seq<u8>,
)
    ensures
        strip_run(toks, i, pending, document) matches Some((_, true)) ==> pending.len() > 0
            || exists|j: int| i <= j < toks.len() && #[trigger] removable_group(toks[j], document),
    decreases toks.len() - i,
{
    if 0 <= i < toks.len() {
        let t = toks[i];
        lemma_removal_needs_a_removable_group(toks, i + 1, pending, document);
        lemma_removal_needs_a_removable_group(toks, i + 1, Seq::empty(), document);
        lemma_removal_needs_a_removable_group(toks, i + 1, pending.push(t.raw), document);
        if pending.len() > 0 {
            lemma_removal_needs_a_removable_group(toks, i + 1, pending.drop_last(), document);
        }
        if (t.kind == XmlKind::Empty || t.kind == XmlKind::Start) && is_group_name(t.name)
            && removable_attrs(t.attrs, document) {
            assert(removable_group(toks[i], document));
        }
    }
}

/// The pass answers `None`, leaving the caller with its input,
/// for a document without the shape that triggers the renderer's bug, and
/// for one without a group it may drop.
pub proof fn law_only_documents_with_droppable_groups_are_rewritten(input: Seq<u8>)
    ensures
        !worth_scanning_spec(input) ==> stripped(input) is None,
        stripped(input) is Some ==> exists|j: int|
            0 <= j < xml_tokens(input).len() && #[trigger] removable_group(
                xml_tokens(input)[j],
                input,
            ),
{
    lemma_removal_needs_a_removable_group(xml_tokens(input), 0, Seq::empty(), input);
}

/// A group element the pass must keep: one with a `filter`, or with an
/// `id` the document references.
pub open spec fn kept_group(t: XmlTokenView, document: Seq<u8>) -> bool {
    &&& (t.kind == XmlKind::Empty || t.kind == XmlKind::Start)
    &&& is_group_name(t.name)
    &&& !removable_attrs(t.attrs, document)
}

proof fn lemma_occurs_after_prefix(pre: Seq<u8>, out: Seq<u8>, needle: Seq<u8>)
    requires
        occurs_in(out, needle),
    ensures
        occurs_in(pre + out, needle),
{
    let k = choose|k: int| occurs_at(out, needle, k);
    assert((pre + out).subrange(pre.len() + k, pre.len() + k + needle.len()) =~= out.subrange(
        k,
        k + needle.len(),
    ));
    assert(occurs_at(pre + out, needle, pre.len() + k));
}

proof fn lemma_occurs_in_middle(a: Seq<u8>, needle: Seq<u8>, rest: Seq<u8>)
    ensures
        occurs_in((a + needle) + rest, needle),
{
    assert(((a + needle) + rest).subrange(a.len() as int, (a.len() + needle.len()) as int) =~= needle);
    assert(occurs_at((a + needle) + rest, needle, a.len() as int));
}

proof fn lemma_kept_groups_are_written(
    toks: Seq<XmlTokenView>,
    i: int,
    pending: Seq<Seq<u8>>,
    document: Seq<u8>,
    j: int,
)
    requires
        0 <= i <= j < toks.len(),
        kept_group(toks[j], document),
        well_terminated(toks),
    ensures
        strip_run(toks, i, pending, document) matches Some((out, _)) ==> occurs_in(
            out,
            token_bytes(toks[j]),
        ),
    decreases toks.len() - i,
{
    let t = toks[i];
    if i == j {
        if let Some((out, f)) = strip_run(toks, i + 1, Seq::empty(), document) {
            lemma_occurs_in_middle(open_tags(pending), token_bytes(t), out);
        }
    } else {
        let tb = token_bytes(toks[j]);
        let group = is_group_name(t.name);
        if is_final(t.kind) {
            assert(i < toks.len() - 1);
        } else if t.kind == XmlKind::Empty && group && removable_attrs(t.attrs, document) {
            lemma_kept_groups_are_written(toks, i + 1, pending, document, j);
            if let Some((out, f)) = strip_run(toks, i + 1, pending, document) {
                lemma_occurs_after_prefix(Seq::empty(), out, tb);
            }
        } else if t.kind == XmlKind::Start && group && removable_attrs(t.attrs, document) {
            lemma_kept_groups_are_written(toks, i + 1, pending.push(t.raw), document, j);
        } else if (t.kind == XmlKind::Empty || t.kind == XmlKind::Start) && group {
            lemma_kept_groups_are_written(toks, i + 1, Seq::empty(), document, j);
            if let Some((out, f)) = strip_run(toks, i + 1, Seq::empty(), document) {
                lemma_occurs_after_prefix(open_tags(pending) + token_bytes(t), out, tb);
            }
        } else if t.kind == XmlKind::End && group {
            if pending.len() > 0 {
                lemma_kept_groups_are_written(toks, i + 1, pending.drop_last(), document, j);
                if let Some((out, f)) = strip_run(toks, i + 1, pending.drop_last(), document) {
                    lemma_occurs_after_prefix(Seq::empty(), out, tb);
                }
            } else {
                lemma_kept_groups_are_written(toks, i + 1, pending, document, j);
                if let Some((out, f)) = strip_run(toks, i + 1, pending, document) {
                    lemma_occurs_after_prefix(token_bytes(t), out, tb);
                }
            }
        } else if t.kind == XmlKind::Text && all_ascii_space(t.raw) {
            lemma_kept_groups_are_written(toks, i + 1, pending, document, j);
            if let Some((out, f)) = strip_run(toks, i + 1, pending, document) {
                lemma_occurs_after_prefix(token_bytes(t), out, tb);
            }
        } else {
            lemma_kept_groups_are_written(toks, i + 1, Seq::empty(), document, j);
            if let Some((out, f)) = strip_run(toks, i + 1, Seq::empty(), document) {
                lemma_occurs_after_prefix(open_tags(pending) + token_bytes(t), out, tb);
            }
        }
    }
}

/// A group with a `filter` or with a referenced `id` is never dropped:
/// whenever the pass rewrites a document, the tag of every such group is
/// in the output as it was read. (The token stream is one as the reader
/// yields it: it ends at its first end of input or error.)
pub proof fn law_kept_groups_survive(input: Seq<u8>, j: int)
    requires
        well_terminated(xml_tokens(input)),
        0 <= j < xml_tokens(input).len(),
        kept_group(xml_tokens(input)[j], input),
    ensures
        stripped(input) matches Some(out) ==> occurs_in(out, token_bytes(xml_tokens(input)[j])),
{
    lemma_kept_groups_are_written(xml_tokens(input), 0, Seq::empty(), input, j);
}

} // verus!
