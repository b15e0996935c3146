//! Byte-string searching used by the SVG preprocessing passes.

use vstd::prelude::*;
use vstd::slice::slice_subrange;
use vstd::utf8::valid_utf8;

verus! {

/// `needle` occurs in `hay` starting at byte `i`.
pub open spec fn occurs_at(hay: Seq<u8>, needle: Seq<u8>, i: int) -> bool {
    &&& 0 <= i
    &&& i + needle.len() <= hay.len()
    &&& hay.subrange(i, i + needle.len()) == needle
}

/// `needle` occurs somewhere in `hay`.
pub open spec fn occurs_in(hay: Seq<u8>, needle: Seq<u8>) -> bool {
    exists|i: int| occurs_at(hay, needle, i)
}

/// Whether `hay[start..start + needle.len()]` equals `needle`.
fn matches_at(hay: &[u8], needle: &[u8], start: usize) -> (r: bool)
    requires
        start + needle@.len() <= hay@.len(),
    ensures
        r == occurs_at(hay@, needle@, start as int),
{
    let hay_len = hay.len();
    let mut k: usize = 0;
    while k < needle.len()
        invariant
            start + needle@.len() <= hay@.len(),
            hay_len == hay@.len(),
            k <= needle@.len(),
            forall|m: int| 0 <= m < k ==> hay@[start + m] == needle@[m],
        decreases needle@.len() - k,
    {
        if hay[start + k] != needle[k] {
            proof {
                assert(hay@.subrange(start as int, start + needle@.len())[k as int] != needle@[k as int]);
            }
            return false;
        }
        k = k + 1;
    }
    assert(hay@.subrange(start as int, start + needle@.len()) =~= needle@);
    true
}

/// Position of the first occurrence of the non-empty `needle` in `hay`.
pub fn find(hay: &[u8], needle: &[u8]) -> (r: Option<usize>)
    requires
        needle@.len() > 0,
    ensures
        match r {
            Some(p) => occurs_at(hay@, needle@, p as int) && forall|j: int|
                0 <= j < p ==> !occurs_at(hay@, needle@, j),
            None => !occurs_in(hay@, needle@),
        },
{
    if needle.len() > hay.len() {
        return None;
    }
    let last = hay.len() - needle.len();
    assert(last < usize::MAX);
    let mut i: usize = 0;
    while i <= last
        invariant
            last == hay@.len() - needle@.len(),
            needle@.len() > 0,
            last < usize::MAX,
            i <= last + 1,
            forall|j: int| 0 <= j < i ==> !occurs_at(hay@, needle@, j),
        decreases last + 1 - i,
    {
        if matches_at(hay, needle, i) {
            return Some(i);
        }
        i = i + 1;
    }
    None
}

/// Whether `needle` occurs in `hay`; an empty needle always does.
pub fn memchr_subseq(hay: &[u8], needle: &[u8]) -> (r: bool)
    ensures
        r == (needle@.len() == 0 || occurs_in(hay@, needle@)),
{
    if needle.len() == 0 || needle.len() > hay.len() {
        return needle.len() == 0;
    }
    find(hay, needle).is_some()
}

/// The rest of `input` after `prefix`, when `input` starts with it.
pub fn strip_prefix<'a>(input: &'a [u8], prefix: &[u8]) -> (r: Option<&'a [u8]>)
    ensures
        match r {
            Some(rest) => occurs_at(input@, prefix@, 0) && rest@ == input@.skip(prefix@.len() as int),
            None => !occurs_at(input@, prefix@, 0),
        },
{
    if prefix.len() <= input.len() && matches_at(input, prefix, 0) {
        Some(slice_subrange(input, prefix.len(), input.len()))
    } else {
        None
    }
}

/// The XML whitespace bytes: space, tab, carriage return, line feed.
pub open spec fn is_xml_space(b: u8) -> bool {
    b == 0x20 || b == 0x09 || b == 0x0d || b == 0x0a
}

/// Number of leading XML whitespace bytes of `b`.
pub open spec fn leading_space_len(b: Seq<u8>) -> int
    decreases b.len(),
{
    if b.len() > 0 && is_xml_space(b[0]) {
        1 + leading_space_len(b.drop_first())
    } else {
        0
    }
}

proof fn lemma_leading_space_len(b: Seq<u8>, i: int)
    requires
        0 <= i <= b.len(),
        forall|j: int| 0 <= j < i ==> is_xml_space(b[j]),
        i == b.len() || !is_xml_space(b[i]),
    ensures
        leading_space_len(b) == i,
    decreases i,
{
    if i > 0 {
        lemma_leading_space_len(b.drop_first(), i - 1);
    }
}

/// `b` without its leading XML whitespace.
pub fn trim_leading_whitespace(b: &[u8]) -> (r: &[u8])
    ensures
        r@ == b@.skip(leading_space_len(b@)),
{
    let mut i: usize = 0;
    while i < b.len() && (b[i] == 0x20 || b[i] == 0x09 || b[i] == 0x0d || b[i] == 0x0a)
        invariant
            i <= b@.len(),
            forall|j: int| 0 <= j < i ==> is_xml_space(b@[j]),
        decreases b@.len() - i,
    {
        i = i + 1;
    }
    proof {
        lemma_leading_space_len(b@, i as int);
    }
    slice_subrange(b, i, b.len())
}

/// Append `bytes` to `out`.
pub fn append(out: &mut Vec<u8>, bytes: &[u8])
    ensures
        final(out)@ == old(out)@ + bytes@,
{
    let ghost start = out@;
    let mut i: usize = 0;
    while i < bytes.len()
        invariant
            i <= bytes@.len(),
            out@ == start + bytes@.take(i as int),
        decreases bytes@.len() - i,
    {
        out.push(bytes[i]);
        i = i + 1;
        assert(out@ =~= start + bytes@.take(i as int));
    }
    assert(bytes@.take(i as int) =~= bytes@);
}

} // verus!

verus! {

/// `std::str::from_utf8`. Claimed, as its documentation says: it succeeds
/// exactly on well-formed UTF-8.
#[verifier::external_body]
pub(crate) fn is_utf8(b: &[u8]) -> (r: bool)
    ensures
        r == valid_utf8(b@),
{
    std::str::from_utf8(b).is_ok()
}

/// An optional byte vector by its bytes.
pub open spec fn opt_bytes(o: Option<Vec<u8>>) -> Option<Seq<u8>> {
    match o {
        Some(v) => Some(v@),
        None => None,
    }
}

/// `k` is the first position of `x` in `s`.
pub open spec fn first_at(s: Seq<u8>, x: u8, k: int) -> bool {
    &&& 0 <= k < s.len()
    &&& s[k] == x
    &&& forall|j: int| 0 <= j < k ==> s[j] != x
}

/// Position of the first `x` in `s`.
pub fn position_of(s: &[u8], x: u8) -> (r: Option<usize>)
    ensures
        match r {
            Some(k) => first_at(s@, x, k as int),
            None => forall|j: int| 0 <= j < s@.len() ==> s@[j] != x,
        },
{
    let mut k: usize = 0;
    while k < s.len()
        invariant
            k <= s@.len(),
            forall|j: int| 0 <= j < k ==> s@[j] != x,
        decreases s@.len() - k,
    {
        if s[k] == x {
            return Some(k);
        }
        k = k + 1;
    }
    None
}

} // verus!
