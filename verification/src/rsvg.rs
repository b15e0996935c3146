//! The decisions behind the librsvg-compatible handle: its loading
//! lifecycle, the resource directory derived from a base URI, and public
//! element ids.
//!
//! The handle's C entry points perform the calls into the SVG engine and
//! GLib; what they decide between those calls stands here.

use vstd::prelude::*;
use vstd::slice::slice_subrange;
use vstd::utf8::valid_utf8;

use crate::bytes::{append, is_utf8, occurs_at, opt_bytes, strip_prefix};

verus! {

/// Where a handle is in librsvg's documented loading lifecycle, `D` being
/// the engine's document handle.
pub enum LoadState<D> {
    /// Constructed, no data fed yet.
    Start,
    /// Accumulating bytes from `rsvg_handle_write`.
    Loading(Vec<u8>),
    /// Fully loaded.
    Loaded(D),
    /// A load was attempted and failed.
    Failed,
}

/// What `rsvg_handle_close` does after looking at the lifecycle.
pub enum CloseStep {
    /// Parse the bytes fed so far.
    Parse(Vec<u8>),
    /// The document is loaded already; closing is a no-op that succeeds.
    AlreadyLoaded,
    /// No data was fed; closing fails.
    NoData,
    /// An earlier load failed; closing fails.
    InError,
}

/// The bytes a handle has buffered: none yet at `Start`, what was fed
/// while `Loading`, and `None` once a load finished or failed.
pub open spec fn buffered<D>(s: LoadState<D>) -> Option<Seq<u8>> {
    match s {
        LoadState::Start => Some(Seq::empty()),
        LoadState::Loading(b) => Some(b@),
        _ => None,
    }
}

/// `after` and `accepted` are what writing `bytes` to a handle in state
/// `before` gives: while bytes can still be fed they are appended,
/// otherwise the write is refused and nothing changes.
pub open spec fn wrote<D>(before: LoadState<D>, bytes: Seq<u8>, after: LoadState<D>, accepted: bool) -> bool {
    match buffered(before) {
        Some(b) => accepted && after is Loading && buffered(after) == Some(b + bytes),
        None => !accepted && after == before,
    }
}

/// `step` and `after` are what closing a handle in state `before` gives.
pub open spec fn closed<D>(before: LoadState<D>, step: CloseStep, after: LoadState<D>) -> bool {
    match before {
        LoadState::Loading(b) => (step matches CloseStep::Parse(v) && v@ == b@) && after is Start,
        LoadState::Loaded(d) => step is AlreadyLoaded && after == LoadState::<D>::Loaded(d),
        LoadState::Start => step is NoData && after is Start,
        LoadState::Failed => step is InError && after is Failed,
    }
}

/// `after` and `replaced` are what recording the load outcome `doc` in a
/// handle in state `before` gives.
pub open spec fn finished<D>(before: LoadState<D>, doc: Option<D>, after: LoadState<D>, replaced: Option<D>) -> bool {
    match doc {
        None => after is Failed && replaced is None,
        Some(d) => after == LoadState::<D>::Loaded(d) && match before {
            LoadState::Loaded(o) => replaced == Some(o),
            _ => replaced is None,
        },
    }
}

/// Why `rsvg_handle_close` fails.
#[derive(Clone, Copy, Debug, PartialEq, Eq, Structural)]
pub enum CloseError {
    /// The engine refused the bytes; its last error says why.
    Engine,
    /// No data was fed to the handle.
    NoData,
    /// An earlier load failed.
    InError,
}

impl CloseError {
    /// Text of the `GError` set for the failure, `None` where the engine's
    /// own message is used.
    pub fn message(self) -> (r: Option<&'static str>)
        ensures
            match self {
                CloseError::Engine => r is None,
                CloseError::NoData => r == Some("no data has been fed to the handle"),
                CloseError::InError => r == Some("handle is in an error state"),
            },
    {
        match self {
            CloseError::Engine => None,
            CloseError::NoData => Some("no data has been fed to the handle"),
            CloseError::InError => Some("handle is in an error state"),
        }
    }
}

/// What `rsvg_handle_close` answers after the step `step`, where `loaded`
/// says whether the load of handed-over bytes succeeded.
pub open spec fn close_answer(step: CloseStep, loaded: bool) -> Result<(), CloseError> {
    match step {
        CloseStep::Parse(_) => if loaded {
            Ok(())
        } else {
            Err(CloseError::Engine)
        },
        CloseStep::AlreadyLoaded => Ok(()),
        CloseStep::NoData => Err(CloseError::NoData),
        CloseStep::InError => Err(CloseError::InError),
    }
}

/// The answer of `rsvg_handle_close`; see [`close_answer`].
pub fn close_reply(step: &CloseStep, loaded: bool) -> (r: Result<(), CloseError>)
    ensures
        r == close_answer(*step, loaded),
{
    match step {
        CloseStep::Parse(_) => if loaded {
            Ok(())
        } else {
            Err(CloseError::Engine)
        },
        CloseStep::AlreadyLoaded => Ok(()),
        CloseStep::NoData => Err(CloseError::NoData),
        CloseStep::InError => Err(CloseError::InError),
    }
}

impl<D> LoadState<D> {
    /// The loaded document, if any.
    pub fn document(&self) -> (r: Option<&D>)
        ensures
            match *self {
                LoadState::Loaded(d) => r == Some(&d),
                _ => r is None,
            },
    {
        match self {
            LoadState::Loaded(d) => Some(d),
            _ => None,
        }
    }

    /// `rsvg_handle_write`: buffer `bytes` unless a load already finished
    /// or failed, in which case nothing changes and the write is refused.
    pub fn write(&mut self, bytes: &[u8]) -> (accepted: bool)
        ensures
            wrote(*old(self), bytes@, *final(self), accepted),
    {
        let mut previous = LoadState::Failed;
        std::mem::swap(&mut previous, self);
        match previous {
            LoadState::Start => {
                let mut buffer: Vec<u8> = Vec::new();
                append(&mut buffer, bytes);
                assert(buffer@ =~= Seq::<u8>::empty() + bytes@);
                *self = LoadState::Loading(buffer);
                true
            },
            LoadState::Loading(mut buffer) => {
                append(&mut buffer, bytes);
                *self = LoadState::Loading(buffer);
                true
            },
            other => {
                *self = other;
                false
            },
        }
    }

    /// `rsvg_handle_close`: take the buffered bytes for parsing (the
    /// handle is back at `Start` until the parse result is recorded with
    /// [`LoadState::finish`]), or report why there is nothing to parse.
    pub fn close(&mut self) -> (step: CloseStep)
        ensures
            closed(*old(self), step, *final(self)),
    {
        let mut previous = LoadState::Start;
        std::mem::swap(&mut previous, self);
        match previous {
            LoadState::Loading(buffer) => CloseStep::Parse(buffer),
            LoadState::Loaded(d) => {
                *self = LoadState::Loaded(d);
                CloseStep::AlreadyLoaded
            },
            LoadState::Start => CloseStep::NoData,
            LoadState::Failed => {
                *self = LoadState::Failed;
                CloseStep::InError
            },
        }
    }

    /// Record the outcome of a load: the new document, or `None` when the
    /// engine refused the bytes or the stylesheet. Returns the document the
    /// new one replaces, which the caller frees; a failed load replaces
    /// none (a previously loaded document is dropped with the state).
    pub fn finish(&mut self, doc: Option<D>) -> (replaced: Option<D>)
        ensures
            finished(*old(self), doc, *final(self), replaced),
    {
        match doc {
            None => {
                *self = LoadState::Failed;
                None
            },
            Some(d) => {
                let mut previous = LoadState::Loaded(d);
                std::mem::swap(&mut previous, self);
                match previous {
                    LoadState::Loaded(o) => Some(o),
                    _ => None,
                }
            },
        }
    }
}

/// `%`
pub const PERCENT: u8 = 0x25;

/// `/`
pub const SLASH: u8 = 0x2f;

/// `#`
pub const HASH_SIGN: u8 = 0x23;

/// `file://`
pub const FILE_SCHEME: [u8; 7] = [0x66, 0x69, 0x6c, 0x65, 0x3a, 0x2f, 0x2f];

/// Value of a hexadecimal digit (either case), `None` for other bytes.
pub open spec fn hex_value(b: u8) -> Option<u8> {
    if 0x30 <= b <= 0x39 {
        Some((b - 0x30) as u8)
    } else if 0x61 <= b <= 0x66 {
        Some((b - 0x61 + 10) as u8)
    } else if 0x41 <= b <= 0x46 {
        Some((b - 0x41 + 10) as u8)
    } else {
        None
    }
}

/// Value of a hexadecimal digit (either case), `None` for other bytes.
pub fn hex_digit(b: u8) -> (r: Option<u8>)
    ensures
        r == hex_value(b),
{
    if 0x30 <= b && b <= 0x39 {
        Some(b - 0x30)
    } else if 0x61 <= b && b <= 0x66 {
        Some(b - 0x61 + 10)
    } else if 0x41 <= b && b <= 0x46 {
        Some(b - 0x41 + 10)
    } else {
        None
    }
}

/// `pre` followed by `rest`, a failure of `rest` being a failure.
pub open spec fn then_bytes(pre: Seq<u8>, rest: Option<Seq<u8>>) -> Option<Seq<u8>> {
    match rest {
        Some(r) => Some(pre + r),
        None => None,
    }
}

/// `s` with every `%XX` escape (two hexadecimal digits) replaced by the
/// byte it stands for; `None` when a `%` is not followed by two digits.
pub open spec fn percent_decoded(s: Seq<u8>) -> Option<Seq<u8>>
    decreases s.len(),
{
    if s.len() == 0 {
        Some(Seq::empty())
    } else if s[0] == PERCENT {
        if s.len() >= 3 && hex_value(s[1]) is Some && hex_value(s[2]) is Some {
            then_bytes(
                seq![(hex_value(s[1])->0 * 16 + hex_value(s[2])->0) as u8],
                percent_decoded(s.skip(3)),
            )
        } else {
            None
        }
    } else {
        then_bytes(seq![s[0]], percent_decoded(s.skip(1)))
    }
}

proof fn lemma_then_bytes_twice(a: Seq<u8>, b: Seq<u8>, rest: Option<Seq<u8>>)
    ensures
        then_bytes(a, then_bytes(b, rest)) == then_bytes(a + b, rest),
{
    if let Some(r) = rest {
        assert(a + (b + r) =~= (a + b) + r);
    }
}

/// Decode the `%XX` escapes of a URI path; see [`percent_decoded`].
pub fn percent_decode(s: &[u8]) -> (r: Option<Vec<u8>>)
    ensures
        opt_bytes(r) == percent_decoded(s@),
{
    let n = s.len();
    let mut out: Vec<u8> = Vec::new();
    let mut i: usize = 0;
    assert(s@.skip(0) =~= s@);
    assert(out@ + Seq::<u8>::empty() =~= out@);
    while i < n
        invariant
            n == s@.len(),
            i <= n,
            percent_decoded(s@) == then_bytes(out@, percent_decoded(s@.skip(i as int))),
        decreases n - i,
    {
        let ghost rest = s@.skip(i as int);
        assert(rest[0] == s@[i as int]);
        if s[i] == PERCENT {
            if n - i < 3 {
                return None;
            }
            assert(rest[1] == s@[i + 1] && rest[2] == s@[i + 2]);
            let hi = match hex_digit(s[i + 1]) {
                Some(v) => v,
                None => {
                    return None;
                },
            };
            let lo = match hex_digit(s[i + 2]) {
                Some(v) => v,
                None => {
                    return None;
                },
            };
            let byte: u8 = hi * 16 + lo;
            let ghost before = out@;
            proof {
                assert(rest.skip(3) =~= s@.skip(i + 3));
                lemma_then_bytes_twice(before, seq![byte], percent_decoded(s@.skip(i + 3)));
            }
            out.push(byte);
            assert(out@ =~= before + seq![byte]);
            i = i + 3;
        } else {
            let ghost before = out@;
            proof {
                assert(rest.skip(1) =~= s@.skip(i + 1));
                lemma_then_bytes_twice(before, seq![s@[i as int]], percent_decoded(s@.skip(i + 1)));
            }
            out.push(s[i]);
            assert(out@ =~= before + seq![s@[i as int]]);
            i = i + 1;
        }
    }
    assert(s@.skip(n as int) =~= Seq::<u8>::empty());
    Some(out)
}

/// The filesystem path a base URI names, before its last component is
/// dropped: a `file://` URI with an absolute path (percent escapes
/// decoded; one with a host name is refused) or an absolute path itself.
/// The URI must be UTF-8.
pub open spec fn uri_path(uri: Seq<u8>) -> Option<Seq<u8>> {
    if !valid_utf8(uri) {
        None
    } else if occurs_at(uri, FILE_SCHEME@, 0) {
        let rest = uri.skip(FILE_SCHEME@.len() as int);
        if rest.len() > 0 && rest[0] == SLASH {
            percent_decoded(rest)
        } else {
            None
        }
    } else if uri.len() > 0 && uri[0] == SLASH {
        Some(uri)
    } else {
        None
    }
}

/// The path of the file a base URI points at; see [`uri_path`]. The
/// directory holding it resolves relative references.
pub fn base_uri_path(uri: &[u8]) -> (r: Option<Vec<u8>>)
    ensures
        opt_bytes(r) == uri_path(uri@),
{
    if !is_utf8(uri) {
        return None;
    }
    match strip_prefix(uri, &FILE_SCHEME) {
        Some(rest) => {
            if rest.len() > 0 && rest[0] == SLASH {
                percent_decode(rest)
            } else {
                None
            }
        },
        None => {
            if uri.len() > 0 && uri[0] == SLASH {
                let mut path: Vec<u8> = Vec::new();
                append(&mut path, uri);
                assert(path@ =~= uri@);
                Some(path)
            } else {
                None
            }
        },
    }
}

/// An element id as the engine takes it: a public id (`#foo`) loses its
/// leading `#`; a bare one is kept.
pub open spec fn bare_id(id: Seq<u8>) -> Seq<u8> {
    if id.len() > 0 && id[0] == HASH_SIGN {
        id.skip(1)
    } else {
        id
    }
}

/// Strip the `#` of a public element id; see [`bare_id`].
pub fn element_id(id: &[u8]) -> (r: &[u8])
    ensures
        r@ == bare_id(id@),
{
    let n = id.len();
    if n > 0 && id[0] == HASH_SIGN {
        slice_subrange(id, 1, n)
    } else {
        id
    }
}

/// What closing a fresh handle after two writes hands to the parser is
/// both chunks, in order, and the handle is back at its start.
pub proof fn law_close_hands_over_everything_written<D>(
    s0: LoadState<D>,
    a: Seq<u8>,
    s1: LoadState<D>,
    accepted_a: bool,
    b: Seq<u8>,
    s2: LoadState<D>,
    accepted_b: bool,
    step: CloseStep,
    s3: LoadState<D>,
)
    requires
        s0 is Start,
        wrote(s0, a, s1, accepted_a),
        wrote(s1, b, s2, accepted_b),
        closed(s2, step, s3),
    ensures
        accepted_a && accepted_b,
        step matches CloseStep::Parse(v) && v@ == a + b,
        s3 is Start,
{
    assert(Seq::<u8>::empty() + a =~= a);
}

/// Once a load finished or failed, writes are refused and leave the
/// handle as it was.
pub proof fn law_no_writes_after_load<D>(before: LoadState<D>, bytes: Seq<u8>, after: LoadState<D>, accepted: bool)
    requires
        before is Loaded || before is Failed,
        wrote(before, bytes, after, accepted),
    ensures
        !accepted,
        after == before,
{
}

/// A path without `%` decodes to itself.
pub proof fn law_plain_paths_decode_to_themselves(s: Seq<u8>)
    requires
        forall|i: int| 0 <= i < s.len() ==> s[i] != PERCENT,
    ensures
        percent_decoded(s) == Some(s),
    decreases s.len(),
{
    if s.len() > 0 {
        assert forall|i: int| 0 <= i < s.skip(1).len() implies s.skip(1)[i] != PERCENT by {
            assert(s.skip(1)[i] == s[i + 1]);
        }
        law_plain_paths_decode_to_themselves(s.skip(1));
        assert(seq![s[0]] + s.skip(1) =~= s);
    }
}

/// `rsvg_handle_close` as a whole: buffered bytes go to the engine and the
/// close succeeds exactly when they load, the handle then holding the new
/// document or being failed; closing a loaded handle is a no-op that
/// succeeds; closing a fresh handle fails for want of data, and a failed
/// handle stays failed and fails again.
pub proof fn law_close_lifecycle<D>(
    before: LoadState<D>,
    step: CloseStep,
    mid: LoadState<D>,
    doc: Option<D>,
    after: LoadState<D>,
    replaced: Option<D>,
    answer: Result<(), CloseError>,
)
    requires
        closed(before, step, mid),
        step is Parse ==> finished(mid, doc, after, replaced),
        !(step is Parse) ==> after == mid,
        answer == close_answer(step, doc is Some),
    ensures
        match before {
            LoadState::Loading(b) => {
                &&& step matches CloseStep::Parse(v) && v@ == b@
                &&& (answer is Ok <==> doc is Some)
                &&& (doc matches Some(d) ==> after == LoadState::<D>::Loaded(d))
                &&& (doc is None ==> after is Failed && answer == Err::<(), CloseError>(
                    CloseError::Engine,
                ))
                &&& replaced is None
            },
            LoadState::Loaded(d) => answer is Ok && after == LoadState::<D>::Loaded(d),
            LoadState::Start => answer == Err::<(), CloseError>(CloseError::NoData) && after is Start,
            LoadState::Failed => answer == Err::<(), CloseError>(CloseError::InError)
                && after is Failed,
        },
{
}

} // verus!
