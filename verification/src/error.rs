//! Error type shared by the library.

use vstd::prelude::*;

verus! {

/// Every way a load, conversion or encode can fail.
#[derive(Debug)]
pub enum Error {
    /// No decoder or encoder for the requested format is available.
    UnsupportedFormat,
    /// The input is structurally wrong (bad stride, bad document, ...).
    Malformed(String),
    /// The input ended before the data its header promises.
    Truncated(&'static str),
    /// A configured or built-in limit would be exceeded.
    LimitExceeded(&'static str),
    /// A format decoder reported a failure.
    Decoder { format: &'static str, message: String },
    /// A format encoder reported a failure.
    Encoder { format: &'static str, message: String },
    /// An invariant of the library itself did not hold.
    Internal(String),
}

} // verus!
