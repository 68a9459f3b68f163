//! Choosing how a request body is decoded from its declared media type.

use vstd::prelude::*;
use vstd::string::{StrSliceExecFns, StringExecFns};
use crate::response::ErrorResponse;

verus! {

/// How a request body is to be decoded.
#[derive(Debug, Clone, Copy, PartialEq, Eq, Structural)]
pub enum BodyFormat {
    /// A JSON document whose field set picks the schema generation.
    Json,
    /// Untagged SSZ bytes, resolved by probing the schema generations.
    Ssz,
}

/// Why a request body was turned away before or while it was decoded.
#[derive(Debug, Clone, Copy, PartialEq, Eq, Structural)]
pub enum Rejection {
    /// The media type is absent or names neither JSON nor SSZ.
    UnsupportedMediaType,
    /// The body did not decode under the chosen format.
    BadRequest,
}

pub const JSON_MEDIA_TYPE: &'static str = "application/json";

pub const SSZ_MEDIA_TYPE: &'static str = "application/octet-stream";

pub const STATUS_BAD_REQUEST: u16 = 400;

pub const STATUS_UNSUPPORTED_MEDIA_TYPE: u16 = 415;

/// `p` is a prefix of `s`.
pub open spec fn has_prefix(s: Seq<char>, p: Seq<char>) -> bool {
    p.len() <= s.len() && s.subrange(0, p.len() as int) == p
}

/// The format that a declared media type selects, if any.
pub open spec fn format_of(content_type: Option<Seq<char>>) -> Option<BodyFormat> {
    match content_type {
        Some(t) => if has_prefix(t, JSON_MEDIA_TYPE@) {
            Some(BodyFormat::Json)
        } else if has_prefix(t, SSZ_MEDIA_TYPE@) {
            Some(BodyFormat::Ssz)
        } else {
            None
        },
        None => None,
    }
}

pub open spec fn opt_view(t: Option<&str>) -> Option<Seq<char>> {
    match t {
        Some(s) => Some(s@),
        None => None,
    }
}

impl Rejection {
    /// The HTTP status that answers this rejection.
    pub open spec fn spec_status(self) -> u16 {
        match self {
            Rejection::UnsupportedMediaType => STATUS_UNSUPPORTED_MEDIA_TYPE,
            Rejection::BadRequest => STATUS_BAD_REQUEST,
        }
    }

    pub fn status(&self) -> (r: u16)
        ensures
            r == self.spec_status(),
    {
        match self {
            Rejection::UnsupportedMediaType => STATUS_UNSUPPORTED_MEDIA_TYPE,
            Rejection::BadRequest => STATUS_BAD_REQUEST,
        }
    }

    pub open spec fn spec_message(self) -> Seq<char> {
        match self {
            Rejection::UnsupportedMediaType => "unsupported media type"@,
            Rejection::BadRequest => "bad request"@,
        }
    }

    /// The structured error that answers this rejection: its status and a
    /// short message, with no diagnostics.
    pub fn error_response(&self) -> (r: ErrorResponse)
        ensures
            r.code == self.spec_status(),
            r.message@ == self.spec_message(),
            r.stacktraces is None,
    {
        let message = match self {
            Rejection::UnsupportedMediaType => String::from_str("unsupported media type"),
            Rejection::BadRequest => String::from_str("bad request"),
        };
        ErrorResponse { code: self.status(), message, stacktraces: None }
    }
}

/// Whether `s` begins with `p`, compared character by character.
pub fn starts_with(s: &str, p: &str) -> (r: bool)
    ensures
        r == has_prefix(s@, p@),
{
    let n = s.unicode_len();
    let m = p.unicode_len();
    if m > n {
        return false;
    }
    let mut i: usize = 0;
    while i < m
        invariant
            m == p@.len(),
            n == s@.len(),
            m <= n,
            i <= m,
            forall|j: int| 0 <= j < i ==> s@[j] == p@[j],
        decreases m - i,
    {
        if s.get_char(i) != p.get_char(i) {
            assert(s@.subrange(0, m as int)[i as int] != p@[i as int]);
            return false;
        }
        i = i + 1;
    }
    assert(s@.subrange(0, m as int) =~= p@);
    true
}

/// Picks the decoder for a request body from its declared media type. A type
/// that begins with the JSON media type selects JSON, one that begins with the
/// octet-stream type selects SSZ; anything else, or no type at all, is
/// rejected as unsupported, before any byte of the body is read.
pub fn negotiate(content_type: Option<&str>) -> (r: Result<BodyFormat, Rejection>)
    ensures
        match format_of(opt_view(content_type)) {
            Some(f) => r == Ok::<BodyFormat, Rejection>(f),
            None => r == Err::<BodyFormat, Rejection>(Rejection::UnsupportedMediaType),
        },
{
    match content_type {
        Some(t) => {
            if starts_with(t, JSON_MEDIA_TYPE) {
                Ok(BodyFormat::Json)
            } else if starts_with(t, SSZ_MEDIA_TYPE) {
                Ok(BodyFormat::Ssz)
            } else {
                Err(Rejection::UnsupportedMediaType)
            }
        },
        None => Err(Rejection::UnsupportedMediaType),
    }
}

} // verus!
