//! Tagged handler results and their encoding into an HTTP answer: a status, a
//! fixed JSON content type and a JSON body.

use vstd::prelude::*;
use vstd::string::StringExecFns;
use crate::media::JSON_MEDIA_TYPE;

verus! {

pub const STATUS_OK: u16 = 200;

/// What a handler answers: a payload, or a structured error.
#[derive(Debug, PartialEq)]
pub enum Response<T> {
    Success(T),
    Error(ErrorResponse),
}

/// A structured error: the status to answer with, a message, and optional
/// diagnostic strings.
#[derive(Clone, Default, Debug, PartialEq)]
pub struct ErrorResponse {
    pub code: u16,
    pub message: String,
    pub stacktraces: Option<Vec<String>>,
}

/// The parts of an HTTP answer that the encoder decides.
#[derive(Clone, Debug, PartialEq)]
pub struct EncodedResponse {
    pub status: u16,
    pub content_type: String,
    pub body: String,
}

/// A lowercase hex digit.
pub open spec fn hex_lower(d: nat) -> char {
    if d < 10 {
        ((d + 48) as u8) as char
    } else {
        ((d + 87) as u8) as char
    }
}

/// How one character stands in a JSON string: quote and backslash escaped,
/// the five control characters with a short escape as such, the other
/// control characters as `\u00XX`, everything else as itself.
pub open spec fn escape_char(c: char) -> Seq<char> {
    if c == '"' {
        seq!['\\', '"']
    } else if c == '\\' {
        seq!['\\', '\\']
    } else if c == '\u{8}' {
        seq!['\\', 'b']
    } else if c == '\t' {
        seq!['\\', 't']
    } else if c == '\n' {
        seq!['\\', 'n']
    } else if c == '\u{c}' {
        seq!['\\', 'f']
    } else if c == '\r' {
        seq!['\\', 'r']
    } else if (c as u32) < 32 {
        seq!['\\', 'u', '0', '0', hex_lower((c as u32 / 16) as nat), hex_lower((c as u32 % 16) as nat)]
    } else {
        seq![c]
    }
}

pub open spec fn escaped(s: Seq<char>) -> Seq<char>
    decreases s.len(),
{
    if s.len() == 0 {
        Seq::empty()
    } else {
        escaped(s.drop_last()) + escape_char(s.last())
    }
}

/// The JSON text of a string: quoted, with each character escaped.
pub open spec fn json_text(s: Seq<char>) -> Seq<char> {
    seq!['"'] + escaped(s) + seq!['"']
}

/// The decimal digits of `n`, most significant first.
pub open spec fn decimal(n: nat) -> Seq<char>
    decreases n,
{
    if n < 10 {
        seq![digit_char(n)]
    } else {
        decimal(n / 10).push(digit_char(n % 10))
    }
}

pub open spec fn digit_char(d: nat) -> char {
    ((d + 48) as u8) as char
}

/// Comma-separated items, in order.
pub open spec fn join_commas(items: Seq<Seq<char>>) -> Seq<char>
    decreases items.len(),
{
    if items.len() == 0 {
        Seq::empty()
    } else if items.len() == 1 {
        items[0]
    } else {
        join_commas(items.drop_last()) + ","@ + items.last()
    }
}

/// The JSON object of an error, from the JSON texts of its fields; the
/// diagnostics member stands only where diagnostics are present.
pub open spec fn error_object(code: Seq<char>, message: Seq<char>, traces: Option<Seq<Seq<char>>>) -> Seq<char> {
    "{\"code\":"@ + code + ",\"message\":"@ + message + match traces {
        Some(ts) => ",\"stacktraces\":["@ + join_commas(ts) + "]"@,
        None => Seq::empty(),
    } + "}"@
}

pub open spec fn strings_view(v: Seq<String>) -> Seq<Seq<char>> {
    v.map_values(|s: String| s@)
}

pub open spec fn traces_view(t: Option<Vec<String>>) -> Option<Seq<Seq<char>>> {
    match t {
        Some(v) => Some(strings_view(v@)),
        None => None,
    }
}

/// The JSON body of an error response.
pub open spec fn error_json(e: ErrorResponse) -> Seq<char> {
    error_object(
        decimal(e.code as nat),
        json_text(e.message@),
        match e.stacktraces {
            Some(v) => Some(strings_view(v@).map_values(|s: Seq<char>| json_text(s))),
            None => None,
        },
    )
}

impl<T> Response<T> {
    /// The status a result is answered with: 200 for a payload, the error's
    /// own code otherwise.
    pub open spec fn spec_status(&self) -> u16 {
        match self {
            Response::Success(_) => STATUS_OK,
            Response::Error(e) => e.code,
        }
    }

    pub fn status(&self) -> (r: u16)
        ensures
            r == self.spec_status(),
    {
        match self {
            Response::Success(_) => STATUS_OK,
            Response::Error(e) => e.code,
        }
    }
}

/// Relies on serde_json::to_string on a `str`: the string as a JSON string
/// literal. Writing into memory cannot fail, so neither does the call.
#[verifier::external_body]
fn quote_json(s: &str) -> (r: String)
    ensures
        r@ == json_text(s@),
{
    serde_json::to_string(s).unwrap_or_default()
}

/// Relies on serde_json::to_string on a `u16`: its decimal digits. Writing
/// into memory cannot fail, so neither does the call.
#[verifier::external_body]
fn number_json(n: u16) -> (r: String)
    ensures
        r@ == decimal(n as nat),
{
    serde_json::to_string(&n).unwrap_or_default()
}

/// Joins items with commas, in order.
pub fn join_with_commas(items: &Vec<String>) -> (r: String)
    ensures
        r@ == join_commas(strings_view(items@)),
{
    let mut out = String::new();
    let mut i: usize = 0;
    while i < items.len()
        invariant
            i <= items@.len(),
            out@ == join_commas(strings_view(items@.take(i as int))),
        decreases items@.len() - i,
    {
        let ghost before = items@.take(i as int);
        if i > 0 {
            out.append(",");
        }
        out.append(items[i].as_str());
        proof {
            let now = items@.take(i + 1);
            assert(now.drop_last() =~= before);
            assert(strings_view(now).drop_last() =~= strings_view(before));
            if i == 0 {
                assert(strings_view(before) =~= Seq::<Seq<char>>::empty());
            }
        }
        i = i + 1;
    }
    assert(items@.take(items@.len() as int) =~= items@);
    out
}

/// Assembles the JSON object of an error from the JSON texts of its code, its
/// message and, where present, each of its diagnostics.
pub fn error_object_text(code: &str, message: &str, traces: Option<&Vec<String>>) -> (r: String)
    ensures
        r@ == error_object(
            code@,
            message@,
            match traces {
                Some(v) => Some(strings_view(v@)),
                None => None,
            },
        ),
{
    let mut out = String::from_str("{\"code\":");
    out.append(code);
    out.append(",\"message\":");
    out.append(message);
    match traces {
        Some(v) => {
            out.append(",\"stacktraces\":[");
            let joined = join_with_commas(v);
            out.append(joined.as_str());
            out.append("]");
        },
        None => {},
    }
    out.append("}");
    out
}

/// The JSON body of an error response.
pub fn error_body(e: &ErrorResponse) -> (r: String)
    ensures
        r@ == error_json(*e),
{
    let code = number_json(e.code);
    let message = quote_json(e.message.as_str());
    match &e.stacktraces {
        Some(v) => {
            let mut quoted: Vec<String> = Vec::new();
            let mut i: usize = 0;
            while i < v.len()
                invariant
                    i <= v@.len(),
                    quoted@.len() == i,
                    forall|j: int| 0 <= j < i ==> quoted@[j]@ == json_text(v@[j]@),
                decreases v@.len() - i,
            {
                quoted.push(quote_json(v[i].as_str()));
                i = i + 1;
            }
            let r = error_object_text(code.as_str(), message.as_str(), Some(&quoted));
            assert(strings_view(quoted@) =~= strings_view(v@).map_values(|s: Seq<char>| json_text(s)));
            r
        },
        None => error_object_text(code.as_str(), message.as_str(), None),
    }
}

/// Encodes a handler's result whose payload is already JSON text. The status
/// is 200 for a payload and the error's own code for an error; the content
/// type is always JSON; the body is the payload, or the error's JSON object.
pub fn encode_response(result: Response<String>) -> (r: EncodedResponse)
    ensures
        r.status == result.spec_status(),
        r.content_type@ == JSON_MEDIA_TYPE@,
        match result {
            Response::Success(b) => r.body@ == b@,
            Response::Error(e) => r.body@ == error_json(e),
        },
{
    let status = result.status();
    let body = match result {
        Response::Success(body) => body,
        Response::Error(e) => error_body(&e),
    };
    EncodedResponse { status, content_type: String::from_str(JSON_MEDIA_TYPE), body }
}

} // verus!
