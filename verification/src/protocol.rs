//! The response codec: pure functions that render every reply line of
//! the text protocol. Each returns a string terminated by a single
//! newline (the bulk reply is a line pair).

use vstd::prelude::*;
use crate::text::spec_dec_i64;
use crate::text::spec_dec_u64;
use crate::text::fmt_i64;
use crate::text::fmt_u64;

verus! {

/// What an error reply looks like for a given message.
pub open spec fn spec_err(msg: Seq<char>) -> Seq<char> {
    "-ERR "@ + msg + "\n"@
}

/// What an integer reply looks like for a given value.
pub open spec fn spec_integer(n: int) -> Seq<char> {
    ":"@ + spec_dec_i64(n) + "\n"@
}

/// The bytes of a value as text. Stands for the result of
/// `String::from_utf8_lossy`: a function of the bytes alone, the bytes
/// themselves when they are valid UTF-8, with invalid sequences
/// replaced.
pub uninterp spec fn lossy_utf8(bytes: Seq<u8>) -> Seq<char>;

/// Relies on String::from_utf8_lossy: the result depends on the bytes
/// alone.
#[verifier::external_body]
fn utf8_lossy(bytes: &[u8]) -> (r: String)
    ensures
        r@ == lossy_utf8(bytes@),
{
    String::from_utf8_lossy(bytes).into_owned()
}

/// What a bulk reply looks like for a given value: its byte length,
/// then the value rendered as text.
pub open spec fn spec_bulk(value: Seq<u8>) -> Seq<char> {
    "$"@ + spec_dec_u64(value.len() as int) + "\n"@ + lossy_utf8(value) + "\n"@
}

/// Status line for a successful mutation with no payload.
pub fn ok() -> (r: String)
    ensures
        r@ == "+OK\n"@,
{
    String::from_str("+OK\n")
}

/// Status line replying to a liveness probe.
pub fn pong() -> (r: String)
    ensures
        r@ == "+PONG\n"@,
{
    String::from_str("+PONG\n")
}

/// Error line carrying a human-readable reason. The message must not
/// itself contain a newline; the reply stays one line.
pub fn err(msg: &str) -> (r: String)
    ensures
        r@ == spec_err(msg@),
{
    let mut r = String::from_str("-ERR ");
    r.append(msg);
    r.append("\n");
    r
}

/// Line encoding a signed 64-bit integer result.
pub fn integer(n: i64) -> (r: String)
    ensures
        r@ == spec_integer(n as int),
{
    let mut r = String::from_str(":");
    r.append(fmt_i64(n).as_str());
    r.append("\n");
    r
}

/// Line pair encoding a length-prefixed payload: the byte length, then
/// the bytes rendered as text, then a trailing delimiter.
pub fn bulk_string(value: &[u8]) -> (r: String)
    ensures
        r@ == spec_bulk(value@),
{
    let mut r = String::from_str("$");
    r.append(fmt_u64(value.len() as u64).as_str());
    r.append("\n");
    r.append(utf8_lossy(value).as_str());
    r.append("\n");
    r
}

/// Sentinel line meaning "no value".
pub fn nil() -> (r: String)
    ensures
        r@ == "$-1\n"@,
{
    String::from_str("$-1\n")
}

} // verus!
