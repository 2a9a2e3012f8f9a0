//! The bytes of the response: the preamble sent once per connection and the
//! header that precedes every frame.

use vstd::prelude::*;
use vstd::string::{StrSliceExecFns, StringSliceAdditionalSpecFns};

verus! {

/// Status line and headers that open every response, up to and including the
/// empty line that ends them.
pub const PREAMBLE: &'static str =
    "HTTP/1.1 200 OK\r\nCacheControl: no-cache, no-store, must-revalidate, max-age=0\r\nPragma: no-cache\r\nExpires: 0\r\nAge: 0\r\nContent-Type: multipart/x-mixed-replace; boundary=\"000.000.000\"\r\n\r\n";

/// Boundary line and headers of one part, up to the value of `Content-Length`.
pub const PART_OPENING: &'static str =
    "\r\n--000.000.000\r\nContent-Type: image/jpeg\r\nContent-Length: ";

/// End of the `Content-Length` line and the empty line after a part's headers.
pub const PART_CLOSING: &'static str = "\r\n\r\n";

/// Pause after each frame, in milliseconds.
pub const PACING_MILLIS: u64 = 40;

/// The ASCII digit for `d`, where `d < 10`.
pub open spec fn digit(d: nat) -> u8 {
    (48 + d) as u8
}

/// `n` in decimal, as ASCII digits without sign, padding or leading zeros.
pub open spec fn decimal(n: nat) -> Seq<u8>
    decreases n,
{
    if n < 10 {
        seq![digit(n)]
    } else {
        decimal(n / 10).push(digit(n % 10))
    }
}

/// The bytes of the response preamble.
pub open spec fn preamble_bytes() -> Seq<u8> {
    PREAMBLE.spec_bytes()
}

/// The bytes that precede a frame of `length` bytes.
pub open spec fn part_header_bytes(length: nat) -> Seq<u8> {
    PART_OPENING.spec_bytes() + decimal(length) + PART_CLOSING.spec_bytes()
}

/// Writes `n` in decimal.
pub fn decimal_digits(n: usize) -> (out: Vec<u8>)
    ensures
        out@ == decimal(n as nat),
    decreases n,
{
    if n < 10 {
        let d: u8 = 48u8 + (n as u8);
        let mut out: Vec<u8> = Vec::new();
        out.push(d);
        assert(out@ =~= seq![digit(n as nat)]);
        out
    } else {
        let mut out = decimal_digits(n / 10);
        let d: u8 = 48u8 + ((n % 10) as u8);
        out.push(d);
        out
    }
}

/// The response preamble.
pub fn preamble() -> (out: Vec<u8>)
    ensures
        out@ == preamble_bytes(),
{
    PREAMBLE.as_bytes_vec()
}

/// The header of a part that carries a frame of `length` bytes.
pub fn part_header(length: usize) -> (out: Vec<u8>)
    ensures
        out@ == part_header_bytes(length as nat),
{
    let mut out: Vec<u8> = PART_OPENING.as_bytes_vec();
    let mut digits = decimal_digits(length);
    out.append(&mut digits);
    let mut closing = PART_CLOSING.as_bytes_vec();
    out.append(&mut closing);
    out
}

} // verus!
