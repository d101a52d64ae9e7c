//! Rendering numbers and bytes as text.

use vstd::prelude::*;
use vstd::string::StringExecFns;
use vstd::string::StringSliceAdditionalSpecFns;
use vstd::utf8::{decode_utf8, encode_utf8_decode_utf8, valid_utf8};

verus! {

/// The character of a decimal digit.
pub open spec fn digit_char(d: nat) -> char
    recommends
        d < 10,
{
    seq!['0', '1', '2', '3', '4', '5', '6', '7', '8', '9'][d as int]
}

/// The decimal digits of `n`, without sign or leading zeros.
pub open spec fn decimal(n: nat) -> Seq<char>
    decreases n,
{
    if n < 10 {
        seq![digit_char(n)]
    } else {
        decimal(n / 10).push(digit_char(n % 10))
    }
}

/// A text of `n` replacement characters (U+FFFD).
pub open spec fn replacement_text(n: nat) -> Seq<char> {
    Seq::new(n, |_i: int| '\u{FFFD}')
}

/// Relies on `ToString::to_string` for `usize`, which writes the number in
/// decimal through its `Display` impl.
#[verifier::external_body]
pub(crate) fn decimal_string(n: usize) -> (r: String)
    ensures
        r@ == decimal(n as nat),
{
    n.to_string()
}

/// Relies on `std::str::from_utf8`: it succeeds exactly on valid UTF-8, and
/// then views the same bytes as a string slice.
#[verifier::external_body]
fn utf8_str(b: &[u8]) -> (r: Option<&str>)
    ensures
        r is Some <==> valid_utf8(b@),
        r is Some ==> r->Some_0.spec_bytes() == b@,
{
    std::str::from_utf8(b).ok()
}

/// The text that `b` encodes in UTF-8, or `None` where `b` is not valid UTF-8.
pub fn utf8_text(b: &[u8]) -> (r: Option<String>)
    ensures
        r is Some <==> valid_utf8(b@),
        r is Some ==> r->Some_0@ == decode_utf8(b@),
{
    match utf8_str(b) {
        Some(s) => {
            proof {
                encode_utf8_decode_utf8(s@);
            }
            Some(s.to_owned())
        },
        None => None,
    }
}

/// A text of `n` replacement characters.
pub fn replacement_string(n: usize) -> (r: String)
    ensures
        r@ == replacement_text(n as nat),
{
    let mut s = String::new();
    let mut i: usize = 0;
    while i < n
        invariant
            i <= n,
            s@ == replacement_text(i as nat),
        decreases n - i,
    {
        proof {
            reveal_strlit("\u{FFFD}");
        }
        s.append("\u{FFFD}");
        i += 1;
        assert(s@ =~= replacement_text(i as nat));
    }
    s
}

} // verus!
