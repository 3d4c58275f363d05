//! Session tokens: the credential by which a new link joins a session.

use rand::distr::{Alphanumeric, SampleString};
use vstd::prelude::*;

verus! {

/// Number of characters in a freshly drawn token.
pub const TOKEN_LEN: usize = 24;

/// An ASCII letter or digit.
pub open spec fn is_alphanumeric(c: char) -> bool {
    ||| 'A' <= c <= 'Z'
    ||| 'a' <= c <= 'z'
    ||| '0' <= c <= '9'
}

/// A text of `len` characters, all of them ASCII letters or digits.
pub open spec fn alphanumeric_text(text: Seq<char>, len: nat) -> bool {
    &&& text.len() == len
    &&& forall|i: int| 0 <= i < text.len() ==> is_alphanumeric(#[trigger] text[i])
}

/// Draws a text from the thread's random generator with
/// `Alphanumeric.sample_string` of the `rand` crate. The generator appends
/// `len` symbols to an empty text, each taken from the letters `A` to `Z`,
/// `a` to `z` and the digits; which symbols come is left open. Nothing is
/// proved of this function: its contract is what the source of `rand`
/// shows. Where the operating system gives the generator no seed, `rand`
/// panics.
#[verifier::external_body]
pub(crate) fn sample_alphanumeric(len: usize) -> (text: String)
    ensures
        alphanumeric_text(text@, len as nat),
{
    Alphanumeric.sample_string(&mut rand::rng(), len)
}

} // verus!
