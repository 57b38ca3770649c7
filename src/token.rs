//! Bearer token generation.

use vstd::prelude::*;
use rand::Rng;

verus! {

/// Number of characters in a bearer token.
pub const TOKEN_LENGTH: usize = 32;

/// `c` is an ASCII letter or digit.
pub open spec fn is_alphanumeric(c: char) -> bool {
    ||| ('A' as u32) <= (c as u32) <= ('Z' as u32)
    ||| ('a' as u32) <= (c as u32) <= ('z' as u32)
    ||| ('0' as u32) <= (c as u32) <= ('9' as u32)
}

/// `t` has the shape of a generated token: `TOKEN_LENGTH` alphanumeric characters.
pub open spec fn token_shaped(t: Seq<char>) -> bool {
    &&& t.len() == TOKEN_LENGTH
    &&& forall|i: int| 0 <= i < t.len() ==> is_alphanumeric(#[trigger] t[i])
}

/// Relies on rand's `Alphanumeric` distribution, sampled with the thread-local
/// generator: each sample is one of `A-Z`, `a-z`, `0-9`.
#[verifier::external_body]
fn random_alphanumeric() -> (c: char)
    ensures
        is_alphanumeric(c),
{
    rand::thread_rng().sample(rand::distributions::Alphanumeric)
}

/// Relies on `String::push`: appends one character.
#[verifier::external_body]
fn push_char(s: &mut String, c: char)
    ensures
        final(s)@ == old(s)@.push(c),
{
    s.push(c)
}

/// A fresh random token of `TOKEN_LENGTH` alphanumeric characters, each drawn
/// independently.
pub fn generate_token() -> (r: String)
    ensures
        r@.len() == TOKEN_LENGTH,
        forall|i: int| 0 <= i < r@.len() ==> is_alphanumeric(#[trigger] r@[i]),
{
    let mut s = String::new();
    let mut i: usize = 0;
    while i < TOKEN_LENGTH
        invariant
            i <= TOKEN_LENGTH,
            s@.len() == i,
            forall|k: int| 0 <= k < s@.len() ==> is_alphanumeric(#[trigger] s@[k]),
        decreases TOKEN_LENGTH - i,
    {
        let c = random_alphanumeric();
        push_char(&mut s, c);
        i += 1;
    }
    s
}

} // verus!
