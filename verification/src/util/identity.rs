//! The identity of a visitor: the one that the session already holds, or a
//! new one made up at random.

use rand::distr::{Alphanumeric, SampleString};
use vstd::prelude::*;

verus! {

/// The number of characters of a new identity.
pub const IDENTITY_LENGTH: usize = 16;

/// Whether `c` is an ASCII letter or digit.
pub open spec fn is_alphanumeric(c: char) -> bool {
    ('0' <= c && c <= '9') || ('A' <= c && c <= 'Z') || ('a' <= c && c <= 'z')
}

/// Whether `text` is made of `length` ASCII letters and digits.
pub open spec fn is_token(text: Seq<char>, length: nat) -> bool {
    text.len() == length && forall|i: int|
        0 <= i < text.len() ==> is_alphanumeric(#[trigger] text[i])
}

/// Calls `Alphanumeric.sample_string` of `rand` with the generator of the
/// current thread, `rand::rng()`. The text is drawn at random: all that is
/// claimed is its length and that it is made of ASCII letters and digits.
/// The generator panics if the system cannot seed it.
#[verifier::external_body]
pub(crate) fn random_token(length: usize) -> (token: String)
    ensures
        is_token(token@, length as nat),
{
    Alphanumeric.sample_string(&mut rand::rng(), length)
}

/// The identity of a visitor, and whether it is new and has yet to be
/// remembered in the session.
pub struct Identified {
    pub id: String,
    pub fresh: bool,
}

/// Settles the identity of a visitor, given the identity `known` that the
/// session holds. A visitor without one gets the identity `made`.
pub fn settle(known: Option<String>, made: String) -> (identified: Identified)
    ensures
        match known {
            Some(id) => identified == (Identified { id, fresh: false }),
            None => identified == (Identified { id: made, fresh: true }),
        },
{
    match known {
        Some(id) => Identified { id, fresh: false },
        None => Identified { id: made, fresh: true },
    }
}

/// The identity of a visitor: the one that the session holds, or else a new
/// one of sixteen random letters and digits.
pub fn get(known: Option<String>) -> (identified: Identified)
    ensures
        match known {
            Some(id) => identified == (Identified { id, fresh: false }),
            None => identified.fresh && is_token(identified.id@, IDENTITY_LENGTH as nat),
        },
{
    match known {
        Some(id) => Identified { id, fresh: false },
        None => settle(None, random_token(IDENTITY_LENGTH)),
    }
}

} // verus!
