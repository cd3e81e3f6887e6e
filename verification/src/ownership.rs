//! Strings that change hands, and the first word of a text.

use crate::text::{position_of, until};
use vstd::prelude::*;
use vstd::string::StringExecFns;
use vstd::utf8::encode_utf8;

verus! {

/// A string of its own, for the caller to keep.
pub fn gives_ownership() -> (s: String)
    ensures
        s@ == "yours"@,
{
    String::from_str("yours")
}

/// Takes a string and gives it back.
pub fn takes_and_gives_back(a_string: String) -> (s: String)
    ensures
        s == a_string,
{
    a_string
}

/// The position of the first space in `bytes`, or their number where there
/// is none.
pub open spec fn first_space(bytes: Seq<u8>) -> int
    decreases bytes.len(),
{
    if bytes.len() == 0 || bytes[0] == 32 {
        0
    } else {
        1 + first_space(bytes.drop_first())
    }
}

/// The first space of `bytes` is where a scan from the front finds it.
pub proof fn lemma_first_space(bytes: Seq<u8>, at: int)
    requires
        0 <= at <= bytes.len(),
        forall|i: int| 0 <= i < at ==> bytes[i] != 32,
        at < bytes.len() ==> bytes[at] == 32,
    ensures
        first_space(bytes) == at,
    decreases at,
{
    if at > 0 {
        let rest = bytes.drop_first();
        assert forall|i: int| 0 <= i < at - 1 implies rest[i] != 32 by {
            assert(rest[i] == bytes[i + 1]);
        }
        lemma_first_space(rest, at - 1);
    }
}

/// The length in bytes of the first word of `s`: the position of its first
/// space, or its length where it has none.
pub fn first_word(s: &String) -> (end: usize)
    ensures
        end == first_space(encode_utf8(s@)),
{
    let bytes = s.as_str().as_bytes();
    let mut i: usize = 0;
    while i < bytes.len()
        invariant
            bytes@ == encode_utf8(s@),
            i <= bytes.len(),
            forall|j: int| 0 <= j < i ==> bytes@[j] != 32,
        decreases bytes.len() - i,
    {
        if bytes[i] == 32u8 {
            proof {
                lemma_first_space(bytes@, i as int);
            }
            return i;
        }
        i += 1;
    }
    proof {
        lemma_first_space(bytes@, i as int);
    }
    bytes.len()
}

/// The first word of `s`: what stands before its first space, or all of it
/// where it has none.
pub fn first_word2(s: &String) -> (word: &str)
    ensures
        word@ == s@.take(position_of(s@, ' ')),
{
    first_word3(s.as_str())
}

/// The first word of `s`: what stands before its first space, or all of it
/// where it has none.
pub fn first_word3(s: &str) -> (word: &str)
    ensures
        word@ == s@.take(position_of(s@, ' ')),
{
    until(s, ' ')
}

} // verus!
