//! The peer-to-peer chat rooms: how peers find each other through the room's
//! DNS records, and the z-base-32 text of byte strings.
use vstd::prelude::*;

pub mod room;

verus! {

/// The characters of the z-base-32 alphabet.
pub open spec fn is_z32_char(c: char) -> bool {
    seq!['y', 'b', 'n', 'd', 'r', 'f', 'g', '8', 'e', 'j', 'k', 'm', 'c', 'p', 'q', 'x', 'o', 't', '1', 'u', 'w', 'i', 's', 'z', 'a', '3', '4', '5', 'h', '7', '6', '9'].contains(c)
}

/// The z-base-32 text of `bytes`, as `base32` encodes it.
pub uninterp spec fn z32_encoded(bytes: Seq<u8>) -> Seq<char>;

/// Calls `base32::encode` with the z-base-32 alphabet, whose result is named
/// `z32_encoded`: one character of the alphabet for every five bits, the last
/// one padded with zero bits, and no padding characters.
#[verifier::external_body]
pub fn to_z32(bytes: &[u8]) -> (res: String)
    ensures
        res@ == z32_encoded(bytes@),
        res@.len() == (8 * bytes@.len() + 4) / 5,
        forall|i: int| 0 <= i < res@.len() ==> is_z32_char(#[trigger] res@[i]),
{
    base32::encode(base32::Alphabet::Z, bytes)
}

} // verus!
