//! The BLAKE3 boundary: the incremental hasher of the `blake3` crate and the
//! contracts under which the rest of the library calls it.

use vstd::prelude::*;

verus! {

/// `blake3::Hasher`, the incremental hash state. Nothing inside it is
/// visible here; the names below say what the contracts need of it.
#[verifier::external_type_specification]
#[verifier::external_body]
pub struct ExHasher(blake3::Hasher);

/// The bytes that a hasher has been fed so far, in the order of the writes.
pub uninterp spec fn hasher_input(h: blake3::Hasher) -> Seq<u8>;

/// The key that a hasher was made with; `None` for the regular hash function.
pub uninterp spec fn hasher_key(h: blake3::Hasher) -> Option<Seq<u8>>;

/// The input offset of a hasher: zero unless it was moved through the
/// crate's low-level interface, which this library never does.
pub uninterp spec fn hasher_offset(h: blake3::Hasher) -> nat;

/// The 32-byte BLAKE3 output for an input, under a key or, with `None`, unkeyed.
pub uninterp spec fn blake3_output(key: Option<Seq<u8>>, input: Seq<u8>) -> Seq<u8>;

/// `blake3::Hasher::new`: a hasher for the regular hash function that has
/// taken no input yet.
#[verifier::external_body]
pub(crate) fn hasher_new() -> (h: blake3::Hasher)
    ensures
        hasher_input(h) == Seq::<u8>::empty(),
        hasher_key(h) == None::<Seq<u8>>,
        hasher_offset(h) == 0,
{
    blake3::Hasher::new()
}

/// `blake3::Hasher::new_keyed`: a hasher for the keyed hash function under
/// `key` that has taken no input yet.
#[verifier::external_body]
pub(crate) fn hasher_new_keyed(key: &[u8; 32]) -> (h: blake3::Hasher)
    ensures
        hasher_input(h) == Seq::<u8>::empty(),
        hasher_key(h) == Some(key@),
        hasher_offset(h) == 0,
{
    blake3::Hasher::new_keyed(key)
}

/// `blake3::Hasher::update`: appends `input` to what the hasher has taken;
/// key and offset stay as they were. On a hasher with a nonzero input offset
/// the call panics where the input is too long, so `requires` leaves such
/// hashers out.
#[verifier::external_body]
pub(crate) fn hasher_update(h: &mut blake3::Hasher, input: &[u8])
    requires
        hasher_offset(*old(h)) == 0,
    ensures
        hasher_input(*final(h)) == hasher_input(*old(h)) + input@,
        hasher_key(*final(h)) == hasher_key(*old(h)),
        hasher_offset(*final(h)) == hasher_offset(*old(h)),
{
    h.update(input);
}

/// `blake3::Hasher::finalize`: the digest of the whole input taken so far,
/// under the hasher's key. The call panics on a hasher with a nonzero input
/// offset, which `requires` leaves out. The hasher itself is not changed.
#[verifier::external_body]
pub(crate) fn hasher_finalize(h: &blake3::Hasher) -> (out: [u8; 32])
    requires
        hasher_offset(*h) == 0,
    ensures
        out@ == blake3_output(hasher_key(*h), hasher_input(*h)),
{
    *h.finalize().as_bytes()
}

} // verus!
