//! The byte transform at the heart of the obfuscation scheme: every byte of
//! the input is combined with a fixed, publicly known mask via exclusive-or.
//! The transform is length-preserving and its own inverse.
use vstd::prelude::*;

verus! {

/// The fixed mask byte the legacy scheme applies to every byte of a secret.
pub const MAGIC: u8 = 0x5f;

/// One byte of the transform: the byte combined with the mask via exclusive-or.
pub open spec fn mask_byte(b: u8) -> u8 {
    b ^ MAGIC
}

/// The transform on a whole byte sequence: every byte masked, length kept.
pub open spec fn mask_seq(s: Seq<u8>) -> Seq<u8> {
    Seq::new(s.len(), |i: int| mask_byte(s[i]))
}

/// Runs the exclusive-or transform on every byte of the input with the
/// [`MAGIC`] mask. Allocates a new byte vector and returns it.
pub fn xor(input: &[u8]) -> (r: Vec<u8>)
    ensures
        r@ == mask_seq(input@),
{
    let mut out: Vec<u8> = Vec::new();
    let mut i: usize = 0;
    while i < input.len()
        invariant
            i <= input@.len(),
            out@.len() == i,
            forall|j: int| 0 <= j < i ==> out@[j] == mask_byte(input@[j]),
        decreases input@.len() - i,
    {
        out.push(input[i] ^ MAGIC);
        i = i + 1;
    }
    proof {
        assert(out@ =~= mask_seq(input@));
    }
    out
}

/// Masking a byte twice gives the byte back.
proof fn lemma_mask_byte_self_inverse(b: u8)
    by (bit_vector)
    ensures
        (b ^ 0x5f) ^ 0x5f == b,
{
}

/// The byte transform is its own inverse: applying it twice with the same
/// mask returns the original byte sequence.
pub proof fn lemma_mask_self_inverse(s: Seq<u8>)
    ensures
        mask_seq(mask_seq(s)) == s,
{
    assert forall|i: int| 0 <= i < s.len() implies mask_seq(mask_seq(s))[i] == s[i] by {
        lemma_mask_byte_self_inverse(s[i]);
    }
    assert(mask_seq(mask_seq(s)) =~= s);
}

/// The transform maps bytes below 0x80 to bytes below 0x80: the mask leaves
/// the high bit alone.
pub proof fn lemma_mask_preserves_ascii(b: u8)
    by (bit_vector)
    ensures
        b < 0x80 ==> (b ^ 0x5f) < 0x80,
{
}

} // verus!
