use vstd::prelude::*;

use crate::registry::Module;

verus! {

/// The eight bytes of `x`, least significant first.
pub open spec fn le_bytes(x: u64) -> Seq<u8> {
    seq![
        x as u8,
        (x >> 8u64) as u8,
        (x >> 16u64) as u8,
        (x >> 24u64) as u8,
        (x >> 32u64) as u8,
        (x >> 40u64) as u8,
        (x >> 48u64) as u8,
        (x >> 56u64) as u8,
    ]
}

/// Relies on parity_codec's `Encode` for a tuple of three `u64`: the fields in
/// order, each as its eight little-endian bytes.
#[verifier::external_body]
fn encode_triple(a: u64, b: u64, c: u64) -> (r: Vec<u8>)
    ensures
        r@ == le_bytes(a) + le_bytes(b) + le_bytes(c),
{
    parity_codec::Encode::encode(&(a, b, c))
}

impl Module {
    /// The bytes that the identifier generator hashes into the id of the next
    /// asset that `sender` creates: the randomness seed, the caller and the
    /// current nonce, encoded in that order.
    pub fn id_preimage(&self, seed: u64, sender: u64) -> (r: Vec<u8>)
        ensures
            r@ == le_bytes(seed) + le_bytes(sender) + le_bytes(self@.nonce),
    {
        encode_triple(seed, sender, self.nonce())
    }
}

} // verus!
