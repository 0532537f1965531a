use vstd::prelude::*;

use fastcrypto::hash::HashFunction;

verus! {

/// Identifier of a worker slot within an authority.
pub type WorkerId = u32;

/// An ordered group of client transactions, each an opaque byte string.
#[derive(Clone, Debug, PartialEq, Eq)]
pub struct Batch {
    pub transactions: Vec<Vec<u8>>,
}

impl View for Batch {
    type V = Seq<Seq<u8>>;

    open spec fn view(&self) -> Seq<Seq<u8>> {
        self.transactions.deep_view()
    }
}

/// The 32-byte hash that identifies a batch by its contents.
#[derive(Clone, Copy, Debug, PartialEq, Eq, Hash)]
pub struct BatchDigest {
    pub bytes: [u8; 32],
}

impl View for BatchDigest {
    type V = Seq<u8>;

    open spec fn view(&self) -> Seq<u8> {
        self.bytes@
    }
}

/// The Blake2b-256 digest of the transactions fed to the hash one after the
/// other.
pub uninterp spec fn blake2b_256_of(transactions: Seq<Seq<u8>>) -> Seq<u8>;

/// The digest under which a batch with these contents is stored.
pub open spec fn digest_of(b: Seq<Seq<u8>>) -> Seq<u8> {
    blake2b_256_of(b)
}

/// Relies on fastcrypto's `Blake2b256::digest_iterator`: it hashes each
/// transaction in order into one 32-byte digest, which depends on the bytes
/// alone.
#[verifier::external_body]
fn blake2b_256_transactions(transactions: &Vec<Vec<u8>>) -> (r: [u8; 32])
    ensures
        r@ == blake2b_256_of(transactions.deep_view()),
{
    fastcrypto::hash::Blake2b256::digest_iterator(transactions.iter()).digest
}

impl Batch {
    /// The content-derived identity of this batch.
    pub fn digest(&self) -> (r: BatchDigest)
        ensures
            r@ == digest_of(self@),
    {
        BatchDigest { bytes: blake2b_256_transactions(&self.transactions) }
    }
}

} // verus!
