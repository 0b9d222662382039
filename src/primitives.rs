//! Fixed-width byte values: hashes, public keys and signatures.
use vstd::prelude::*;

use crate::codec::{decode_bytes, encode_bytes, keccak256, keccak256_of, DecodeError, FixedCodec};

verus! {

/// A 32-byte hash.
#[derive(Debug, Clone, Copy, PartialEq, Eq)]
pub struct Hash256 {
    pub bytes: [u8; 32],
}

impl FixedCodec for Hash256 {
    open spec fn spec_size() -> nat {
        32
    }

    open spec fn spec_encode(self) -> Seq<u8> {
        self.bytes@
    }

    open spec fn spec_root(self) -> Seq<u8> {
        keccak256_of(self.bytes@)
    }

    proof fn lemma_encoding_size(self) {
    }

    proof fn lemma_encoding_injective(self, other: Self) {
        assert(self.bytes =~= other.bytes);
    }

    fn size() -> (r: usize) {
        32
    }

    fn encode_into(&self, out: &mut Vec<u8>) {
        encode_bytes(out, &self.bytes);
    }

    fn decode_at(bytes: &Vec<u8>, off: usize) -> (r: Result<Self, DecodeError>) {
        let v = Hash256 { bytes: decode_bytes(bytes, off) };
        proof {
            assert forall|w: Hash256| bytes@.subrange(off as int, off + 32) == #[trigger] w.spec_encode()
                implies w == v by {
                w.lemma_encoding_injective(v);
            }
        }
        Ok(v)
    }

    fn hash_tree_root(&self) -> (r: Vec<u8>) {
        let mut buf: Vec<u8> = Vec::new();
        encode_bytes(&mut buf, &self.bytes);
        proof {
            assert(buf@ =~= self.bytes@);
        }
        keccak256(&buf)
    }
}

impl Hash256 {
    /// The hash whose bytes are all zero.
    pub open spec fn spec_is_zero(self) -> bool {
        forall|i: int| 0 <= i < 32 ==> self.bytes@[i] == 0
    }

    /// The hash whose bytes are all zero.
    pub fn zero() -> (r: Hash256)
        ensures
            r.spec_is_zero(),
    {
        Hash256 { bytes: [0u8; 32] }
    }

    /// The hash whose first bytes are those of `b` (at most 32 of them), and
    /// whose other bytes are zero.
    pub fn from_slice(b: &[u8]) -> (r: Hash256)
        ensures
            forall|i: int| 0 <= i < 32 ==> r.bytes@[i] == if i < b@.len() { b@[i] } else { 0u8 },
    {
        let mut a: [u8; 32] = [0u8; 32];
        let n = b.len();
        let mut i: usize = 0;
        while i < 32
            invariant
                i <= 32,
                n == b@.len(),
                forall|j: int| 0 <= j < i ==> a@[j] == if j < b@.len() { b@[j] } else { 0u8 },
                forall|j: int| i <= j < 32 ==> a@[j] == 0u8,
            decreases 32 - i,
        {
            if i < n {
                a[i] = b[i];
            }
            i = i + 1;
        }
        Hash256 { bytes: a }
    }

    /// Whether every byte is zero.
    pub fn is_zero(&self) -> (r: bool)
        ensures
            r == self.spec_is_zero(),
    {
        let mut i: usize = 0;
        while i < 32
            invariant
                i <= 32,
                forall|j: int| 0 <= j < i ==> self.bytes@[j] == 0,
            decreases 32 - i,
        {
            if self.bytes[i] != 0 {
                return false;
            }
            i = i + 1;
        }
        true
    }
}

/// A compressed 48-byte public key.
#[derive(Debug, Clone, Copy, PartialEq, Eq)]
pub struct PublicKey {
    pub bytes: [u8; 48],
}

impl FixedCodec for PublicKey {
    open spec fn spec_size() -> nat {
        48
    }

    open spec fn spec_encode(self) -> Seq<u8> {
        self.bytes@
    }

    open spec fn spec_root(self) -> Seq<u8> {
        keccak256_of(self.bytes@)
    }

    proof fn lemma_encoding_size(self) {
    }

    proof fn lemma_encoding_injective(self, other: Self) {
        assert(self.bytes =~= other.bytes);
    }

    fn size() -> (r: usize) {
        48
    }

    fn encode_into(&self, out: &mut Vec<u8>) {
        encode_bytes(out, &self.bytes);
    }

    fn decode_at(bytes: &Vec<u8>, off: usize) -> (r: Result<Self, DecodeError>) {
        let v = PublicKey { bytes: decode_bytes(bytes, off) };
        proof {
            assert forall|w: PublicKey| bytes@.subrange(off as int, off + 48) == #[trigger] w.spec_encode()
                implies w == v by {
                w.lemma_encoding_injective(v);
            }
        }
        Ok(v)
    }

    fn hash_tree_root(&self) -> (r: Vec<u8>) {
        let mut buf: Vec<u8> = Vec::new();
        encode_bytes(&mut buf, &self.bytes);
        proof {
            assert(buf@ =~= self.bytes@);
        }
        keccak256(&buf)
    }
}

/// A 96-byte signature.
#[derive(Debug, Clone, Copy, PartialEq, Eq)]
pub struct Signature {
    pub bytes: [u8; 96],
}

impl FixedCodec for Signature {
    open spec fn spec_size() -> nat {
        96
    }

    open spec fn spec_encode(self) -> Seq<u8> {
        self.bytes@
    }

    open spec fn spec_root(self) -> Seq<u8> {
        keccak256_of(self.bytes@)
    }

    proof fn lemma_encoding_size(self) {
    }

    proof fn lemma_encoding_injective(self, other: Self) {
        assert(self.bytes =~= other.bytes);
    }

    fn size() -> (r: usize) {
        96
    }

    fn encode_into(&self, out: &mut Vec<u8>) {
        encode_bytes(out, &self.bytes);
    }

    fn decode_at(bytes: &Vec<u8>, off: usize) -> (r: Result<Self, DecodeError>) {
        let v = Signature { bytes: decode_bytes(bytes, off) };
        proof {
            assert forall|w: Signature| bytes@.subrange(off as int, off + 96) == #[trigger] w.spec_encode()
                implies w == v by {
                w.lemma_encoding_injective(v);
            }
        }
        Ok(v)
    }

    fn hash_tree_root(&self) -> (r: Vec<u8>) {
        let mut buf: Vec<u8> = Vec::new();
        encode_bytes(&mut buf, &self.bytes);
        proof {
            assert(buf@ =~= self.bytes@);
        }
        keccak256(&buf)
    }
}


/// Whether two byte arrays hold the same bytes.
pub fn bytes_equal<const N: usize>(a: &[u8; N], b: &[u8; N]) -> (r: bool)
    ensures
        r == (a@ == b@),
{
    let mut i: usize = 0;
    while i < N
        invariant
            i <= N,
            a@.len() == N,
            b@.len() == N,
            forall|j: int| 0 <= j < i ==> a@[j] == b@[j],
        decreases N - i,
    {
        if a[i] != b[i] {
            return false;
        }
        i = i + 1;
    }
    assert(a@ =~= b@);
    true
}

impl PublicKey {
    /// Whether `self` and `other` are the same key.
    pub fn same_as(&self, other: &PublicKey) -> (r: bool)
        ensures
            r == (*self == *other),
    {
        let r = bytes_equal(&self.bytes, &other.bytes);
        proof {
            if r {
                assert(self.bytes =~= other.bytes);
            }
        }
        r
    }
}

impl Hash256 {
    /// Whether `self` and `other` are the same hash.
    pub fn same_as(&self, other: &Hash256) -> (r: bool)
        ensures
            r == (*self == *other),
    {
        let r = bytes_equal(&self.bytes, &other.bytes);
        proof {
            if r {
                assert(self.bytes =~= other.bytes);
            }
        }
        r
    }
}

impl Signature {
    /// The placeholder of an unsigned message: all bytes zero.
    pub open spec fn spec_is_empty(self) -> bool {
        forall|i: int| 0 <= i < 96 ==> self.bytes@[i] == 0
    }

    /// The placeholder of an unsigned message: all bytes zero.
    pub fn empty_signature() -> (r: Signature)
        ensures
            r.spec_is_empty(),
    {
        Signature { bytes: [0u8; 96] }
    }
}

} // verus!
