//! The fork record, and the signature domains derived from it.
use vstd::prelude::*;

use crate::codec::{keccak256, keccak256_of, DecodeError, FixedCodec};

verus! {

/// The protocol versions in force before and from an epoch.
#[derive(Debug, Clone, Copy, PartialEq, Eq)]
pub struct Fork {
    /// The version before `epoch`.
    pub previous_version: u64,
    /// The version from `epoch` on.
    pub current_version: u64,
    /// The first epoch of `current_version`.
    pub epoch: u64,
}

/// The encoding of a `Fork` has 24 bytes, and each field's encoding stands
/// at its offset.
pub proof fn lemma_fork_fields(v: Fork)
    ensures
        v.spec_encode().len() == 24,
        v.spec_encode().subrange(0, 8) == v.previous_version.spec_encode(),
        v.spec_encode().subrange(8, 16) == v.current_version.spec_encode(),
        v.spec_encode().subrange(16, 24) == v.epoch.spec_encode(),
{
    v.previous_version.lemma_encoding_size();
    v.current_version.lemma_encoding_size();
    v.epoch.lemma_encoding_size();
    assert(v.spec_encode().subrange(0, 8) =~= v.previous_version.spec_encode());
    assert(v.spec_encode().subrange(8, 16) =~= v.current_version.spec_encode());
    assert(v.spec_encode().subrange(16, 24) =~= v.epoch.spec_encode());
}

impl FixedCodec for Fork {
    open spec fn spec_size() -> nat {
        24
    }

    open spec fn spec_encode(self) -> Seq<u8> {
        self.previous_version.spec_encode() + self.current_version.spec_encode() + self.epoch.spec_encode()
    }

    open spec fn spec_root(self) -> Seq<u8> {
        keccak256_of(self.previous_version.spec_root() + self.current_version.spec_root() + self.epoch.spec_root())
    }

    proof fn lemma_encoding_size(self) {
        lemma_fork_fields(self);
    }

    proof fn lemma_encoding_injective(self, other: Self) {
        lemma_fork_fields(self);
        lemma_fork_fields(other);
        self.previous_version.lemma_encoding_injective(other.previous_version);
        self.current_version.lemma_encoding_injective(other.current_version);
        self.epoch.lemma_encoding_injective(other.epoch);
    }

    fn size() -> (r: usize) {
        24
    }

    fn encode_into(&self, out: &mut Vec<u8>) {
        let ghost start = out@;
        self.previous_version.encode_into(out);
        self.current_version.encode_into(out);
        self.epoch.encode_into(out);
        assert(out@ =~= start + self.spec_encode());
    }

    fn decode_at(bytes: &Vec<u8>, off: usize) -> (r: Result<Self, DecodeError>) {
        let _n = bytes.len();
        let previous_version = match <u64 as FixedCodec>::decode_at(bytes, off + 0) {
            Ok(x) => x,
            Err(e) => {
                proof {
                    assert forall|w: Fork| bytes@.subrange(off as int, off + 24) == #[trigger] w.spec_encode() implies false by {
                        lemma_fork_fields(w);
                        assert(bytes@.subrange(off + 0, off + 8) =~= w.spec_encode().subrange(0, 8));
                    }
                }
                return Err(e);
            },
        };
        let current_version = match <u64 as FixedCodec>::decode_at(bytes, off + 8) {
            Ok(x) => x,
            Err(e) => {
                proof {
                    assert forall|w: Fork| bytes@.subrange(off as int, off + 24) == #[trigger] w.spec_encode() implies false by {
                        lemma_fork_fields(w);
                        assert(bytes@.subrange(off + 8, off + 16) =~= w.spec_encode().subrange(8, 16));
                    }
                }
                return Err(e);
            },
        };
        let epoch = match <u64 as FixedCodec>::decode_at(bytes, off + 16) {
            Ok(x) => x,
            Err(e) => {
                proof {
                    assert forall|w: Fork| bytes@.subrange(off as int, off + 24) == #[trigger] w.spec_encode() implies false by {
                        lemma_fork_fields(w);
                        assert(bytes@.subrange(off + 16, off + 24) =~= w.spec_encode().subrange(16, 24));
                    }
                }
                return Err(e);
            },
        };
        let v = Fork { previous_version, current_version, epoch };
        proof {
            lemma_fork_fields(v);
            assert(bytes@.subrange(off as int, off + 24).subrange(0, 8) =~= bytes@.subrange(off + 0, off + 8));
            assert(bytes@.subrange(off as int, off + 24).subrange(8, 16) =~= bytes@.subrange(off + 8, off + 16));
            assert(bytes@.subrange(off as int, off + 24).subrange(16, 24) =~= bytes@.subrange(off + 16, off + 24));
            assert(bytes@.subrange(off as int, off + 24) =~= v.spec_encode());
            assert forall|w: Fork| bytes@.subrange(off as int, off + 24) == #[trigger] w.spec_encode() implies w == v by {
                w.lemma_encoding_injective(v);
            }
        }
        Ok(v)
    }

    fn hash_tree_root(&self) -> (r: Vec<u8>) {
        let mut buf: Vec<u8> = Vec::new();
        let mut previous_version = self.previous_version.hash_tree_root();
        buf.append(&mut previous_version);
        let mut current_version = self.current_version.hash_tree_root();
        buf.append(&mut current_version);
        let mut epoch = self.epoch.hash_tree_root();
        buf.append(&mut epoch);
        assert(buf@ =~= self.previous_version.spec_root() + self.current_version.spec_root() + self.epoch.spec_root());
        keccak256(&buf)
    }
}

/// The version of `fork` in force at `epoch`.
pub open spec fn fork_version_at(fork: Fork, epoch: u64) -> u64 {
    if epoch < fork.epoch {
        fork.previous_version
    } else {
        fork.current_version
    }
}

/// The signature domain of `domain_type` at `epoch`: the version in force,
/// times 2^32, plus the domain type.
pub open spec fn domain_at(fork: Fork, epoch: u64, domain_type: u64) -> int {
    fork_version_at(fork, epoch) * 0x1_0000_0000 + domain_type
}

impl Fork {
    /// Return the fork version of the given `epoch`.
    pub fn get_fork_version(&self, epoch: u64) -> (r: u64)
        ensures
            r == fork_version_at(*self, epoch),
    {
        if epoch < self.epoch {
            return self.previous_version;
        }
        self.current_version
    }

    /// Get the domain number that represents the fork meta and signature
    /// domain.
    pub fn get_domain(&self, epoch: u64, domain_type: u64) -> (r: u64)
        requires
            domain_at(*self, epoch, domain_type) <= u64::MAX,
        ensures
            r == domain_at(*self, epoch, domain_type),
    {
        let fork_version = self.get_fork_version(epoch);
        fork_version * 0x1_0000_0000u64 + domain_type
    }
}

} // verus!
