//! Deposits: the records from which the validator registry is built.
use vstd::prelude::*;

use crate::codec::{
    decode_fixed, decode_list, encode_list, encodes_at, keccak256, keccak256_of,
    lemma_encodes_at_split, list_encoding, list_fits, list_hash_tree_root, list_root, DecodeError,
    FixedCodec,
};
use crate::primitives::Hash256;
use crate::records::DepositData;

verus! {

/// A deposit with its Merkle branch in the deposit tree.
#[derive(Debug, Clone, PartialEq, Eq)]
pub struct Deposit {
    /// The Merkle branch of the deposit.
    pub branch: Vec<Hash256>,
    /// The deposit's index in the tree.
    pub index: u64,
    /// What was deposited.
    pub deposit_data: DepositData,
}

/// The encoding of a `Deposit` with these fields: their encodings in order.
pub open spec fn deposit_encoding(branch: Seq<Hash256>, index: u64, deposit_data: DepositData) -> Seq<u8> {
    list_encoding(branch) + index.spec_encode() + deposit_data.spec_encode()
}

/// The commitment to a `Deposit` with these fields: the digest of their
/// commitments in order.
pub open spec fn deposit_root(branch: Seq<Hash256>, index: u64, deposit_data: DepositData) -> Seq<u8> {
    keccak256_of(list_root(branch) + index.spec_root() + deposit_data.spec_root())
}

/// The bytes from `off` on start with the encoding of a `Deposit` exactly
/// where they hold the encoding of each field, one after another.
pub proof fn lemma_deposit_encoding_at(bytes: Seq<u8>, off: int, branch: Seq<Hash256>, index: u64, deposit_data: DepositData)
    ensures
        encodes_at(bytes, off, deposit_encoding(branch, index, deposit_data)) <==> (encodes_at(bytes, off, list_encoding(branch)) && encodes_at(bytes, off + list_encoding(branch).len(), index.spec_encode()) && encodes_at(bytes, off + list_encoding(branch).len() + index.spec_encode().len(), deposit_data.spec_encode())),
{
    lemma_encodes_at_split(bytes, off, list_encoding(branch) + index.spec_encode(), deposit_data.spec_encode());
    lemma_encodes_at_split(bytes, off, list_encoding(branch), index.spec_encode());
}

impl Deposit {
    /// Every list of the value fits the four-byte length of its encoding.
    pub open spec fn fits(&self) -> bool {
        list_fits(self.branch@)
    }

    /// The encoding of `self`.
    pub open spec fn spec_encode(&self) -> Seq<u8> {
        deposit_encoding(self.branch@, self.index, self.deposit_data)
    }

    /// The commitment to `self`.
    pub open spec fn spec_root(&self) -> Seq<u8> {
        deposit_root(self.branch@, self.index, self.deposit_data)
    }

    /// Appends the encoding of `self` to `out`.
    pub fn ssz_append(&self, out: &mut Vec<u8>)
        requires
            self.fits(),
        ensures
            final(out)@ == old(out)@ + self.spec_encode(),
    {
        let ghost start = out@;
        encode_list(out, &self.branch);
        self.index.encode_into(out);
        self.deposit_data.encode_into(out);
        assert(out@ =~= start + self.spec_encode());
    }

    /// Reads the value encoded at `off`, and the offset after it.
    ///
    /// Where the bytes at `off` start with the encoding of a value, that value
    /// comes back; where they start with none, an error does.
    pub fn ssz_decode(bytes: &Vec<u8>, off: usize) -> (r: Result<(Deposit, usize), DecodeError>)
        requires
            off <= bytes@.len(),
        ensures
            r matches Ok((v, n)) ==> v.fits() && encodes_at(bytes@, off as int, v.spec_encode()) && n == off + v.spec_encode().len(),
            forall|branch: Seq<Hash256>, index: u64, deposit_data: DepositData|
                list_fits(branch) && encodes_at(bytes@, off as int, #[trigger] deposit_encoding(branch, index, deposit_data)) ==> (r matches Ok((v, n)) && v.branch@ == branch && v.index == index && v.deposit_data == deposit_data && n == off + deposit_encoding(branch, index, deposit_data).len()),
    {
        let (branch, n_branch) = match decode_list::<Hash256>(bytes, off) {
            Ok(x) => x,
            Err(e) => {
                proof {
                    assert forall|branch: Seq<Hash256>, index: u64, deposit_data: DepositData| list_fits(branch) && encodes_at(bytes@, off as int, #[trigger] deposit_encoding(branch, index, deposit_data)) implies false by {
                        lemma_deposit_encoding_at(bytes@, off as int, branch, index, deposit_data);
                    }
                }
                return Err(e);
            },
        };
        let (index, n_index) = match decode_fixed::<u64>(bytes, n_branch) {
            Ok(x) => x,
            Err(e) => {
                proof {
                    assert forall|branch: Seq<Hash256>, index: u64, deposit_data: DepositData| list_fits(branch) && encodes_at(bytes@, off as int, #[trigger] deposit_encoding(branch, index, deposit_data)) implies false by {
                        lemma_deposit_encoding_at(bytes@, off as int, branch, index, deposit_data);
                    }
                }
                return Err(e);
            },
        };
        let (deposit_data, n_deposit_data) = match decode_fixed::<DepositData>(bytes, n_index) {
            Ok(x) => x,
            Err(e) => {
                proof {
                    assert forall|branch: Seq<Hash256>, index: u64, deposit_data: DepositData| list_fits(branch) && encodes_at(bytes@, off as int, #[trigger] deposit_encoding(branch, index, deposit_data)) implies false by {
                        lemma_deposit_encoding_at(bytes@, off as int, branch, index, deposit_data);
                    }
                }
                return Err(e);
            },
        };
        let v = Deposit { branch, index, deposit_data };
        proof {
            assert forall|branch: Seq<Hash256>, index: u64, deposit_data: DepositData| list_fits(branch) && encodes_at(bytes@, off as int, #[trigger] deposit_encoding(branch, index, deposit_data)) implies (v.branch@ == branch && v.index == index && v.deposit_data == deposit_data && n_deposit_data == off + deposit_encoding(branch, index, deposit_data).len()) by {
                lemma_deposit_encoding_at(bytes@, off as int, branch, index, deposit_data);
            }
            lemma_deposit_encoding_at(bytes@, off as int, v.branch@, v.index, v.deposit_data);
        }
        Ok((v, n_deposit_data))
    }

    /// The 32-byte commitment to `self`.
    pub fn hash_tree_root(&self) -> (r: Vec<u8>)
        ensures
            r@ == self.spec_root(),
            r@.len() == 32,
    {
        let mut buf: Vec<u8> = Vec::new();
        let mut branch = list_hash_tree_root(&self.branch);
        buf.append(&mut branch);
        let mut index = self.index.hash_tree_root();
        buf.append(&mut index);
        let mut deposit_data = self.deposit_data.hash_tree_root();
        buf.append(&mut deposit_data);
        assert(buf@ =~= list_root(self.branch@) + self.index.spec_root() + self.deposit_data.spec_root());
        keccak256(&buf)
    }
}

} // verus!
