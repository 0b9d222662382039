//! Canonical byte encoding and Merkle commitments of consensus values.
//!
//! Integers are little-endian and fixed width; a list is framed by a
//! four-byte little-endian count of the bytes of its items.
use vstd::prelude::*;

verus! {

/// Why a byte string could not be decoded.
#[derive(Debug, Clone, Copy, PartialEq, Eq, Structural)]
pub enum DecodeError {
    /// Fewer bytes remain than the value needs.
    OutOfBounds,
    /// A declared length does not fit the items it frames.
    InvalidLength,
    /// A byte holds no value of its type (a boolean other than 0 or 1).
    InvalidValue,
}

/// The Keccak-256 digest of a byte string.
pub uninterp spec fn keccak256_of(data: Seq<u8>) -> Seq<u8>;

/// Relies on tiny_keccak::keccak256: the 32-byte Keccak-256 digest of `data`.
#[verifier::external_body]
pub(crate) fn keccak256(data: &Vec<u8>) -> (r: Vec<u8>)
    ensures
        r@ == keccak256_of(data@),
        r@.len() == 32,
{
    tiny_keccak::keccak256(data.as_slice()).to_vec()
}

/// The eight little-endian bytes of `x`.
pub open spec fn le_u64(x: u64) -> Seq<u8> {
    seq![
        (x & 0xff) as u8,
        ((x >> 8u64) & 0xff) as u8,
        ((x >> 16u64) & 0xff) as u8,
        ((x >> 24u64) & 0xff) as u8,
        ((x >> 32u64) & 0xff) as u8,
        ((x >> 40u64) & 0xff) as u8,
        ((x >> 48u64) & 0xff) as u8,
        ((x >> 56u64) & 0xff) as u8,
    ]
}

/// The four little-endian bytes of `x`.
pub open spec fn le_u32(x: u32) -> Seq<u8> {
    seq![
        (x & 0xff) as u8,
        ((x >> 8u32) & 0xff) as u8,
        ((x >> 16u32) & 0xff) as u8,
        ((x >> 24u32) & 0xff) as u8,
    ]
}

proof fn lemma_le_u64_injective(x: u64, y: u64)
    requires
        le_u64(x) == le_u64(y),
    ensures
        x == y,
{
    assert(le_u64(x)[0] == le_u64(y)[0]);
    assert(le_u64(x)[1] == le_u64(y)[1]);
    assert(le_u64(x)[2] == le_u64(y)[2]);
    assert(le_u64(x)[3] == le_u64(y)[3]);
    assert(le_u64(x)[4] == le_u64(y)[4]);
    assert(le_u64(x)[5] == le_u64(y)[5]);
    assert(le_u64(x)[6] == le_u64(y)[6]);
    assert(le_u64(x)[7] == le_u64(y)[7]);
    assert(((x & 0xff) as u8 == (y & 0xff) as u8 && ((x >> 8u64) & 0xff) as u8 == ((y
        >> 8u64) & 0xff) as u8 && ((x >> 16u64) & 0xff) as u8 == ((y >> 16u64) & 0xff) as u8
        && ((x >> 24u64) & 0xff) as u8 == ((y >> 24u64) & 0xff) as u8 && ((x >> 32u64) & 0xff)
        as u8 == ((y >> 32u64) & 0xff) as u8 && ((x >> 40u64) & 0xff) as u8 == ((y >> 40u64)
        & 0xff) as u8 && ((x >> 48u64) & 0xff) as u8 == ((y >> 48u64) & 0xff) as u8 && ((x
        >> 56u64) & 0xff) as u8 == ((y >> 56u64) & 0xff) as u8) ==> x == y) by (bit_vector);
}

/// Appends the encoding of `x` to `out`.
pub fn encode_u64(out: &mut Vec<u8>, x: u64)
    ensures
        final(out)@ == old(out)@ + le_u64(x),
{
    out.push((x & 0xff) as u8);
    out.push(((x >> 8u64) & 0xff) as u8);
    out.push(((x >> 16u64) & 0xff) as u8);
    out.push(((x >> 24u64) & 0xff) as u8);
    out.push(((x >> 32u64) & 0xff) as u8);
    out.push(((x >> 40u64) & 0xff) as u8);
    out.push(((x >> 48u64) & 0xff) as u8);
    out.push(((x >> 56u64) & 0xff) as u8);
    assert(final(out)@ =~= old(out)@ + le_u64(x));
}


proof fn lemma_le_u64_of_bytes(b0: u8, b1: u8, b2: u8, b3: u8, b4: u8, b5: u8, b6: u8, b7: u8, x: u64)
    requires
        x == (b0 as u64) | ((b1 as u64) << 8u64) | ((b2 as u64) << 16u64) | ((b3 as u64) << 24u64)
            | ((b4 as u64) << 32u64) | ((b5 as u64) << 40u64) | ((b6 as u64) << 48u64) | ((b7
            as u64) << 56u64),
    ensures
        le_u64(x) == seq![b0, b1, b2, b3, b4, b5, b6, b7],
{
    assert((x & 0xff) as u8 == b0 && ((x >> 8u64) & 0xff) as u8 == b1 && ((x >> 16u64) & 0xff)
        as u8 == b2 && ((x >> 24u64) & 0xff) as u8 == b3 && ((x >> 32u64) & 0xff) as u8 == b4
        && ((x >> 40u64) & 0xff) as u8 == b5 && ((x >> 48u64) & 0xff) as u8 == b6 && ((x
        >> 56u64) & 0xff) as u8 == b7) by (bit_vector)
        requires
            x == (b0 as u64) | ((b1 as u64) << 8u64) | ((b2 as u64) << 16u64) | ((b3 as u64)
                << 24u64) | ((b4 as u64) << 32u64) | ((b5 as u64) << 40u64) | ((b6 as u64)
                << 48u64) | ((b7 as u64) << 56u64),
    ;
    assert(le_u64(x) =~= seq![b0, b1, b2, b3, b4, b5, b6, b7]);
}

/// Reads the integer whose eight bytes start at `off`.
pub fn decode_u64(bytes: &Vec<u8>, off: usize) -> (r: u64)
    requires
        off + 8 <= bytes@.len(),
    ensures
        bytes@.subrange(off as int, off + 8) == le_u64(r),
{
    let _n = bytes.len();
    let b0 = bytes[off];
    let b1 = bytes[off + 1];
    let b2 = bytes[off + 2];
    let b3 = bytes[off + 3];
    let b4 = bytes[off + 4];
    let b5 = bytes[off + 5];
    let b6 = bytes[off + 6];
    let b7 = bytes[off + 7];
    let x: u64 = (b0 as u64) | ((b1 as u64) << 8u64) | ((b2 as u64) << 16u64) | ((b3 as u64)
        << 24u64) | ((b4 as u64) << 32u64) | ((b5 as u64) << 40u64) | ((b6 as u64) << 48u64)
        | ((b7 as u64) << 56u64);
    proof {
        lemma_le_u64_of_bytes(b0, b1, b2, b3, b4, b5, b6, b7, x);
        assert(bytes@.subrange(off as int, off + 8) =~= seq![b0, b1, b2, b3, b4, b5, b6, b7]);
    }
    x
}

proof fn lemma_le_u32_injective(x: u32, y: u32)
    requires
        le_u32(x) == le_u32(y),
    ensures
        x == y,
{
    assert(le_u32(x)[0] == le_u32(y)[0]);
    assert(le_u32(x)[1] == le_u32(y)[1]);
    assert(le_u32(x)[2] == le_u32(y)[2]);
    assert(le_u32(x)[3] == le_u32(y)[3]);
    assert(((x & 0xff) as u8 == (y & 0xff) as u8 && ((x >> 8u32) & 0xff) as u8 == ((y
        >> 8u32) & 0xff) as u8 && ((x >> 16u32) & 0xff) as u8 == ((y >> 16u32) & 0xff) as u8
        && ((x >> 24u32) & 0xff) as u8 == ((y >> 24u32) & 0xff) as u8) ==> x == y)
        by (bit_vector);
}

/// Appends the encoding of `x` to `out`.
pub fn encode_u32(out: &mut Vec<u8>, x: u32)
    ensures
        final(out)@ == old(out)@ + le_u32(x),
{
    out.push((x & 0xff) as u8);
    out.push(((x >> 8u32) & 0xff) as u8);
    out.push(((x >> 16u32) & 0xff) as u8);
    out.push(((x >> 24u32) & 0xff) as u8);
    assert(final(out)@ =~= old(out)@ + le_u32(x));
}

/// Reads the integer whose four bytes start at `off`.
pub fn decode_u32(bytes: &Vec<u8>, off: usize) -> (r: u32)
    requires
        off + 4 <= bytes@.len(),
    ensures
        bytes@.subrange(off as int, off + 4) == le_u32(r),
{
    let _n = bytes.len();
    let b0 = bytes[off];
    let b1 = bytes[off + 1];
    let b2 = bytes[off + 2];
    let b3 = bytes[off + 3];
    let x: u32 = (b0 as u32) | ((b1 as u32) << 8u32) | ((b2 as u32) << 16u32) | ((b3 as u32)
        << 24u32);
    proof {
        assert((x & 0xff) as u8 == b0 && ((x >> 8u32) & 0xff) as u8 == b1 && ((x >> 16u32)
            & 0xff) as u8 == b2 && ((x >> 24u32) & 0xff) as u8 == b3) by (bit_vector)
            requires
                x == (b0 as u32) | ((b1 as u32) << 8u32) | ((b2 as u32) << 16u32) | ((b3
                    as u32) << 24u32),
        ;
        assert(bytes@.subrange(off as int, off + 4) =~= le_u32(x));
    }
    x
}


/// Appends the bytes of `a` to `out`.
pub fn encode_bytes<const N: usize>(out: &mut Vec<u8>, a: &[u8; N])
    ensures
        final(out)@ == old(out)@ + a@,
{
    let mut i: usize = 0;
    while i < N
        invariant
            i <= N,
            a@.len() == N,
            out@ == old(out)@ + a@.subrange(0, i as int),
        decreases N - i,
    {
        out.push(a[i]);
        i = i + 1;
        assert(a@.subrange(0, i as int) =~= a@.subrange(0, i - 1) + seq![a@[i - 1]]);
        assert(out@ =~= old(out)@ + a@.subrange(0, i as int));
    }
    assert(a@.subrange(0, N as int) =~= a@);
}

/// Reads the `N` bytes that start at `off`.
pub fn decode_bytes<const N: usize>(bytes: &Vec<u8>, off: usize) -> (r: [u8; N])
    requires
        off + N <= bytes@.len(),
    ensures
        r@ == bytes@.subrange(off as int, off + N),
{
    let _n = bytes.len();
    let mut a: [u8; N] = [0u8; N];
    let mut i: usize = 0;
    while i < N
        invariant
            i <= N,
            off + N <= bytes@.len(),
            bytes@.len() == _n,
            a@.len() == N,
            forall|j: int| 0 <= j < i ==> a@[j] == bytes@[off + j],
        decreases N - i,
    {
        a[i] = bytes[off + i];
        i = i + 1;
    }
    assert(a@ =~= bytes@.subrange(off as int, off + N));
    a
}

/// A value whose encoding has one length for every value of its type.
pub trait FixedCodec: Sized + Copy {
    /// The length of every encoding of the type.
    spec fn spec_size() -> nat;

    /// The encoding of `self`.
    spec fn spec_encode(self) -> Seq<u8>;

    /// The commitment to `self`.
    spec fn spec_root(self) -> Seq<u8>;

    /// Every encoding has the type's length, and that length is not zero.
    proof fn lemma_encoding_size(self)
        ensures
            self.spec_encode().len() == Self::spec_size(),
            Self::spec_size() > 0,
    ;

    /// Two values with one encoding are one value.
    proof fn lemma_encoding_injective(self, other: Self)
        requires
            self.spec_encode() == other.spec_encode(),
        ensures
            self == other,
    ;

    /// The length of every encoding of the type.
    fn size() -> (r: usize)
        ensures
            r == Self::spec_size(),
            r > 0,
    ;

    /// Appends the encoding of `self` to `out`.
    fn encode_into(&self, out: &mut Vec<u8>)
        ensures
            final(out)@ == old(out)@ + self.spec_encode(),
    ;

    /// Reads the value encoded at `off`. It is the one value whose encoding
    /// the bytes there are; where there is none, the error is `InvalidValue`.
    fn decode_at(bytes: &Vec<u8>, off: usize) -> (r: Result<Self, DecodeError>)
        requires
            off + Self::spec_size() <= bytes@.len(),
        ensures
            r matches Ok(v) ==> bytes@.subrange(off as int, off + Self::spec_size())
                == v.spec_encode(),
            forall|v: Self|
                bytes@.subrange(off as int, off + Self::spec_size()) == #[trigger] v.spec_encode()
                    ==> r == Ok::<Self, DecodeError>(v),
            r matches Err(e) ==> e == DecodeError::InvalidValue,
    ;

    /// The 32-byte commitment to `self`.
    fn hash_tree_root(&self) -> (r: Vec<u8>)
        ensures
            r@ == self.spec_root(),
            r@.len() == 32,
    ;
}

impl FixedCodec for u64 {
    open spec fn spec_size() -> nat {
        8
    }

    open spec fn spec_encode(self) -> Seq<u8> {
        le_u64(self)
    }

    open spec fn spec_root(self) -> Seq<u8> {
        keccak256_of(le_u64(self))
    }

    proof fn lemma_encoding_size(self) {
    }

    proof fn lemma_encoding_injective(self, other: Self) {
        lemma_le_u64_injective(self, other);
    }

    fn size() -> (r: usize) {
        8
    }

    fn encode_into(&self, out: &mut Vec<u8>) {
        encode_u64(out, *self);
    }

    fn decode_at(bytes: &Vec<u8>, off: usize) -> (r: Result<Self, DecodeError>) {
        let x = decode_u64(bytes, off);
        proof {
            assert forall|v: u64| bytes@.subrange(off as int, off + 8) == #[trigger] v.spec_encode()
                implies v == x by {
                lemma_le_u64_injective(v, x);
            }
        }
        Ok(x)
    }

    fn hash_tree_root(&self) -> (r: Vec<u8>) {
        let mut buf: Vec<u8> = Vec::new();
        encode_u64(&mut buf, *self);
        proof {
            assert(buf@ =~= le_u64(*self));
        }
        keccak256(&buf)
    }
}

impl FixedCodec for bool {
    open spec fn spec_size() -> nat {
        1
    }

    open spec fn spec_encode(self) -> Seq<u8> {
        if self {
            seq![1u8]
        } else {
            seq![0u8]
        }
    }

    open spec fn spec_root(self) -> Seq<u8> {
        keccak256_of(self.spec_encode())
    }

    proof fn lemma_encoding_size(self) {
    }

    proof fn lemma_encoding_injective(self, other: Self) {
        assert(self.spec_encode()[0] == other.spec_encode()[0]);
        assert(true.spec_encode()[0] == 1u8);
        assert(false.spec_encode()[0] == 0u8);
    }

    fn size() -> (r: usize) {
        1
    }

    fn encode_into(&self, out: &mut Vec<u8>) {
        if *self {
            out.push(1u8);
        } else {
            out.push(0u8);
        }
    }

    fn decode_at(bytes: &Vec<u8>, off: usize) -> (r: Result<Self, DecodeError>) {
        let b = bytes[off];
        proof {
            assert(true.spec_encode() =~= seq![1u8]);
            assert(false.spec_encode() =~= seq![0u8]);
            assert(bytes@.subrange(off as int, off + 1) =~= seq![b]);
        }
        if b == 0 {
            proof {
                assert forall|v: bool| bytes@.subrange(off as int, off + 1)
                    == #[trigger] v.spec_encode() implies v == false by {
                    assert(v.spec_encode()[0] == b);
                }
            }
            Ok(false)
        } else if b == 1 {
            proof {
                assert forall|v: bool| bytes@.subrange(off as int, off + 1)
                    == #[trigger] v.spec_encode() implies v == true by {
                    assert(v.spec_encode()[0] == b);
                }
            }
            Ok(true)
        } else {
            proof {
                assert forall|v: bool| bytes@.subrange(off as int, off + 1)
                    != #[trigger] v.spec_encode() by {
                    assert(v.spec_encode()[0] != b);
                }
            }
            Err(DecodeError::InvalidValue)
        }
    }

    fn hash_tree_root(&self) -> (r: Vec<u8>) {
        let mut buf: Vec<u8> = Vec::new();
        self.encode_into(&mut buf);
        proof {
            assert(buf@ =~= self.spec_encode());
        }
        keccak256(&buf)
    }
}


/// The encodings of the items of `s`, one after another.
pub open spec fn flat<T: FixedCodec>(s: Seq<T>) -> Seq<u8>
    decreases s.len(),
{
    if s.len() == 0 {
        Seq::empty()
    } else {
        flat(s.drop_last()) + s.last().spec_encode()
    }
}

/// The bytes of `bytes` from `off` on start with `e`.
pub open spec fn encodes_at(bytes: Seq<u8>, off: int, e: Seq<u8>) -> bool {
    0 <= off && off + e.len() <= bytes.len() && bytes.subrange(off, off + e.len()) == e
}

/// The encoding of a list: the byte count of its items, then the items.
pub open spec fn list_encoding<T: FixedCodec>(s: Seq<T>) -> Seq<u8> {
    le_u32(flat(s).len() as u32) + flat(s)
}

/// A list whose items fit the four-byte length of its encoding.
pub open spec fn list_fits<T: FixedCodec>(s: Seq<T>) -> bool {
    flat(s).len() < 0x1_0000_0000
}

/// The commitments to the items of `s`, one after another.
pub open spec fn flat_roots<T: FixedCodec>(s: Seq<T>) -> Seq<u8>
    decreases s.len(),
{
    if s.len() == 0 {
        Seq::empty()
    } else {
        flat_roots(s.drop_last()) + s.last().spec_root()
    }
}

/// The commitment to a list: the digest of its items' commitments.
pub open spec fn list_root<T: FixedCodec>(s: Seq<T>) -> Seq<u8> {
    keccak256_of(flat_roots(s))
}

proof fn lemma_flat_len<T: FixedCodec>(s: Seq<T>)
    ensures
        flat(s).len() == s.len() * T::spec_size(),
    decreases s.len(),
{
    if s.len() > 0 {
        lemma_flat_len(s.drop_last());
        s.last().lemma_encoding_size();
        assert(s.len() * T::spec_size() == (s.len() - 1) * T::spec_size() + T::spec_size())
            by (nonlinear_arith);
    }
}

proof fn lemma_flat_item<T: FixedCodec>(s: Seq<T>, i: int)
    requires
        0 <= i < s.len(),
    ensures
        0 <= i * T::spec_size(),
        (i + 1) * T::spec_size() <= flat(s).len(),
        flat(s).subrange(i * T::spec_size(), (i + 1) * T::spec_size()) == s[i].spec_encode(),
    decreases s.len(),
{
    let k = T::spec_size();
    s[i].lemma_encoding_size();
    lemma_flat_len(s);
    lemma_flat_len(s.drop_last());
    assert(0 <= i * k) by (nonlinear_arith)
        requires
            0 <= i,
    ;
    assert((i + 1) * k <= s.len() * k) by (nonlinear_arith)
        requires
            i + 1 <= s.len(),
    ;
    assert((i + 1) * k == i * k + k) by (nonlinear_arith);
    if i == s.len() - 1 {
        assert(flat(s).subrange(i * k, (i + 1) * k) =~= s[i].spec_encode());
    } else {
        lemma_flat_item(s.drop_last(), i);
        assert((i + 1) * k <= (s.len() - 1) * k) by (nonlinear_arith)
            requires
                i + 1 <= s.len() - 1,
        ;
        assert(flat(s).subrange(i * k, (i + 1) * k) =~= flat(s.drop_last()).subrange(
            i * k,
            (i + 1) * k,
        ));
    }
}

proof fn lemma_flat_injective<T: FixedCodec>(a: Seq<T>, b: Seq<T>)
    requires
        flat(a) == flat(b),
    ensures
        a == b,
{
    lemma_flat_len(a);
    lemma_flat_len(b);
    let k = T::spec_size();
    if a.len() > 0 {
        a[0].lemma_encoding_size();
    }
    if b.len() > 0 {
        b[0].lemma_encoding_size();
    }
    if a.len() != b.len() {
        assert(a.len() * k != b.len() * k) by (nonlinear_arith)
            requires
                a.len() != b.len(),
                k > 0,
        ;
    }
    assert forall|i: int| 0 <= i < a.len() implies a[i] == b[i] by {
        lemma_flat_item(a, i);
        lemma_flat_item(b, i);
        a[i].lemma_encoding_injective(b[i]);
    }
    assert(a =~= b);
}

/// Appends the encoding of the list `items` to `out`.
pub fn encode_list<T: FixedCodec>(out: &mut Vec<u8>, items: &Vec<T>)
    requires
        list_fits(items@),
    ensures
        final(out)@ == old(out)@ + list_encoding(items@),
{
    let k = T::size();
    proof {
        lemma_flat_len(items@);
    }
    let count = items.len();
    assert(count * k == flat(items@).len());
    let payload = (count * k) as u32;
    encode_u32(out, payload);
    let ghost start = out@;
    let mut i: usize = 0;
    while i < count
        invariant
            i <= count,
            count == items@.len(),
            out@ == start + flat(items@.subrange(0, i as int)),
        decreases count - i,
    {
        let ghost before = out@;
        items[i].encode_into(out);
        i = i + 1;
        proof {
            let sub = items@.subrange(0, i as int);
            assert(sub.drop_last() =~= items@.subrange(0, i - 1));
        }
    }
    assert(items@.subrange(0, count as int) =~= items@);
}

/// Reads the list encoded at `off`: its items and the offset after them.
///
/// Where the bytes at `off` start with the encoding of a list, that list
/// comes back; where they start with none, an error does.
pub fn decode_list<T: FixedCodec>(bytes: &Vec<u8>, off: usize) -> (r: Result<
    (Vec<T>, usize),
    DecodeError,
>)
    requires
        off <= bytes@.len(),
    ensures
        r matches Ok((v, n)) ==> encodes_at(bytes@, off as int, list_encoding(v@)) && n == off
            + list_encoding(v@).len() && list_fits(v@),
        forall|s: Seq<T>|
            list_fits(s) && encodes_at(bytes@, off as int, #[trigger] list_encoding(s)) ==> (r matches Ok((v, n)) && v@ == s && n
                == off + list_encoding(s).len()),
        bytes@.len() < off + 4 ==> r == Err::<(Vec<T>, usize), DecodeError>(
            DecodeError::OutOfBounds,
        ),
{
    let len = bytes.len();
    if len - off < 4 {
        return Err(DecodeError::OutOfBounds);
    }
    let payload = decode_u32(bytes, off);
    let k = T::size();
    proof {
        assert forall|s: Seq<T>|
            list_fits(s) && encodes_at(bytes@, off as int, #[trigger] list_encoding(s)) implies payload == flat(s).len() && off + 4 + flat(s).len() <= len
            && bytes@.subrange(off + 4, off + 4 + flat(s).len()) == flat(s) by {
            let e = list_encoding(s);
            assert(bytes@.subrange(off as int, off + 4) =~= e.subrange(0, 4));
            assert(e.subrange(0, 4) =~= le_u32(flat(s).len() as u32));
            lemma_le_u32_injective(payload, flat(s).len() as u32);
            assert(bytes@.subrange(off + 4, off + 4 + flat(s).len()) =~= e.subrange(
                4,
                4 + flat(s).len() as int,
            ));
        }
    }
    if ((len - off - 4) as u64) < (payload as u64) {
        return Err(DecodeError::OutOfBounds);
    }
    let payload = payload as usize;
    if payload % k != 0 {
        proof {
            assert forall|s: Seq<T>|
                list_fits(s) && encodes_at(bytes@, off as int, #[trigger] list_encoding(s)) implies false by {
                lemma_flat_len(s);
                assert((s.len() * k) % (k as int) == 0) by (nonlinear_arith)
                    requires
                        k > 0,
                ;
            }
        }
        return Err(DecodeError::InvalidLength);
    }
    let count = payload / k;
    assert(count * k == payload) by (nonlinear_arith)
        requires
            payload % k == 0,
            count == payload / k,
            k > 0,
    ;
    let start = off + 4;
    let mut items: Vec<T> = Vec::new();
    let mut i: usize = 0;
    while i < count
        invariant
            i <= count,
            count * k == payload,
            k == T::spec_size(),
            k > 0,
            start == off + 4,
            start + payload <= len,
            len == bytes@.len(),
            items@.len() == i,
            bytes@.subrange(start as int, start + i * k) == flat(items@),
            forall|s: Seq<T>|
                list_fits(s) && encodes_at(bytes@, off as int, #[trigger] list_encoding(s))
                    ==> flat(s).len() == payload && bytes@.subrange(
                    start as int,
                    start + payload,
                ) == flat(s),
        decreases count - i,
    {
        assert(i * k + k <= payload) by (nonlinear_arith)
            requires
                i < count,
                count * k == payload,
        ;
        assert((i + 1) * k == i * k + k) by (nonlinear_arith);
        let pos = start + i * k;
        match T::decode_at(bytes, pos) {
            Ok(item) => {
                let ghost before = items@;
                items.push(item);
                proof {
                    assert(items@.drop_last() =~= before);
                    assert(bytes@.subrange(start as int, start + (i + 1) * k) =~= bytes@.subrange(
                        start as int,
                        start + i * k,
                    ) + bytes@.subrange(pos as int, pos + k));
                }
                i = i + 1;
            },
            Err(e) => {
                proof {
                    assert forall|s: Seq<T>|
                        list_fits(s) && encodes_at(bytes@, off as int, #[trigger] list_encoding(s)) implies false by {
                        lemma_flat_len(s);
                        assert(s.len() == count) by (nonlinear_arith)
                            requires
                                s.len() * k == count * k,
                                k > 0,
                        ;
                        lemma_flat_item(s, i as int);
                        assert(bytes@.subrange(pos as int, pos + k) =~= flat(s).subrange(
                            i * k,
                            (i + 1) * k,
                        ));
                    }
                }
                return Err(e);
            },
        }
    }
    let n = start + payload;
    proof {
        assert(bytes@.subrange(off as int, n as int) =~= le_u32(payload as u32) + bytes@.subrange(
            start as int,
            n as int,
        ));
        assert forall|s: Seq<T>|
            list_fits(s) && encodes_at(bytes@, off as int, #[trigger] list_encoding(s)) implies items@ == s && n == off + list_encoding(s).len() by {
            lemma_flat_injective(items@, s);
        }
    }
    Ok((items, n))
}

/// The commitment to the list `items`.
pub fn list_hash_tree_root<T: FixedCodec>(items: &Vec<T>) -> (r: Vec<u8>)
    ensures
        r@ == list_root(items@),
        r@.len() == 32,
{
    let mut buf: Vec<u8> = Vec::new();
    let count = items.len();
    let mut i: usize = 0;
    while i < count
        invariant
            i <= count,
            count == items@.len(),
            buf@ == flat_roots(items@.subrange(0, i as int)),
        decreases count - i,
    {
        let mut root = items[i].hash_tree_root();
        buf.append(&mut root);
        i = i + 1;
        proof {
            assert(items@.subrange(0, i as int).drop_last() =~= items@.subrange(0, i - 1));
        }
    }
    assert(items@.subrange(0, count as int) =~= items@);
    keccak256(&buf)
}


/// Where the bytes from `off` on start with `a + c`, they start with `a`, and
/// the bytes after `a` start with `c`.
pub proof fn lemma_encodes_at_split(bytes: Seq<u8>, off: int, a: Seq<u8>, c: Seq<u8>)
    ensures
        encodes_at(bytes, off, a + c) <==> (encodes_at(bytes, off, a) && encodes_at(
            bytes,
            off + a.len(),
            c,
        )),
{
    if encodes_at(bytes, off, a + c) {
        assert(bytes.subrange(off, off + a.len()) =~= (a + c).subrange(0, a.len() as int));
        assert((a + c).subrange(0, a.len() as int) =~= a);
        assert(bytes.subrange(off + a.len(), off + a.len() + c.len()) =~= (a + c).subrange(
            a.len() as int,
            (a.len() + c.len()) as int,
        ));
        assert((a + c).subrange(a.len() as int, (a.len() + c.len()) as int) =~= c);
    }
    if encodes_at(bytes, off, a) && encodes_at(bytes, off + a.len(), c) {
        assert(bytes.subrange(off, off + (a + c).len()) =~= bytes.subrange(off, off + a.len())
            + bytes.subrange(off + a.len(), off + a.len() + c.len()));
    }
}

/// Reads the fixed-size value encoded at `off`, and the offset after it.
pub fn decode_fixed<T: FixedCodec>(bytes: &Vec<u8>, off: usize) -> (r: Result<
    (T, usize),
    DecodeError,
>)
    requires
        off <= bytes@.len(),
    ensures
        r matches Ok((v, n)) ==> encodes_at(bytes@, off as int, v.spec_encode()) && n == off
            + T::spec_size(),
        forall|v: T|
            encodes_at(bytes@, off as int, #[trigger] v.spec_encode()) ==> r == Ok::<
                (T, usize),
                DecodeError,
            >((v, (off + T::spec_size()) as usize)),
        bytes@.len() < off + T::spec_size() ==> r == Err::<(T, usize), DecodeError>(
            DecodeError::OutOfBounds,
        ),
{
    let len = bytes.len();
    let k = T::size();
    if len - off < k {
        proof {
            assert forall|v: T| encodes_at(bytes@, off as int, #[trigger] v.spec_encode())
                implies false by {
                v.lemma_encoding_size();
            }
        }
        return Err(DecodeError::OutOfBounds);
    }
    let r = T::decode_at(bytes, off);
    proof {
        assert forall|v: T| encodes_at(bytes@, off as int, #[trigger] v.spec_encode()) implies r
            == Ok::<T, DecodeError>(v) by {
            v.lemma_encoding_size();
        }
    }
    match r {
        Ok(v) => {
            proof {
                v.lemma_encoding_size();
            }
            Ok((v, off + k))
        },
        Err(e) => Err(e),
    }
}


/// Encoding and hashing are functions of the value: equal values have one
/// encoding and one commitment.
pub proof fn lemma_fixed_deterministic<T: FixedCodec>(a: T, b: T)
    requires
        a == b,
    ensures
        a.spec_encode() == b.spec_encode(),
        a.spec_root() == b.spec_root(),
{
}

/// Encoding and hashing of lists are functions of the items: lists with equal
/// items have one encoding and one commitment.
pub proof fn lemma_list_deterministic<T: FixedCodec>(a: Seq<T>, b: Seq<T>)
    requires
        a =~= b,
    ensures
        list_encoding(a) == list_encoding(b),
        list_root(a) == list_root(b),
{
}

/// Two lists whose encodings are equal are equal.
pub proof fn lemma_list_encoding_injective<T: FixedCodec>(a: Seq<T>, b: Seq<T>)
    requires
        list_fits(a),
        list_fits(b),
        list_encoding(a) == list_encoding(b),
    ensures
        a == b,
{
    assert(list_encoding(a).subrange(4, list_encoding(a).len() as int) =~= flat(a));
    assert(list_encoding(b).subrange(4, list_encoding(b).len() as int) =~= flat(b));
    lemma_flat_injective(a, b);
}

} // verus!
