use aes::cipher::{generic_array::GenericArray, BlockDecrypt, BlockEncrypt, KeyInit};
use aes::Aes256;
use vstd::prelude::*;

use crate::types::IsZero;

verus! {

/// AES-256 encryption of one 16-byte block under a 32-byte key.
pub uninterp spec fn aes256_encrypt_of(key: Seq<u8>, block: Seq<u8>) -> Seq<u8>;

/// AES-256 decryption of one 16-byte block under a 32-byte key.
pub uninterp spec fn aes256_decrypt_of(key: Seq<u8>, block: Seq<u8>) -> Seq<u8>;

/// Relies on `aes::Aes256` (`KeyInit::new`, `BlockEncrypt::encrypt_block`): the
/// block encrypted under the key. For a fixed key AES-256 is a permutation of
/// 16-byte blocks whose inverse is `decrypt_block`, so decrypting the result
/// gives the block back.
#[verifier::external_body]
fn aes256_encrypt(key: &[u8; 32], block: [u8; 16]) -> (r: [u8; 16])
    ensures
        r@ == aes256_encrypt_of(key@, block@),
        aes256_decrypt_of(key@, r@) == block@,
{
    let cipher = Aes256::new(&GenericArray::from(*key));
    let mut data = GenericArray::from(block);
    cipher.encrypt_block(&mut data);
    data.into()
}

/// Relies on `aes::Aes256` (`KeyInit::new`, `BlockDecrypt::decrypt_block`): the
/// block decrypted under the key.
#[verifier::external_body]
fn aes256_decrypt(key: &[u8; 32], block: [u8; 16]) -> (r: [u8; 16])
    ensures
        r@ == aes256_decrypt_of(key@, block@),
{
    let cipher = Aes256::new(&GenericArray::from(*key));
    let mut data = GenericArray::from(block);
    cipher.decrypt_block(&mut data);
    data.into()
}

/// Each 16-byte chunk encrypted under `key`.
pub open spec fn encrypt_chunks(key: Seq<u8>, chunks: Seq<Seq<u8>>) -> Seq<Seq<u8>> {
    chunks.map_values(|c: Seq<u8>| aes256_encrypt_of(key, c))
}

/// Each 16-byte chunk decrypted under `key`.
pub open spec fn decrypt_chunks(key: Seq<u8>, chunks: Seq<Seq<u8>>) -> Seq<Seq<u8>> {
    chunks.map_values(|c: Seq<u8>| aes256_decrypt_of(key, c))
}

/// The chunks laid end to end.
pub open spec fn concat_chunks(chunks: Seq<Seq<u8>>) -> Seq<u8>
    decreases chunks.len(),
{
    if chunks.len() == 0 {
        Seq::empty()
    } else {
        concat_chunks(chunks.drop_last()) + chunks.last()
    }
}

/// One chunk laid out is that chunk; two are the first followed by the second.
pub proof fn lemma_concat_small(a: Seq<u8>, b: Seq<u8>)
    ensures
        concat_chunks(seq![a]) == a,
        concat_chunks(seq![a, b]) == a + b,
{
    assert(seq![a].drop_last() =~= Seq::<Seq<u8>>::empty());
    assert(concat_chunks(Seq::<Seq<u8>>::empty()) == Seq::<u8>::empty());
    assert(Seq::<u8>::empty() + a =~= a);
    assert(concat_chunks(seq![a]) == a);
    assert(seq![a, b].drop_last() =~= seq![a]);
    assert(seq![a, b].last() == b);
    assert(concat_chunks(seq![a, b]) == concat_chunks(seq![a]) + b);
}

/// Chunks of 16 bytes each, laid end to end, put chunk `i` at offset `16 * i`.
pub proof fn lemma_concat_uniform(c: Seq<Seq<u8>>)
    requires
        forall|i: int| 0 <= i < c.len() ==> #[trigger] c[i].len() == 16,
    ensures
        concat_chunks(c).len() == 16 * c.len(),
        forall|i: int, j: int|
            0 <= i < c.len() && 0 <= j < 16 ==> concat_chunks(c)[16 * i + j] == #[trigger] c[i][j],
    decreases c.len(),
{
    if c.len() > 0 {
        let d = c.drop_last();
        lemma_concat_uniform(d);
        let n = c.len() - 1;
        assert forall|i: int, j: int| 0 <= i < c.len() && 0 <= j < 16 implies concat_chunks(c)[16
            * i + j] == #[trigger] c[i][j] by {
            if i < n {
                assert(16 * i + j < 16 * n) by (nonlinear_arith)
                    requires
                        i < n,
                        j < 16,
                ;
                assert(d[i] == c[i]);
            } else {
                assert(16 * i + j - 16 * n == j);
            }
        }
    }
}

/// The first `n` bytes of `bytes`, padded with zero bytes where it is shorter.
pub open spec fn fit_bytes(bytes: Seq<u8>, n: nat) -> Seq<u8> {
    Seq::new(n, |i: int| if i < bytes.len() { bytes[i] } else { 0u8 })
}

/// A sequence of `n` zero bytes.
pub open spec fn zero_bytes(n: nat) -> Seq<u8> {
    Seq::new(n, |i: int| 0u8)
}

/// A payload of oblivious transfer: bytes held as 16-byte chunks, each masked
/// on its own with AES-256.
pub trait Block: Sized {
    /// The content, chunk by chunk.
    spec fn chunks(&self) -> Seq<Seq<u8>>;

    /// The chunks that `from_bytes` builds out of a byte string.
    spec fn chunks_from_bytes(bytes: Seq<u8>) -> Seq<Seq<u8>>;

    /// Reading back what `as_bytes` gives returns the same block.
    proof fn lemma_bytes_round_trip(&self)
        ensures
            Self::chunks_from_bytes(concat_chunks(self.chunks())) == self.chunks(),
    ;

    /// Encrypts each chunk under `key`; decrypting the result under the same key
    /// gives this block back.
    fn encrypt(&self, key: &[u8; 32]) -> (r: Self)
        ensures
            r.chunks() == encrypt_chunks(key@, self.chunks()),
            decrypt_chunks(key@, r.chunks()) == self.chunks(),
    ;

    /// Decrypts each chunk under `key`.
    fn decrypt(&self, key: &[u8; 32]) -> (r: Self)
        ensures
            r.chunks() == decrypt_chunks(key@, self.chunks()),
    ;

    /// The content as one byte string.
    fn as_bytes(&self) -> (r: Vec<u8>)
        ensures
            r@ == concat_chunks(self.chunks()),
    ;

    /// Builds a block from bytes, padding short input with zero bytes and
    /// dropping what does not fit.
    fn from_bytes(bytes: &[u8]) -> (r: Self)
        ensures
            r.chunks() == Self::chunks_from_bytes(bytes@),
    ;

    /// The number of bytes that `as_bytes` gives.
    fn bytes_len(&self) -> (r: usize)
        requires
            concat_chunks(self.chunks()).len() <= usize::MAX,
        ensures
            r == concat_chunks(self.chunks()).len(),
    ;
}

/// 128 bits of data: one AES block.
#[derive(Clone, Copy, Debug, PartialEq, Eq, Default)]
pub struct Block128(pub [u8; 16]);

impl Block128 {
    /// The 16 bytes of `bytes` from `offset` on, zero-padded past its end.
    fn from_bytes_at(bytes: &[u8], offset: usize) -> (r: Block128)
        requires
            offset <= bytes@.len(),
        ensures
            r.0@ == fit_bytes(bytes@.skip(offset as int), 16),
    {
        let mut dst = [0u8; 16];
        assert(dst == vstd::array::spec_array_fill_for_copy_type::<u8, 16>(0u8));
        assert(forall|k: int| 0 <= k < 16 ==> dst[k] == 0u8);
        let n = bytes.len();
        let avail = n - offset;
        let mut j: usize = 0;
        while j < 16
            invariant
                j <= 16,
                n == bytes@.len(),
                avail == n - offset,
                offset <= bytes@.len(),
                forall|k: int| 0 <= k < j ==> dst[k] == fit_bytes(bytes@.skip(offset as int), 16)[k],
                forall|k: int| j <= k < 16 ==> dst[k] == 0u8,
            decreases 16 - j,
        {
            if j < avail {
                assert(offset + j < bytes@.len());
                dst[j] = bytes[offset + j];
            }
            j = j + 1;
        }
        assert(dst@ =~= fit_bytes(bytes@.skip(offset as int), 16));
        Block128(dst)
    }
}

impl Block for Block128 {
    open spec fn chunks(&self) -> Seq<Seq<u8>> {
        seq![self.0@]
    }

    open spec fn chunks_from_bytes(bytes: Seq<u8>) -> Seq<Seq<u8>> {
        seq![fit_bytes(bytes, 16)]
    }

    proof fn lemma_bytes_round_trip(&self) {
        let s = concat_chunks(self.chunks());
        lemma_concat_small(self.0@, self.0@);
        assert(fit_bytes(s, 16) =~= self.0@);
        assert(Self::chunks_from_bytes(s) =~= self.chunks());
    }

    fn encrypt(&self, key: &[u8; 32]) -> (r: Self)
        ensures
            r.0@ == aes256_encrypt_of(key@, self.0@),
            aes256_decrypt_of(key@, r.0@) == self.0@,
    {
        let r = Block128(aes256_encrypt(key, self.0));
        assert(r.chunks() =~= encrypt_chunks(key@, self.chunks()));
        assert(decrypt_chunks(key@, r.chunks()) =~= self.chunks());
        r
    }

    fn decrypt(&self, key: &[u8; 32]) -> (r: Self)
        ensures
            r.0@ == aes256_decrypt_of(key@, self.0@),
    {
        let r = Block128(aes256_decrypt(key, self.0));
        assert(r.chunks() =~= decrypt_chunks(key@, self.chunks()));
        r
    }

    fn as_bytes(&self) -> (r: Vec<u8>) {
        let mut out: Vec<u8> = Vec::new();
        let mut j: usize = 0;
        while j < 16
            invariant
                j <= 16,
                out@ =~= self.0@.take(j as int),
            decreases 16 - j,
        {
            out.push(self.0[j]);
            j = j + 1;
        }
        proof {
            lemma_concat_small(self.0@, self.0@);
        }
        out
    }

    fn from_bytes(bytes: &[u8]) -> (r: Self)
        ensures
            r.0@ == fit_bytes(bytes@, 16),
    {
        let r = Block128::from_bytes_at(bytes, 0);
        assert(bytes@.skip(0) =~= bytes@);
        r
    }

    fn bytes_len(&self) -> (r: usize) {
        proof {
            lemma_concat_small(self.0@, self.0@);
        }
        16
    }
}

impl IsZero for Block128 {
    open spec fn all_zero(&self) -> bool {
        self.0@ == zero_bytes(16)
    }

    fn is_zero(&self) -> (r: bool) {
        let mut j: usize = 0;
        while j < 16
            invariant
                j <= 16,
                forall|k: int| 0 <= k < j ==> self.0[k] == 0u8,
            decreases 16 - j,
        {
            if self.0[j] != 0 {
                assert(self.0@[j as int] != zero_bytes(16)[j as int]);
                return false;
            }
            j = j + 1;
        }
        assert(self.0@ =~= zero_bytes(16));
        true
    }
}

/// The 16 bytes of `v`, most significant first.
pub open spec fn be_bytes_u128(v: u128) -> Seq<u8> {
    Seq::new(16, |i: int| (v >> ((120 - 8 * i) as u128)) as u8)
}

impl From<u128> for Block128 {
    fn from(value: u128) -> (r: Self) {
        let mut dst = [0u8; 16];
        let mut j: usize = 0;
        while j < 16
            invariant
                j <= 16,
                forall|k: int| 0 <= k < j ==> dst[k] == be_bytes_u128(value)[k],
            decreases 16 - j,
        {
            dst[j] = (value >> ((120 - 8 * j) as u128)) as u8;
            j = j + 1;
        }
        assert(dst@ =~= be_bytes_u128(value));
        let r = Block128(dst);
        proof {
            let c = choose|b: Block128| b.0@ == be_bytes_u128(value);
            assert(r.0@ == be_bytes_u128(value));
            assert(c.0@ == be_bytes_u128(value));
            assert(c.0 =~= r.0);
        }
        r
    }
}

impl vstd::std_specs::convert::FromSpecImpl<u128> for Block128 {
    open spec fn obeys_from_spec() -> bool {
        true
    }

    open spec fn from_spec(v: u128) -> Block128 {
        choose|b: Block128| b.0@ == be_bytes_u128(v)
    }
}

impl From<[u8; 16]> for Block128 {
    fn from(value: [u8; 16]) -> (r: Self) {
        Block128(value)
    }
}

impl vstd::std_specs::convert::FromSpecImpl<[u8; 16]> for Block128 {
    open spec fn obeys_from_spec() -> bool {
        true
    }

    open spec fn from_spec(v: [u8; 16]) -> Block128 {
        Block128(v)
    }
}

/// 256 bits of data: two AES blocks.
#[derive(Clone, Copy, Debug, PartialEq, Eq, Default)]
pub struct Block256(pub [Block128; 2]);

impl Block for Block256 {
    open spec fn chunks(&self) -> Seq<Seq<u8>> {
        seq![self.0[0].0@, self.0[1].0@]
    }

    open spec fn chunks_from_bytes(bytes: Seq<u8>) -> Seq<Seq<u8>> {
        let padded = fit_bytes(bytes, 32);
        seq![padded.take(16), padded.skip(16)]
    }

    proof fn lemma_bytes_round_trip(&self) {
        let s = concat_chunks(self.chunks());
        lemma_concat_small(self.0[0].0@, self.0[1].0@);
        assert(fit_bytes(s, 32) =~= s);
        assert(s.take(16) =~= self.0[0].0@);
        assert(s.skip(16) =~= self.0[1].0@);
        assert(Self::chunks_from_bytes(s) =~= self.chunks());
    }

    fn encrypt(&self, key: &[u8; 32]) -> (r: Self) {
        let e0 = self.0[0].encrypt(key);
        let e1 = self.0[1].encrypt(key);
        let r = Block256([e0, e1]);
        assert(r.0[0] == e0 && r.0[1] == e1);
        assert(e0.chunks()[0] == encrypt_chunks(key@, self.0[0].chunks())[0]);
        assert(e1.chunks()[0] == encrypt_chunks(key@, self.0[1].chunks())[0]);
        assert(self.0[0].chunks()[0] == decrypt_chunks(key@, e0.chunks())[0]);
        assert(self.0[1].chunks()[0] == decrypt_chunks(key@, e1.chunks())[0]);
        assert(r.chunks() =~= encrypt_chunks(key@, self.chunks()));
        assert(decrypt_chunks(key@, r.chunks()) =~= self.chunks());
        r
    }

    fn decrypt(&self, key: &[u8; 32]) -> (r: Self) {
        let d0 = self.0[0].decrypt(key);
        let d1 = self.0[1].decrypt(key);
        let r = Block256([d0, d1]);
        assert(r.0[0] == d0 && r.0[1] == d1);
        assert(d0.chunks()[0] == decrypt_chunks(key@, self.0[0].chunks())[0]);
        assert(d1.chunks()[0] == decrypt_chunks(key@, self.0[1].chunks())[0]);
        assert(r.chunks() =~= decrypt_chunks(key@, self.chunks()));
        r
    }

    fn as_bytes(&self) -> (r: Vec<u8>) {
        let mut out = self.0[0].as_bytes();
        let mut tail = self.0[1].as_bytes();
        proof {
            lemma_concat_small(self.0[0].0@, self.0[0].0@);
            lemma_concat_small(self.0[1].0@, self.0[1].0@);
            lemma_concat_small(self.0[0].0@, self.0[1].0@);
        }
        out.append(&mut tail);
        out
    }

    fn from_bytes(bytes: &[u8]) -> (r: Self) {
        let first = Block128::from_bytes_at(bytes, 0);
        let second = if bytes.len() >= 16 {
            Block128::from_bytes_at(bytes, 16)
        } else {
            let zeros = [0u8; 16];
            assert(zeros@ =~= zero_bytes(16));
            Block128(zeros)
        };
        let r = Block256([first, second]);
        proof {
            let padded = fit_bytes(bytes@, 32);
            assert(bytes@.skip(0) =~= bytes@);
            assert(first.0@ =~= padded.take(16));
            if bytes@.len() >= 16 {
                assert(second.0@ =~= padded.skip(16));
            } else {
                assert(second.0@ =~= padded.skip(16));
            }
            assert(r.chunks() =~= Self::chunks_from_bytes(bytes@));
        }
        r
    }

    fn bytes_len(&self) -> (r: usize) {
        proof {
            lemma_concat_small(self.0[0].0@, self.0[1].0@);
        }
        32
    }
}

impl IsZero for Block256 {
    open spec fn all_zero(&self) -> bool {
        self.0[0].0@ == zero_bytes(16) && self.0[1].0@ == zero_bytes(16)
    }

    fn is_zero(&self) -> (r: bool) {
        self.0[0].is_zero() && self.0[1].is_zero()
    }
}

impl From<[Block128; 2]> for Block256 {
    fn from(value: [Block128; 2]) -> (r: Self) {
        Block256(value)
    }
}

impl vstd::std_specs::convert::FromSpecImpl<[Block128; 2]> for Block256 {
    open spec fn obeys_from_spec() -> bool {
        true
    }

    open spec fn from_spec(v: [Block128; 2]) -> Block256 {
        Block256(v)
    }
}

impl From<[u8; 32]> for Block256 {
    fn from(value: [u8; 32]) -> (r: Self) {
        let r = Block256::from_bytes(&value);
        proof {
            assert(fit_bytes(value@, 32) =~= value@);
            assert(r.chunks() == seq![value@.take(16), value@.skip(16)]);
            let c = choose|b: Block256| b.chunks() == seq![value@.take(16), value@.skip(16)];
            assert(c.chunks() == seq![value@.take(16), value@.skip(16)]);
            assert(c.chunks()[0] == r.chunks()[0]);
            assert(c.chunks()[1] == r.chunks()[1]);
            assert(c.0[0].0 =~= r.0[0].0);
            assert(c.0[1].0 =~= r.0[1].0);
            assert(c.0 =~= r.0);
        }
        r
    }
}

impl vstd::std_specs::convert::FromSpecImpl<[u8; 32]> for Block256 {
    open spec fn obeys_from_spec() -> bool {
        true
    }

    open spec fn from_spec(v: [u8; 32]) -> Block256 {
        choose|b: Block256| b.chunks() == seq![v@.take(16), v@.skip(16)]
    }
}

/// The 16-byte chunks of `bytes`, the last one zero-padded.
pub open spec fn chunks_of(bytes: Seq<u8>) -> Seq<Seq<u8>> {
    Seq::new(((bytes.len() + 15) / 16) as nat, |i: int| fit_bytes(bytes.skip(16 * i), 16))
}

/// The chunks of `bytes`, laid end to end, start with `bytes`.
pub proof fn lemma_chunks_of_prefix(bytes: Seq<u8>)
    ensures
        concat_chunks(chunks_of(bytes)).len() >= bytes.len(),
        forall|i: int| 0 <= i < bytes.len() ==> #[trigger] concat_chunks(chunks_of(bytes))[i] == bytes[i],
{
    let c = chunks_of(bytes);
    lemma_concat_uniform(c);
    let n = bytes.len();
    assert(16 * ((n + 15) / 16) >= n) by (nonlinear_arith);
    assert forall|i: int| 0 <= i < n implies #[trigger] concat_chunks(c)[i] == bytes[i] by {
        let a = i / 16;
        let b = i % 16;
        assert(16 * a + b == i);
        assert(a < (n + 15) / 16) by (nonlinear_arith)
            requires
                16 * a + b == i,
                0 <= b,
                i < n,
        ;
        assert(concat_chunks(c)[16 * a + b] == c[a][b]);
    }
}

/// Any number of AES blocks.
impl Block for Vec<Block128> {
    open spec fn chunks(&self) -> Seq<Seq<u8>> {
        self@.map_values(|b: Block128| b.0@)
    }

    open spec fn chunks_from_bytes(bytes: Seq<u8>) -> Seq<Seq<u8>> {
        chunks_of(bytes)
    }

    proof fn lemma_bytes_round_trip(&self) {
        let c = self.chunks();
        let s = concat_chunks(c);
        lemma_concat_uniform(c);
        let n = c.len();
        assert((16 * n + 15) / 16 == n) by (nonlinear_arith);
        assert forall|i: int| 0 <= i < n implies #[trigger] chunks_of(s)[i] == c[i] by {
            assert(16 * i + 16 <= 16 * n) by (nonlinear_arith)
                requires
                    i < n,
            ;
            assert forall|j: int| 0 <= j < 16 implies fit_bytes(s.skip(16 * i), 16)[j] == c[i][j] by {
                assert(s.skip(16 * i)[j] == s[16 * i + j]);
            }
            assert(fit_bytes(s.skip(16 * i), 16) =~= c[i]);
        }
        assert(chunks_of(s) =~= c);
    }

    fn encrypt(&self, key: &[u8; 32]) -> (r: Self) {
        let mut out: Vec<Block128> = Vec::new();
        let mut i: usize = 0;
        while i < self.len()
            invariant
                i <= self@.len(),
                out.chunks() =~= encrypt_chunks(key@, self.chunks().take(i as int)),
                decrypt_chunks(key@, out.chunks()) =~= self.chunks().take(i as int),
            decreases self@.len() - i,
        {
            let e = self[i].encrypt(key);
            assert(e.chunks()[0] == encrypt_chunks(key@, self[i as int].chunks())[0]);
            assert(self[i as int].chunks()[0] == decrypt_chunks(key@, e.chunks())[0]);
            out.push(e);
            i = i + 1;
        }
        assert(self.chunks().take(self@.len() as int) =~= self.chunks());
        out
    }

    fn decrypt(&self, key: &[u8; 32]) -> (r: Self) {
        let mut out: Vec<Block128> = Vec::new();
        let mut i: usize = 0;
        while i < self.len()
            invariant
                i <= self@.len(),
                out@.len() == i,
                forall|k: int|
                    0 <= k < i ==> (#[trigger] out@[k]).0@ == aes256_decrypt_of(key@, self@[k].0@),
            decreases self@.len() - i,
        {
            let d = self[i].decrypt(key);
            assert(d.chunks()[0] == decrypt_chunks(key@, self[i as int].chunks())[0]);
            out.push(d);
            i = i + 1;
        }
        assert(out.chunks() =~= decrypt_chunks(key@, self.chunks()));
        out
    }

    fn as_bytes(&self) -> (r: Vec<u8>) {
        let mut out: Vec<u8> = Vec::new();
        let mut i: usize = 0;
        while i < self.len()
            invariant
                i <= self@.len(),
                out@ == concat_chunks(self.chunks().take(i as int)),
            decreases self@.len() - i,
        {
            let mut b = self[i].as_bytes();
            proof {
                lemma_concat_small(self[i as int].0@, self[i as int].0@);
                assert(self.chunks().take(i + 1).drop_last() =~= self.chunks().take(i as int));
            }
            out.append(&mut b);
            i = i + 1;
        }
        assert(self.chunks().take(self@.len() as int) =~= self.chunks());
        out
    }

    fn from_bytes(bytes: &[u8]) -> (r: Self) {
        let n = bytes.len();
        let count = if n % 16 == 0 {
            n / 16
        } else {
            n / 16 + 1
        };
        assert(count == (n + 15) / 16);
        let mut out: Vec<Block128> = Vec::new();
        let mut i: usize = 0;
        while i < count
            invariant
                n == bytes@.len(),
                count == (n + 15) / 16,
                i <= count,
                out@.len() == i,
                forall|k: int| 0 <= k < i ==> (#[trigger] out@[k]).0@ == chunks_of(bytes@)[k],
            decreases count - i,
        {
            assert(16 * i < n) by (nonlinear_arith)
                requires
                    i < count,
                    count == (n + 15) / 16,
            ;
            let b = Block128::from_bytes_at(bytes, 16 * i);
            out.push(b);
            i = i + 1;
        }
        assert(out.chunks() =~= chunks_of(bytes@));
        out
    }

    fn bytes_len(&self) -> (r: usize) {
        proof {
            lemma_concat_uniform(self.chunks());
        }
        self.len() * 16
    }
}

} // verus!
