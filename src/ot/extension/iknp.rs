//! The IKNP oblivious transfer extension: `M` transfers of one out of two
//! values, built from `K` base transfers and hashing.
//!
//! The party that receives (it holds `M` choice bits `b`) draws an `M×K` bit
//! matrix `T` and sets `U = B ⊕ T`, where row `i` of `B` is `b_i` repeated. It
//! offers column `k` of `T` and of `U` in base transfer `k`. The party that
//! sends (it holds `M` pairs of values) picks column `k` of `U` where its own bit
//! `s_k` is set, and of `T` otherwise: row `i` of what it got, `Q_i`, is
//! `T_i ⊕ (b_i ∧ s)`. It masks the first value of pair `i` under
//! `Keccak256(Q_i)` and the second under `Keccak256(Q_i ⊕ s)`: exactly the one
//! that `b_i` picks is masked under `Keccak256(T_i)`, the receiver's key.
//!
//! Rows and columns travel packed eight bits to a byte. The messages themselves
//! are exchanged by the caller.
use vstd::prelude::*;

use crate::bits::{bit_at, get_bit, lemma_pack_bit, pack, pack_bits};
use crate::block::{
    chunks_of, concat_chunks, decrypt_chunks, encrypt_chunks, lemma_chunks_of_prefix,
    lemma_concat_uniform, Block,
    Block128,
};
use crate::hash::{keccak256, keccak256_of};
use crate::ot::OTError;

verus! {

/// Column `k` of a bit matrix given by rows.
pub open spec fn column(m: Seq<Seq<bool>>, k: int) -> Seq<bool> {
    Seq::new(m.len(), |i: int| m[i][k])
}

/// `U = B ⊕ T`: row `i` of `t` with each bit flipped where `choices[i]` is set.
pub open spec fn masked_rows(choices: Seq<bool>, t: Seq<Seq<bool>>) -> Seq<Seq<bool>> {
    Seq::new(t.len(), |i: int| Seq::new(t[i].len(), |k: int| choices[i] != t[i][k]))
}

/// Every row of `m` has `k` bits.
pub open spec fn rows_of_width(m: Seq<Seq<bool>>, k: nat) -> bool {
    forall|i: int| 0 <= i < m.len() ==> #[trigger] m[i].len() == k
}

/// Bitwise exclusive or of two strings of one length.
pub open spec fn xor_bits(a: Seq<bool>, b: Seq<bool>) -> Seq<bool> {
    Seq::new(a.len(), |k: int| a[k] != b[k])
}

/// The key derived from a row of bits: the digest of the packed row.
pub open spec fn row_key(row: Seq<bool>) -> Seq<u8> {
    keccak256_of(pack_bits(row))
}

/// Row `i` of the matrix whose packed columns are `cols`.
pub open spec fn received_row(cols: Seq<Seq<u8>>, i: int) -> Seq<bool> {
    Seq::new(cols.len(), |k: int| bit_at(cols[k], i))
}

/// The member of `pair` that `bit` picks: the second where it is set.
pub open spec fn chosen<V>(pair: (V, V), bit: bool) -> V {
    if bit {
        pair.1
    } else {
        pair.0
    }
}

/// The payload block of the base transfers that carry column `k` of the
/// receiver's matrices: that of `T` at index 0, that of `U` at index 1.
pub open spec fn column_payload(choices: Seq<bool>, t: Seq<Seq<bool>>, k: int, index: int) -> Seq<
    Seq<u8>,
> {
    if index == 0 {
        chunks_of(pack_bits(column(t, k)))
    } else {
        chunks_of(pack_bits(column(masked_rows(choices, t), k)))
    }
}

/// `ciphertexts` masks each pair of `values` as a sender with bits `s` that got
/// the packed columns `cols` does: the first value of pair `i` under the key of
/// `Q_i`, the second under the key of `Q_i ⊕ s`.
pub open spec fn ext_sealed<V: Block>(
    s: Seq<bool>,
    cols: Seq<Seq<u8>>,
    values: Seq<(V, V)>,
    ciphertexts: Seq<(V, V)>,
) -> bool {
    &&& ciphertexts.len() == values.len()
    &&& forall|i: int|
        0 <= i < values.len() ==> {
            let k0 = row_key(received_row(cols, i));
            let k1 = row_key(xor_bits(received_row(cols, i), s));
            &&& (#[trigger] ciphertexts[i]).0.chunks() == encrypt_chunks(k0, values[i].0.chunks())
            &&& decrypt_chunks(k0, ciphertexts[i].0.chunks()) == values[i].0.chunks()
            &&& ciphertexts[i].1.chunks() == encrypt_chunks(k1, values[i].1.chunks())
            &&& decrypt_chunks(k1, ciphertexts[i].1.chunks()) == values[i].1.chunks()
        }
}

/// The bytes of each received column block.
pub open spec fn column_bytes(received: Seq<Vec<Block128>>) -> Seq<Seq<u8>> {
    Seq::new(received.len(), |k: int| concat_chunks(received[k].chunks()))
}

/// Column `k` of a matrix given by rows, as a vector.
fn take_column(m: &Vec<Vec<bool>>, k: usize, width: Ghost<nat>) -> (r: Vec<bool>)
    requires
        rows_of_width(m.deep_view(), width@),
        k < width@,
    ensures
        r@ == column(m.deep_view(), k as int),
{
    let mut out: Vec<bool> = Vec::new();
    let mut i: usize = 0;
    while i < m.len()
        invariant
            i <= m@.len(),
            rows_of_width(m.deep_view(), width@),
            k < width@,
            out@ =~= column(m.deep_view(), k as int).take(i as int),
        decreases m@.len() - i,
    {
        assert(m.deep_view()[i as int] == m@[i as int]@);
        out.push(m[i][k]);
        i = i + 1;
    }
    out
}

/// The receiving party's first step: the payload of each of the `k` base
/// transfers that it sends, column `k` of `T` packed into a block at index 0 and
/// column `k` of `U = B ⊕ T` at index 1.
pub fn ot_ext_receive_columns(choices: &Vec<bool>, t: &Vec<Vec<bool>>, k: usize) -> (r: Vec<
    Vec<Vec<Block128>>,
>)
    requires
        t@.len() == choices@.len(),
        rows_of_width(t.deep_view(), k as nat),
    ensures
        r@.len() == k,
        forall|c: int|
            0 <= c < k ==> {
                &&& (#[trigger] r@[c])@.len() == 2
                &&& r@[c]@[0].chunks() == column_payload(choices@, t.deep_view(), c, 0)
                &&& r@[c]@[1].chunks() == column_payload(choices@, t.deep_view(), c, 1)
            },
{
    let mut u: Vec<Vec<bool>> = Vec::new();
    let mut i: usize = 0;
    while i < t.len()
        invariant
            i <= t@.len(),
            t@.len() == choices@.len(),
            rows_of_width(t.deep_view(), k as nat),
            u@.len() == i,
            forall|j: int| 0 <= j < i ==> (#[trigger] u@[j])@ == masked_rows(choices@, t.deep_view())[j],
        decreases t@.len() - i,
    {
        let mut row: Vec<bool> = Vec::new();
        let mut c: usize = 0;
        assert(t.deep_view()[i as int] == t@[i as int]@);
        while c < k
            invariant
                c <= k,
                i < t@.len(),
                t@.len() == choices@.len(),
                t@[i as int]@.len() == k,
                row@ =~= masked_rows(choices@, t.deep_view())[i as int].take(c as int),
                t.deep_view()[i as int] == t@[i as int]@,
            decreases k - c,
        {
            row.push(choices[i] != t[i][c]);
            c = c + 1;
        }
        assert(row@ =~= masked_rows(choices@, t.deep_view())[i as int]);
        u.push(row);
        i = i + 1;
    }
    assert forall|j: int| 0 <= j < u@.len() implies #[trigger] u.deep_view()[j]
        == masked_rows(choices@, t.deep_view())[j] by {
        assert(u.deep_view()[j] == u@[j]@);
    }
    assert(u.deep_view() =~= masked_rows(choices@, t.deep_view()));
    let mut out: Vec<Vec<Vec<Block128>>> = Vec::new();
    let mut c: usize = 0;
    while c < k
        invariant
            c <= k,
            rows_of_width(t.deep_view(), k as nat),
            u.deep_view() == masked_rows(choices@, t.deep_view()),
            out@.len() == c,
            forall|j: int|
                0 <= j < c ==> {
                    &&& (#[trigger] out@[j])@.len() == 2
                    &&& out@[j]@[0].chunks() == column_payload(choices@, t.deep_view(), j, 0)
                    &&& out@[j]@[1].chunks() == column_payload(choices@, t.deep_view(), j, 1)
                },
        decreases k - c,
    {
        let t_col = pack(&take_column(t, c, Ghost(k as nat)));
        let u_col = pack(&take_column(&u, c, Ghost(k as nat)));
        let pair = vec![
            <Vec<Block128> as Block>::from_bytes(t_col.as_slice()),
            <Vec<Block128> as Block>::from_bytes(u_col.as_slice()),
        ];
        out.push(pair);
        c = c + 1;
    }
    out
}

/// The receiving party's last step: with the key of each row `T_i`, opens the
/// ciphertext of pair `i` that `choices[i]` picks.
pub fn ot_ext_receive<V: Block>(
    choices: &Vec<bool>,
    t: &Vec<Vec<bool>>,
    ciphertexts: &Vec<(V, V)>,
) -> (r: Vec<V>)
    requires
        t@.len() == choices@.len(),
        ciphertexts@.len() == choices@.len(),
    ensures
        r@.len() == choices@.len(),
        forall|i: int|
            0 <= i < choices@.len() ==> (#[trigger] r@[i]).chunks() == decrypt_chunks(
                row_key(t.deep_view()[i]),
                chosen(ciphertexts@[i], choices@[i]).chunks(),
            ),
{
    let mut out: Vec<V> = Vec::new();
    let mut i: usize = 0;
    while i < choices.len()
        invariant
            i <= choices@.len(),
            t@.len() == choices@.len(),
            ciphertexts@.len() == choices@.len(),
            out@.len() == i,
            forall|j: int|
                0 <= j < i ==> (#[trigger] out@[j]).chunks() == decrypt_chunks(
                    row_key(t.deep_view()[j]),
                    chosen(ciphertexts@[j], choices@[j]).chunks(),
                ),
        decreases choices@.len() - i,
    {
        assert(t.deep_view()[i as int] == t@[i as int]@);
        let key = keccak256(pack(&t[i]).as_slice());
        let v = if choices[i] {
            ciphertexts[i].1.decrypt(&key)
        } else {
            ciphertexts[i].0.decrypt(&key)
        };
        out.push(v);
        i = i + 1;
    }
    out
}

/// The sending party's step: reads the received columns as the rows `Q_i` and
/// masks the first value of pair `i` under the key of `Q_i`, the second under
/// the key of `Q_i ⊕ s`. Fails where a column holds fewer bytes than the packed
/// rows need.
pub fn ot_ext_send<V: Block>(
    s: &Vec<bool>,
    received: &Vec<Vec<Block128>>,
    values: &Vec<(V, V)>,
) -> (res: Result<Vec<(V, V)>, OTError>)
    requires
        received@.len() == s@.len(),
    ensures
        res is Ok <==> forall|k: int|
            0 <= k < s@.len() ==> (#[trigger] column_bytes(received@)[k]).len() >= (values@.len() + 7)
                / 8,
        res matches Ok(cts) ==> ext_sealed(s@, column_bytes(received@), values@, cts@),
{
    let m = values.len();
    let need = if m % 8 == 0 {
        m / 8
    } else {
        m / 8 + 1
    };
    assert(need == (m + 7) / 8);
    let mut cols: Vec<Vec<u8>> = Vec::new();
    let mut k: usize = 0;
    while k < received.len()
        invariant
            k <= received@.len(),
            received@.len() == s@.len(),
            need == (m + 7) / 8,
            m == values@.len(),
            cols@.len() == k,
            forall|j: int| 0 <= j < k ==> (#[trigger] cols@[j])@ == column_bytes(received@)[j],
            forall|j: int| 0 <= j < k ==> (#[trigger] column_bytes(received@)[j]).len() >= need,
        decreases received@.len() - k,
    {
        let bytes = received[k].as_bytes();
        if bytes.len() < need {
            assert(bytes@ == column_bytes(received@)[k as int]);
            assert(!(column_bytes(received@)[k as int].len() >= (values@.len() + 7) / 8));
            return Err(OTError::Framing);
        }
        cols.push(bytes);
        k = k + 1;
    }
    let ghost cv = column_bytes(received@);
    assert(cols.deep_view() =~= cv) by {
        assert forall|j: int| 0 <= j < cols@.len() implies #[trigger] cols.deep_view()[j] == cv[j] by {
            assert(cols.deep_view()[j] == cols@[j]@);
        }
    }
    let mut out: Vec<(V, V)> = Vec::new();
    let mut i: usize = 0;
    while i < m
        invariant
            i <= m,
            m == values@.len(),
            need == (m + 7) / 8,
            cols@.len() == s@.len(),
            cols.deep_view() == cv,
            forall|j: int| 0 <= j < s@.len() ==> (#[trigger] cv[j]).len() >= need,
            out@.len() == i,
            forall|j: int|
                0 <= j < i ==> {
                    let k0 = row_key(received_row(cv, j));
                    let k1 = row_key(xor_bits(received_row(cv, j), s@));
                    &&& (#[trigger] out@[j]).0.chunks() == encrypt_chunks(k0, values@[j].0.chunks())
                    &&& decrypt_chunks(k0, out@[j].0.chunks()) == values@[j].0.chunks()
                    &&& out@[j].1.chunks() == encrypt_chunks(k1, values@[j].1.chunks())
                    &&& decrypt_chunks(k1, out@[j].1.chunks()) == values@[j].1.chunks()
                },
        decreases m - i,
    {
        assert(i / 8 < need) by (nonlinear_arith)
            requires
                i < m,
                need == (m + 7) / 8,
        ;
        let mut q: Vec<bool> = Vec::new();
        let mut q_s: Vec<bool> = Vec::new();
        let mut c: usize = 0;
        while c < s.len()
            invariant
                c <= s@.len(),
                i / 8 < need,
                cols@.len() == s@.len(),
                cols.deep_view() == cv,
                forall|j: int| 0 <= j < s@.len() ==> (#[trigger] cv[j]).len() >= need,
                q@ =~= received_row(cv, i as int).take(c as int),
                q_s@ =~= xor_bits(received_row(cv, i as int), s@).take(c as int),
            decreases s@.len() - c,
        {
            assert(cols.deep_view()[c as int] == cols@[c as int]@);
            let bit = get_bit(&cols[c], i);
            q.push(bit);
            q_s.push(bit != s[c]);
            c = c + 1;
        }
        assert(q@ =~= received_row(cv, i as int));
        assert(q_s@ =~= xor_bits(received_row(cv, i as int), s@));
        let k0 = keccak256(pack(&q).as_slice());
        let k1 = keccak256(pack(&q_s).as_slice());
        let pair = (values[i].0.encrypt(&k0), values[i].1.encrypt(&k1));
        out.push(pair);
        i = i + 1;
    }
    Ok(out)
}

/// The byte length of a column block for `rows` rows: the packed column
/// padded to whole 16-byte chunks.
pub fn column_block_len(rows: usize) -> (r: usize)
    ensures
        r == 16 * (((rows + 7) / 8 + 15) / 16),
        forall|bits: Seq<bool>|
            bits.len() == rows ==> #[trigger] concat_chunks(chunks_of(pack_bits(bits))).len() == r,
{
    let packed = if rows % 8 == 0 {
        rows / 8
    } else {
        rows / 8 + 1
    };
    let chunks = if packed % 16 == 0 {
        packed / 16
    } else {
        packed / 16 + 1
    };
    assert(packed == (rows + 7) / 8);
    assert(chunks == (packed + 15) / 16);
    assert(16 * chunks <= packed + 15) by (nonlinear_arith)
        requires
            chunks == (packed + 15) / 16,
    ;
    assert(packed <= rows / 8 + 1);
    assert(rows / 8 + 16 <= usize::MAX) by (nonlinear_arith)
        requires
            rows <= usize::MAX,
            usize::MAX >= 255,
    ;
    assert forall|bits: Seq<bool>| bits.len() == rows implies #[trigger] concat_chunks(
        chunks_of(pack_bits(bits)),
    ).len() == 16 * chunks by {
        let c = chunks_of(pack_bits(bits));
        assert(pack_bits(bits).len() == packed);
        assert forall|i: int| 0 <= i < c.len() implies #[trigger] c[i].len() == 16 by {}
        lemma_concat_uniform(c);
    }
    16 * chunks
}

/// Correctness of the extension: where base transfer `k` handed the sending
/// party the block that the receiving party offered at the index of the
/// sender's bit `s[k]`, the key of row `T_i` opens, from what the sending party
/// sent, the value of pair `i` that `choices[i]` picks.
pub proof fn lemma_extension_delivers_choices<V: Block>(
    choices: Seq<bool>,
    t: Seq<Seq<bool>>,
    s: Seq<bool>,
    received: Seq<Seq<Seq<u8>>>,
    values: Seq<(V, V)>,
    ciphertexts: Seq<(V, V)>,
)
    requires
        t.len() == choices.len(),
        values.len() == choices.len(),
        rows_of_width(t, s.len()),
        received.len() == s.len(),
        forall|k: int|
            0 <= k < s.len() ==> #[trigger] received[k] == column_payload(
                choices,
                t,
                k,
                if s[k] {
                    1
                } else {
                    0
                },
            ),
        ext_sealed(
            s,
            Seq::new(s.len(), |k: int| concat_chunks(received[k])),
            values,
            ciphertexts,
        ),
    ensures
        forall|i: int|
            0 <= i < choices.len() ==> decrypt_chunks(
                row_key(t[i]),
                chosen(#[trigger] ciphertexts[i], choices[i]).chunks(),
            ) == chosen(values[i], choices[i]).chunks(),
{
    let cols = Seq::new(s.len(), |k: int| concat_chunks(received[k]));
    let u = masked_rows(choices, t);
    assert forall|i: int| 0 <= i < choices.len() implies decrypt_chunks(
        row_key(t[i]),
        chosen(#[trigger] ciphertexts[i], choices[i]).chunks(),
    ) == chosen(values[i], choices[i]).chunks() by {
        let q = received_row(cols, i);
        assert forall|k: int| 0 <= k < s.len() implies #[trigger] q[k] == (t[i][k] != (choices[i]
            && s[k])) by {
            let bits = if s[k] {
                column(u, k)
            } else {
                column(t, k)
            };
            lemma_chunks_of_prefix(pack_bits(bits));
            lemma_pack_bit(bits, i);
            assert(received[k] == chunks_of(pack_bits(bits)));
            assert(cols[k] == concat_chunks(chunks_of(pack_bits(bits))));
            assert(cols[k][i / 8] == pack_bits(bits)[i / 8]);
            assert(bit_at(cols[k], i) == bit_at(pack_bits(bits), i));
        }
        if choices[i] {
            assert(xor_bits(q, s) =~= t[i]);
        } else {
            assert(q =~= t[i]);
        }
    }
}

} // verus!
