//! The Chou–Orlandi base oblivious transfer, 1 out of N, over Ed25519.
//!
//! The sender draws a scalar `y` once and publishes `S = y·B`; it keeps
//! `T = y·S`. For each transfer the receiver, choosing index `c`, draws `x` and
//! sends `R = c·S + x·B`. The sender masks value `j` under
//! `Keccak256(S ‖ R ‖ y·R − j·T)`; the receiver can rebuild only the key of index
//! `c`, as `Keccak256(S ‖ R ‖ x·S)`.
//!
//! Exchanging the messages is left to the caller: these types compute what to
//! send from what was received.
use ark_serialize::SerializationError;
use vstd::prelude::*;

use crate::block::{decrypt_chunks, encrypt_chunks, Block};
use crate::curve::{
    base_mul, ed25519_add, ed25519_base_mul, ed25519_decodes, ed25519_mul, ed25519_scalar_of,
    ed25519_sub, point_add, point_check, point_mul, point_sub, scalar_of,
};
use crate::hash::{keccak256, keccak256_of};
use crate::ot::OTError;

verus! {

/// The points `(S, T)` = `(y·B, y·S)` that the sender derives from its scalar `y`.
pub open spec fn co15_setup_points(y: Seq<u8>) -> Option<(Seq<u8>, Seq<u8>)> {
    match ed25519_base_mul(y) {
        Some(s) => match ed25519_mul(s, y) {
            Some(t) => Some((s, t)),
            None => None,
        },
        None => None,
    }
}

/// The point `y·R − j·T` under which the sender masks value `j`.
pub open spec fn co15_sender_point(y: Seq<u8>, t: Seq<u8>, r: Seq<u8>, j: u64) -> Option<Seq<u8>> {
    match (ed25519_mul(r, y), ed25519_scalar_of(j)) {
        (Some(yr), Some(jf)) => match ed25519_mul(t, jf) {
            Some(jt) => ed25519_sub(yr, jt),
            None => None,
        },
        _ => None,
    }
}

/// The point `R = c·S + x·B` that a receiver choosing `c` sends.
pub open spec fn co15_request_point(s: Seq<u8>, c: u64, x: Seq<u8>) -> Option<Seq<u8>> {
    match ed25519_scalar_of(c) {
        Some(cf) => match (ed25519_mul(s, cf), ed25519_base_mul(x)) {
            (Some(cs), Some(xb)) => ed25519_add(cs, xb),
            _ => None,
        },
        None => None,
    }
}

/// The AES key derived from the transcript `S ‖ R` and a key point.
pub open spec fn co15_key(s: Seq<u8>, r: Seq<u8>, k: Seq<u8>) -> Seq<u8> {
    keccak256_of(s + r + k)
}

/// `ciphertexts` masks each of `values` under the key of its index, as a sender
/// with scalar `y`, points `s`, `t` and the receiver's point `r` does.
pub open spec fn co15_sealed<V: Block>(
    y: Seq<u8>,
    s: Seq<u8>,
    t: Seq<u8>,
    r: Seq<u8>,
    values: Seq<V>,
    ciphertexts: Seq<V>,
) -> bool {
    &&& ciphertexts.len() == values.len()
    &&& forall|j: int|
        0 <= j < values.len() ==> {
            let key = co15_key(s, r, co15_sender_point(y, t, r, j as u64)->Some_0);
            &&& (#[trigger] ciphertexts[j]).chunks() == encrypt_chunks(key, values[j].chunks())
            &&& decrypt_chunks(key, ciphertexts[j].chunks()) == values[j].chunks()
        }
}

/// The sending side: its scalar `y` and the points `S = y·B`, `T = y·S`, fixed
/// at setup and reused by every transfer.
pub struct CO15Sender {
    y: [u8; 32],
    s: [u8; 32],
    t: [u8; 32],
}

impl CO15Sender {
    /// The secret scalar `y`.
    pub closed spec fn scalar(&self) -> Seq<u8> {
        self.y@
    }

    /// The public point `S`.
    pub closed spec fn point_s(&self) -> Seq<u8> {
        self.s@
    }

    /// The point `T`.
    pub closed spec fn point_t(&self) -> Seq<u8> {
        self.t@
    }

    /// Sets up a sender from its scalar `y` (drawn uniformly by the caller).
    /// Fails where `y` encodes no scalar.
    pub fn setup(y: [u8; 32]) -> (r: Result<CO15Sender, OTError>)
        ensures
            r is Ok <==> co15_setup_points(y@) is Some,
            r matches Ok(snd) ==> snd.scalar() == y@ && co15_setup_points(y@) == Some(
                (snd.point_s(), snd.point_t()),
            ),
    {
        let s = match base_mul(&y) {
            Ok(s) => s,
            Err(e) => {
                return Err(OTError::Serialize { source: e });
            },
        };
        let t = match point_mul(&s, &y) {
            Ok(t) => t,
            Err(e) => {
                return Err(OTError::Serialize { source: e });
            },
        };
        Ok(CO15Sender { y, s, t })
    }

    /// The setup message for the receiver: the encoding of `S`.
    pub fn setup_message(&self) -> (r: [u8; 32])
        ensures
            r@ == self.point_s(),
    {
        self.s
    }

    /// Masks each of `values` for the receiver whose point for this transfer is
    /// `r`: value `j` under `Keccak256(S ‖ R ‖ y·R − j·T)`. Fails where `r`, or a
    /// point derived from it, does not decode.
    pub fn send<V: Block>(&self, r: &[u8; 32], values: &Vec<V>) -> (res: Result<Vec<V>, OTError>)
        ensures
            res is Ok <==> (ed25519_mul(r@, self.scalar()) is Some && forall|j: int|
                0 <= j < values@.len() ==> #[trigger] co15_sender_point(
                    self.scalar(),
                    self.point_t(),
                    r@,
                    j as u64,
                ) is Some),
            res matches Ok(cts) ==> co15_sealed(
                self.scalar(),
                self.point_s(),
                self.point_t(),
                r@,
                values@,
                cts@,
            ),
    {
        let yr = match point_mul(r, &self.y) {
            Ok(p) => p,
            Err(e) => {
                return Err(OTError::Serialize { source: e });
            },
        };
        let mut out: Vec<V> = Vec::new();
        let mut j: usize = 0;
        while j < values.len()
            invariant
                j <= values@.len(),
                out@.len() == j,
                ed25519_mul(r@, self.y@) == Some(yr@),
                forall|i: int|
                    0 <= i < j ==> #[trigger] co15_sender_point(self.y@, self.t@, r@, i as u64) is Some,
                forall|i: int|
                    0 <= i < j ==> {
                        let key = co15_key(
                            self.s@,
                            r@,
                            co15_sender_point(self.y@, self.t@, r@, i as u64)->Some_0,
                        );
                        &&& (#[trigger] out@[i]).chunks() == encrypt_chunks(
                            key,
                            values@[i].chunks(),
                        )
                        &&& decrypt_chunks(key, out@[i].chunks()) == values@[i].chunks()
                    },
            decreases values@.len() - j,
        {
            let jf = match scalar_of(j as u64) {
                Ok(f) => f,
                Err(e) => {
                    assert(co15_sender_point(self.y@, self.t@, r@, j as u64) is None);
                    return Err(OTError::Serialize { source: e });
                },
            };
            let jt = match point_mul(&self.t, &jf) {
                Ok(p) => p,
                Err(e) => {
                    assert(co15_sender_point(self.y@, self.t@, r@, j as u64) is None);
                    return Err(OTError::Serialize { source: e });
                },
            };
            let k = match point_sub(&yr, &jt) {
                Ok(p) => p,
                Err(e) => {
                    assert(co15_sender_point(self.y@, self.t@, r@, j as u64) is None);
                    return Err(OTError::Serialize { source: e });
                },
            };
            assert(co15_sender_point(self.y@, self.t@, r@, j as u64) == Some(k@));
            let key = keccak256(&transcript(&self.s, r, &k));
            out.push(values[j].encrypt(&key));
            j = j + 1;
        }
        Ok(out)
    }
}

/// The receiving side: the sender's public point `S`, fixed at setup.
pub struct CO15Receiver {
    s: [u8; 32],
}

/// One transfer in progress on the receiving side: the point `R` to send, the
/// chosen index, and the key that opens the chosen value.
pub struct CO15Request {
    r: [u8; 32],
    choice: usize,
    key: [u8; 32],
}

impl CO15Receiver {
    /// The sender's public point `S`.
    pub closed spec fn point_s(&self) -> Seq<u8> {
        self.s@
    }

    /// Sets up a receiver from the sender's setup message. Fails where it does
    /// not encode a point of the group.
    pub fn setup(s: [u8; 32]) -> (r: Result<CO15Receiver, OTError>)
        ensures
            r is Ok <==> ed25519_decodes(s@),
            r matches Ok(rcv) ==> rcv.point_s() == s@,
    {
        match point_check(&s) {
            Ok(()) => Ok(CO15Receiver { s }),
            Err(e) => Err(OTError::Serialize { source: e }),
        }
    }

    /// Starts a transfer that chooses index `choice`, with the scalar `x`
    /// (drawn uniformly by the caller): `R = c·S + x·B`, and the key
    /// `Keccak256(S ‖ R ‖ x·S)`. Fails where `x` encodes no scalar.
    pub fn request(&self, choice: usize, x: [u8; 32]) -> (res: Result<CO15Request, OTError>)
        ensures
            res is Ok <==> (co15_request_point(self.point_s(), choice as u64, x@) is Some
                && ed25519_mul(self.point_s(), x@) is Some),
            res matches Ok(q) ==> {
                &&& q.choice() == choice
                &&& co15_request_point(self.point_s(), choice as u64, x@) == Some(q.point_r())
                &&& q.key() == co15_key(
                    self.point_s(),
                    q.point_r(),
                    ed25519_mul(self.point_s(), x@)->Some_0,
                )
            },
    {
        let cf = match scalar_of(choice as u64) {
            Ok(f) => f,
            Err(e) => {
                return Err(OTError::Serialize { source: e });
            },
        };
        let cs = match point_mul(&self.s, &cf) {
            Ok(p) => p,
            Err(e) => {
                return Err(OTError::Serialize { source: e });
            },
        };
        let xb = match base_mul(&x) {
            Ok(p) => p,
            Err(e) => {
                return Err(OTError::Serialize { source: e });
            },
        };
        let r = match point_add(&cs, &xb) {
            Ok(p) => p,
            Err(e) => {
                return Err(OTError::Serialize { source: e });
            },
        };
        let k = match point_mul(&self.s, &x) {
            Ok(p) => p,
            Err(e) => {
                return Err(OTError::Serialize { source: e });
            },
        };
        let key = keccak256(&transcript(&self.s, &r, &k));
        Ok(CO15Request { r, choice, key })
    }
}

impl CO15Request {
    /// The point `R`.
    pub closed spec fn point_r(&self) -> Seq<u8> {
        self.r@
    }

    /// The chosen index.
    pub closed spec fn choice(&self) -> usize {
        self.choice
    }

    /// The key that opens the chosen value.
    pub closed spec fn key(&self) -> Seq<u8> {
        self.key@
    }

    /// The message for the sender: the encoding of `R`.
    pub fn message(&self) -> (r: [u8; 32])
        ensures
            r@ == self.point_r(),
    {
        self.r
    }

    /// Opens the chosen one of the sender's ciphertexts.
    pub fn receive<V: Block>(&self, ciphertexts: &Vec<V>) -> (r: V)
        requires
            self.choice() < ciphertexts@.len(),
        ensures
            r.chunks() == decrypt_chunks(self.key(), ciphertexts@[self.choice() as int].chunks()),
    {
        ciphertexts[self.choice].decrypt(&self.key)
    }
}

/// Where the receiver's key point `x·S` is the sender's key point `y·R − c·T`
/// of the chosen index `c` (the Diffie-Hellman agreement, which rests on the
/// group law), the key that the receiver derives opens `values[c]` from what the
/// sender sent.
pub proof fn lemma_co15_opens_choice<V: Block>(
    y: Seq<u8>,
    s: Seq<u8>,
    t: Seq<u8>,
    r: Seq<u8>,
    values: Seq<V>,
    ciphertexts: Seq<V>,
    c: int,
    k: Seq<u8>,
)
    requires
        co15_sealed(y, s, t, r, values, ciphertexts),
        0 <= c < values.len(),
        co15_sender_point(y, t, r, c as u64) == Some(k),
    ensures
        decrypt_chunks(co15_key(s, r, k), ciphertexts[c].chunks()) == values[c].chunks(),
{
}

/// `S ‖ R ‖ K`, the bytes hashed into a key.
fn transcript(s: &[u8; 32], r: &[u8; 32], k: &[u8; 32]) -> (out: Vec<u8>)
    ensures
        out@ == s@ + r@ + k@,
{
    let mut out: Vec<u8> = Vec::new();
    let mut i: usize = 0;
    while i < 32
        invariant
            i <= 32,
            out@ =~= s@.take(i as int),
        decreases 32 - i,
    {
        out.push(s[i]);
        i = i + 1;
    }
    i = 0;
    while i < 32
        invariant
            i <= 32,
            out@ =~= s@ + r@.take(i as int),
        decreases 32 - i,
    {
        out.push(r[i]);
        i = i + 1;
    }
    i = 0;
    while i < 32
        invariant
            i <= 32,
            out@ =~= s@ + r@ + k@.take(i as int),
        decreases 32 - i,
    {
        out.push(k[i]);
        i = i + 1;
    }
    assert(s@.take(32) =~= s@);
    assert(r@.take(32) =~= r@);
    assert(k@.take(32) =~= k@);
    out
}

} // verus!
