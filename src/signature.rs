use vstd::prelude::*;
use crate::field::{Fq, FQ_BYTES, modulus, half, neg_val, lemma_half_of_modulus, lemma_last_byte_small};

verus! {

/// The failures of verification and of decoding.
#[derive(Debug)]
pub enum BLSError {
    /// The hash-to-curve oracle failed on this message and extra data.
    HashToCurveFailed(Vec<u8>, Vec<u8>),
    /// The pairing product was not the identity.
    VerificationFailed,
    /// `x^3 + a*x + b` has no square root for the encoded `x`.
    DecodeNoSquareRoot,
    /// Fewer bytes than an encoded element holds.
    DecodeShortRead,
    /// The encoded `x` is not below the modulus.
    DecodeInvalidField,
}

/// Sets the high bit of the last byte when `over` holds.
pub open spec fn with_sign(x: Seq<u8>, over: bool) -> Seq<u8> {
    if over {
        x.update(FQ_BYTES - 1, x[FQ_BYTES - 1] | 0x80u8)
    } else {
        x
    }
}

/// The encoding of the affine point `(x, y)`: `x`'s bytes, with the high
/// bit of the last byte set iff `y > half`.
pub open spec fn encode_spec(x: Seq<u8>, y: nat) -> Seq<u8> {
    with_sign(x, y > half())
}

/// The sign flag that an encoding carries.
pub open spec fn sign_flag(b: Seq<u8>) -> bool {
    b[FQ_BYTES - 1] & 0x80u8 == 0x80u8
}

/// The first `FQ_BYTES` bytes with the sign flag cleared.
pub open spec fn strip_sign(b: Seq<u8>) -> Seq<u8> {
    b.take(FQ_BYTES as int).update(FQ_BYTES - 1, b[FQ_BYTES - 1] & 0x7fu8)
}

/// The root that decoding picks out of `{s, -s}`: the smaller one when
/// the flag is clear, the other one when it is set.
pub open spec fn chosen_root(s: nat, over: bool) -> nat {
    if (s <= neg_val(s)) != over {
        s
    } else {
        neg_val(s)
    }
}

/// An affine point of G1 over the base field.
#[derive(Debug)]
pub struct G1Affine {
    pub x: Fq,
    pub y: Fq,
    pub infinity: bool,
}

impl G1Affine {
    pub open spec fn wf(&self) -> bool {
        self.x.wf() && self.y.wf()
    }

    /// The point as plain values.
    pub open spec fn model(&self) -> (nat, nat, bool) {
        (self.x.value(), self.y.value(), self.infinity)
    }

    pub fn copy(&self) -> (r: G1Affine)
        ensures
            r.x.bytes@ == self.x.bytes@,
            r.y.bytes@ == self.y.bytes@,
            r.infinity == self.infinity,
    {
        G1Affine {
            x: Fq { bytes: self.x.to_le_bytes() },
            y: Fq { bytes: self.y.to_le_bytes() },
            infinity: self.infinity,
        }
    }
}

/// An element `c0 + c1 * u` of the quadratic extension of the base field.
#[derive(Debug)]
pub struct Fq2 {
    pub c0: Fq,
    pub c1: Fq,
}

impl Fq2 {
    pub open spec fn wf(&self) -> bool {
        self.c0.wf() && self.c1.wf()
    }

    pub open spec fn model(&self) -> (nat, nat) {
        (self.c0.value(), self.c1.value())
    }

    pub fn copy(&self) -> (r: Fq2)
        ensures
            r.c0.bytes@ == self.c0.bytes@,
            r.c1.bytes@ == self.c1.bytes@,
    {
        Fq2 { c0: Fq { bytes: self.c0.to_le_bytes() }, c1: Fq { bytes: self.c1.to_le_bytes() } }
    }

    /// `-(c0 + c1 * u)`.
    pub fn neg(&self) -> (r: Fq2)
        requires
            self.wf(),
        ensures
            r.wf(),
            r.model() == (neg_val(self.c0.value()), neg_val(self.c1.value())),
    {
        Fq2 { c0: self.c0.neg(), c1: self.c1.neg() }
    }
}

/// An affine point of G2 over the quadratic extension.
#[derive(Debug)]
pub struct G2Affine {
    pub x: Fq2,
    pub y: Fq2,
    pub infinity: bool,
}

impl G2Affine {
    pub open spec fn wf(&self) -> bool {
        self.x.wf() && self.y.wf()
    }

    pub open spec fn model(&self) -> ((nat, nat), (nat, nat), bool) {
        (self.x.model(), self.y.model(), self.infinity)
    }

    pub fn copy(&self) -> (r: G2Affine)
        ensures
            r.model() == self.model(),
            r.x.c0.bytes@ == self.x.c0.bytes@,
            r.x.c1.bytes@ == self.x.c1.bytes@,
            r.y.c0.bytes@ == self.y.c0.bytes@,
            r.y.c1.bytes@ == self.y.c1.bytes@,
    {
        G2Affine { x: self.x.copy(), y: self.y.copy(), infinity: self.infinity }
    }

    /// The point's negation `(x, -y)`.
    pub fn neg(&self) -> (r: G2Affine)
        requires
            self.wf(),
        ensures
            r.wf(),
            r.model() == (
                self.x.model(),
                (neg_val(self.y.c0.value()), neg_val(self.y.c1.value())),
                self.infinity,
            ),
    {
        G2Affine { x: self.x.copy(), y: self.y.neg(), infinity: self.infinity }
    }
}

/// A BLS public key: a point of G2.
#[derive(Debug)]
pub struct PublicKey {
    pk: G2Affine,
}

impl PublicKey {
    /// The point that the key holds.
    pub closed spec fn point(&self) -> G2Affine {
        self.pk
    }

    pub fn from_pk(pk: G2Affine) -> (r: PublicKey)
        ensures
            r.point() == pk,
    {
        PublicKey { pk }
    }

    pub fn get_pk(&self) -> (r: G2Affine)
        ensures
            r.model() == self.point().model(),
    {
        self.pk.copy()
    }
}


/// A BLS signature: a point of G1.
#[derive(Debug)]
pub struct Signature {
    sig: G1Affine,
}

proof fn lemma_sign_bits(b: u8)
    requires
        b < 128,
    ensures
        (b | 0x80u8) & 0x80u8 == 0x80u8,
        (b | 0x80u8) & 0x7fu8 == b,
        b & 0x80u8 != 0x80u8,
        b & 0x7fu8 == b,
{
    assert((b | 0x80u8) & 0x80u8 == 0x80u8) by (bit_vector);
    assert((b | 0x80u8) & 0x7fu8 == b) by (bit_vector)
        requires
            b < 128,
    ;
    assert(b & 0x80u8 != 0x80u8) by (bit_vector)
        requires
            b < 128,
    ;
    assert(b & 0x7fu8 == b) by (bit_vector)
        requires
            b < 128,
    ;
}

/// A root is the smaller of `{s, -s}` exactly when it is at most `half`:
/// the decoder's test and the encoder's agree.
pub proof fn lemma_small_root_iff_not_over_half(s: nat)
    requires
        s < modulus(),
    ensures
        (s <= neg_val(s)) == (s <= half()),
{
    lemma_half_of_modulus();
}

/// Decoding with the sign flag flipped yields the negated `y`.
pub proof fn lemma_flipped_sign_negates(s: nat, over: bool)
    requires
        s < modulus(),
    ensures
        chosen_root(s, !over) == neg_val(chosen_root(s, over)),
        neg_val(neg_val(s)) == s,
{
}

/// Flipping the high bit of the last byte of an encoding flips the sign
/// flag and leaves the decoded `x` as it was; with the root choice below,
/// decoding then yields `-y`.
pub proof fn lemma_flipped_encoding(b: Seq<u8>)
    requires
        b.len() >= FQ_BYTES,
    ensures
        ({
            let f = b.update(FQ_BYTES - 1, b[FQ_BYTES - 1] ^ 0x80u8);
            &&& strip_sign(f) == strip_sign(b)
            &&& sign_flag(f) == !sign_flag(b)
        }),
{
    let v = b[FQ_BYTES - 1];
    let f = b.update(FQ_BYTES - 1, v ^ 0x80u8);
    assert((v ^ 0x80u8) & 0x7fu8 == v & 0x7fu8) by (bit_vector);
    assert(((v ^ 0x80u8) & 0x80u8 == 0x80u8) == !(v & 0x80u8 == 0x80u8)) by (bit_vector);
    assert(strip_sign(f) =~= strip_sign(b));
}

/// Encoding then decoding gives the point back: the stripped bytes are
/// `x`'s, and from either square root of `x^3 + a*x + b` the flag picks
/// `y`.
pub proof fn lemma_round_trip(x: &Fq, y: &Fq, s: nat)
    requires
        x.wf(),
        y.wf(),
        s == y.value() || s == neg_val(y.value()),
    ensures
        encode_spec(x.bytes@, y.value()).len() == FQ_BYTES,
        strip_sign(encode_spec(x.bytes@, y.value())) == x.bytes@,
        sign_flag(encode_spec(x.bytes@, y.value())) == (y.value() > half()),
        chosen_root(s, sign_flag(encode_spec(x.bytes@, y.value()))) == y.value(),
{
    lemma_last_byte_small(x);
    lemma_sign_bits(x.bytes@[FQ_BYTES - 1]);
    lemma_half_of_modulus();
    let e = encode_spec(x.bytes@, y.value());
    assert(strip_sign(e) =~= x.bytes@);
}

/// The compression bit that encoding stores is the G1 gadget's bit,
/// `y > half`.
pub proof fn lemma_encoding_matches_g1_gadget(x: &Fq, y: &Fq)
    requires
        x.wf(),
        y.wf(),
    ensures
        sign_flag(encode_spec(x.bytes@, y.value())) == (y.value() > half()),
{
    lemma_last_byte_small(x);
    lemma_sign_bits(x.bytes@[FQ_BYTES - 1]);
}

impl Signature {
    /// The point that the signature holds.
    pub closed spec fn point(&self) -> G1Affine {
        self.sig
    }

    pub fn from_sig(sig: G1Affine) -> (r: Signature)
        ensures
            r.point() == sig,
    {
        Signature { sig }
    }

    pub fn get_sig(&self) -> (r: G1Affine)
        ensures
            r.x.bytes@ == self.point().x.bytes@,
            r.y.bytes@ == self.point().y.bytes@,
            r.infinity == self.point().infinity,
    {
        self.sig.copy()
    }

    /// The compressed encoding: `x`'s bytes with the sign of `y` in the
    /// high bit of the last byte.
    pub fn write(&self) -> (r: Vec<u8>)
        requires
            self.point().wf(),
        ensures
            r@ == encode_spec(self.point().x.bytes@, self.point().y.value()),
    {
        let mut b = self.sig.x.to_le_bytes();
        if self.sig.y.is_over_half() {
            let last = b[FQ_BYTES - 1] | 0x80u8;
            b.set(FQ_BYTES - 1, last);
        }
        b
    }

    /// First step of decoding: reads `x` and the sign flag from the first
    /// `FQ_BYTES` bytes.
    pub fn read_x(bytes: &Vec<u8>) -> (r: Result<(Fq, bool), BLSError>)
        ensures
            bytes@.len() < FQ_BYTES <==> r matches Err(BLSError::DecodeShortRead),
            r matches Err(BLSError::DecodeInvalidField) <==> (bytes@.len() >= FQ_BYTES
                && crate::field::le_val(strip_sign(bytes@)) >= modulus()),
            r is Ok ==> ({
                let (x, over) = r->Ok_0;
                x.wf() && x.bytes@ == strip_sign(bytes@) && over == sign_flag(bytes@)
            }),
            !(r matches Err(BLSError::HashToCurveFailed(_, _))),
            !(r matches Err(BLSError::VerificationFailed)),
            !(r matches Err(BLSError::DecodeNoSquareRoot)),
    {
        if bytes.len() < FQ_BYTES {
            return Err(BLSError::DecodeShortRead);
        }
        let mut xb: Vec<u8> = Vec::new();
        let mut i: usize = 0;
        while i < FQ_BYTES
            invariant
                i <= FQ_BYTES,
                FQ_BYTES <= bytes@.len(),
                xb@ == bytes@.take(i as int),
            decreases FQ_BYTES - i,
        {
            xb.push(bytes[i]);
            i = i + 1;
            proof {
                assert(xb@ =~= bytes@.take(i as int));
            }
        }
        let last = bytes[FQ_BYTES - 1];
        let over = last & 0x80u8 == 0x80u8;
        xb.set(FQ_BYTES - 1, last & 0x7fu8);
        proof {
            assert(xb@ =~= strip_sign(bytes@));
        }
        match Fq::from_le_bytes(&xb) {
            Some(x) => Ok((x, over)),
            None => Err(BLSError::DecodeInvalidField),
        }
    }

    /// Second step of decoding: given a square root `s` of
    /// `x^3 + a*x + b`, or `None` where there is none, picks `y` from
    /// `{s, -s}` by the sign flag.
    pub fn read_with_root(x: Fq, over: bool, root: Option<Fq>) -> (r: Result<Signature, BLSError>)
        requires
            x.wf(),
            root is Some ==> root->0.wf(),
        ensures
            root is None <==> r matches Err(BLSError::DecodeNoSquareRoot),
            root is Some ==> r is Ok,
            r is Ok ==> ({
                let p = r->Ok_0.point();
                &&& p.wf()
                &&& p.x.bytes@ == x.bytes@
                &&& p.y.value() == chosen_root(root->0.value(), over)
                &&& !p.infinity
            }),
    {
        match root {
            None => Err(BLSError::DecodeNoSquareRoot),
            Some(s) => {
                let negs = s.neg();
                let y = if s.le(&negs) != over {
                    s
                } else {
                    negs
                };
                Ok(Signature { sig: G1Affine { x, y, infinity: false } })
            },
        }
    }

    /// Takes the oracle's hash of each message, or reports the first
    /// message, with its extra data, that the oracle could not hash.
    pub fn collect_message_hashes(
        messages: &Vec<(Vec<u8>, Vec<u8>)>,
        hashes: &Vec<Option<G1Affine>>,
    ) -> (r: Result<Vec<G1Affine>, BLSError>)
        requires
            hashes@.len() == messages@.len(),
        ensures
            r is Ok <==> (forall|i: int| 0 <= i < hashes@.len() ==> hashes@[i] is Some),
            r is Ok ==> r->Ok_0@.len() == hashes@.len() && (forall|i: int|
                0 <= i < hashes@.len() ==> r->Ok_0@[i].model() == hashes@[i]->0.model()),
            r is Err ==> (exists|i: int|
                {
                    &&& 0 <= i < hashes@.len()
                    &&& hashes@[i] is None
                    &&& forall|j: int| 0 <= j < i ==> hashes@[j] is Some
                    &&& r->Err_0 matches BLSError::HashToCurveFailed(m, e)
                    &&& m@ == messages@[i].0@
                    &&& e@ == messages@[i].1@
                }),
    {
        let mut out: Vec<G1Affine> = Vec::new();
        let mut i: usize = 0;
        while i < hashes.len()
            invariant
                hashes@.len() == messages@.len(),
                i <= hashes@.len(),
                out@.len() == i,
                forall|j: int| 0 <= j < i ==> hashes@[j] is Some,
                forall|j: int| 0 <= j < i ==> out@[j].model() == hashes@[j]->0.model(),
            decreases hashes@.len() - i,
        {
            match &hashes[i] {
                Some(h) => {
                    out.push(h.copy());
                },
                None => {
                    let m = messages[i].0.clone();
                    let e = messages[i].1.clone();
                    return Err(BLSError::HashToCurveFailed(m, e));
                },
            }
            i = i + 1;
        }
        Ok(out)
    }

    /// The point pairs of the batch equation
    /// `e(sig, -g2) * prod_i e(h_i, pk_i) = 1`: the signature with the
    /// negated generator first, then each hash with its key, as far as
    /// both lists reach.
    pub fn batch_pairs(
        &self,
        g2_generator: &G2Affine,
        pubkeys: &Vec<PublicKey>,
        hashes: &Vec<G1Affine>,
    ) -> (r: Vec<(G1Affine, G2Affine)>)
        requires
            g2_generator.wf(),
        ensures
            r@.len() == 1 + if hashes@.len() < pubkeys@.len() {
                hashes@.len()
            } else {
                pubkeys@.len()
            },
            r@[0].0.model() == self.point().model(),
            r@[0].1.model() == (
                g2_generator.x.model(),
                (neg_val(g2_generator.y.c0.value()), neg_val(g2_generator.y.c1.value())),
                g2_generator.infinity,
            ),
            forall|i: int| 0 <= i < r@.len() - 1 ==> r@[i + 1].0.model() == hashes@[i].model(),
            forall|i: int|
                0 <= i < r@.len() - 1 ==> r@[i + 1].1.model() == pubkeys@[i].point().model(),
    {
        let mut pairs: Vec<(G1Affine, G2Affine)> = Vec::new();
        pairs.push((self.sig.copy(), g2_generator.neg()));
        let n: usize = if hashes.len() < pubkeys.len() {
            hashes.len()
        } else {
            pubkeys.len()
        };
        let mut i: usize = 0;
        while i < n
            invariant
                n <= hashes@.len(),
                n <= pubkeys@.len(),
                n == hashes@.len() || n == pubkeys@.len(),
                i <= n,
                pairs@.len() == i + 1,
                pairs@[0].0.model() == self.point().model(),
                pairs@[0].1.model() == (
                    g2_generator.x.model(),
                    (neg_val(g2_generator.y.c0.value()), neg_val(g2_generator.y.c1.value())),
                    g2_generator.infinity,
                ),
                forall|j: int| 0 <= j < i ==> pairs@[j + 1].0.model() == hashes@[j].model(),
                forall|j: int| 0 <= j < i ==> pairs@[j + 1].1.model() == pubkeys@[j].point().model(),
            decreases n - i,
        {
            let h = hashes[i].copy();
            let k = pubkeys[i].get_pk();
            pairs.push((h, k));
            i = i + 1;
        }
        assert forall|j: int| 0 <= j < pairs@.len() - 1 implies pairs@[j + 1].1.model()
            == pubkeys@[j].point().model() by {
            assert(j < i);
        }
        pairs
    }

    /// Batch verification up to the product of pairings: collects the
    /// message hashes, reporting the first message that the oracle could
    /// not hash, and lays out the pairs of the batch equation.
    pub fn batch_verify_pairs(
        &self,
        g2_generator: &G2Affine,
        pubkeys: &Vec<PublicKey>,
        messages: &Vec<(Vec<u8>, Vec<u8>)>,
        hashes: &Vec<Option<G1Affine>>,
    ) -> (r: Result<Vec<(G1Affine, G2Affine)>, BLSError>)
        requires
            g2_generator.wf(),
            hashes@.len() == messages@.len(),
        ensures
            r is Ok <==> (forall|i: int| 0 <= i < hashes@.len() ==> hashes@[i] is Some),
            r is Err ==> (exists|i: int|
                {
                    &&& 0 <= i < hashes@.len()
                    &&& hashes@[i] is None
                    &&& forall|j: int| 0 <= j < i ==> hashes@[j] is Some
                    &&& r->Err_0 matches BLSError::HashToCurveFailed(m, e)
                    &&& m@ == messages@[i].0@
                    &&& e@ == messages@[i].1@
                }),
            r is Ok ==> ({
                let pairs = r->Ok_0@;
                &&& pairs.len() == 1 + if hashes@.len() < pubkeys@.len() {
                    hashes@.len()
                } else {
                    pubkeys@.len()
                }
                &&& pairs[0].0.model() == self.point().model()
                &&& pairs[0].1.model() == (
                    g2_generator.x.model(),
                    (neg_val(g2_generator.y.c0.value()), neg_val(g2_generator.y.c1.value())),
                    g2_generator.infinity,
                )
                &&& forall|i: int|
                    0 <= i < pairs.len() - 1 ==> pairs[i + 1].0.model() == hashes@[i]->0.model()
                &&& forall|i: int|
                    0 <= i < pairs.len() - 1 ==> pairs[i + 1].1.model()
                        == pubkeys@[i].point().model()
            }),
    {
        let hs = Self::collect_message_hashes(messages, hashes)?;
        let pairs = self.batch_pairs(g2_generator, pubkeys, &hs);
        assert forall|i: int| 0 <= i < pairs@.len() - 1 implies pairs@[i + 1].0.model()
            == hashes@[i]->0.model() by {
            assert(pairs@[i + 1].0.model() == hs@[i].model());
        }
        Ok(pairs)
    }

    /// The verdict on the product of pairings.
    pub fn batch_verify_outcome(product_is_one: bool) -> (r: Result<(), BLSError>)
        ensures
            product_is_one <==> r is Ok,
            !product_is_one ==> r matches Err(BLSError::VerificationFailed),
    {
        if product_is_one {
            Ok(())
        } else {
            Err(BLSError::VerificationFailed)
        }
    }

}

} // verus!
