use bls_crypto::field::{Fq, FQ_BYTES};
use bls_crypto::signature::{BLSError, Fq2, G1Affine, G2Affine, PublicKey, Signature};
use bls_crypto::y_to_bit::YToBitGadget;

const MODULUS_LE: [u8; 48] = [
    1, 0, 0, 0, 0, 192, 8, 133, 0, 0, 0, 48, 68, 93, 11, 23, 0, 72, 9, 186, 47, 98, 243, 30, 143,
    19, 245, 0, 243, 217, 34, 26, 59, 73, 161, 108, 192, 5, 59, 198, 234, 16, 197, 23, 70, 58, 174,
    1,
];

fn fq(v: u64) -> Fq {
    let mut b = vec![0u8; FQ_BYTES];
    b[..8].copy_from_slice(&v.to_le_bytes());
    Fq::from_le_bytes(&b).unwrap()
}

fn g1(x: Fq, y: Fq) -> G1Affine {
    G1Affine { x, y, infinity: false }
}

fn g2(a: u64, b: u64, c: u64, d: u64) -> G2Affine {
    G2Affine {
        x: Fq2 { c0: fq(a), c1: fq(b) },
        y: Fq2 { c0: fq(c), c1: fq(d) },
        infinity: false,
    }
}

fn bytes_of(v: u64) -> Vec<u8> {
    fq(v).to_le_bytes()
}

// (2, 3) and (2, -3) lie on y^2 = x^3 + 1.
#[test]
fn encode_sets_sign_bit_only_above_half() {
    let low = Signature::from_sig(g1(fq(2), fq(3)));
    let enc = low.write();
    assert_eq!(enc, bytes_of(2));
    let high = Signature::from_sig(g1(fq(2), fq(3).neg()));
    let enc = high.write();
    let mut expected = bytes_of(2);
    expected[FQ_BYTES - 1] |= 0x80;
    assert_eq!(enc, expected);
}

#[test]
fn decode_round_trip_from_either_root() {
    for y in [fq(3), fq(3).neg()] {
        let y_bytes = y.to_le_bytes();
        let enc = Signature::from_sig(g1(fq(2), y)).write();
        for root in [fq(3), fq(3).neg()] {
            let (x, over) = Signature::read_x(&enc).unwrap();
            assert_eq!(x.to_le_bytes(), bytes_of(2));
            let sig = Signature::read_with_root(x, over, Some(root)).unwrap();
            let p = sig.get_sig();
            assert_eq!(p.x.to_le_bytes(), bytes_of(2));
            assert_eq!(p.y.to_le_bytes(), y_bytes);
            assert!(!p.infinity);
        }
    }
}

#[test]
fn flipped_sign_bit_decodes_to_negation() {
    let mut enc = Signature::from_sig(g1(fq(2), fq(3))).write();
    enc[FQ_BYTES - 1] ^= 0x80;
    let (x, over) = Signature::read_x(&enc).unwrap();
    assert!(over);
    let sig = Signature::read_with_root(x, over, Some(fq(3))).unwrap();
    assert_eq!(sig.get_sig().y.to_le_bytes(), fq(3).neg().to_le_bytes());
}

#[test]
fn decode_without_square_root_fails() {
    // flipping a low bit turns x = 2 into x = 10, and 10^3 + 1 = 1001 is
    // not a square in the field, so the square-root step finds none
    let mut enc = bytes_of(2);
    enc[0] ^= 0x08;
    let (x, over) = Signature::read_x(&enc).unwrap();
    assert_eq!(x.to_le_bytes(), bytes_of(10));
    assert!(!over);
    let r = Signature::read_with_root(x, over, None);
    assert!(matches!(r, Err(BLSError::DecodeNoSquareRoot)));
}

#[test]
fn decode_short_read_fails() {
    let enc = vec![0u8; FQ_BYTES - 1];
    assert!(matches!(Signature::read_x(&enc), Err(BLSError::DecodeShortRead)));
    assert!(matches!(Signature::read_x(&vec![]), Err(BLSError::DecodeShortRead)));
}

#[test]
fn decode_reads_exactly_one_element() {
    let mut enc = Signature::from_sig(g1(fq(2), fq(3).neg())).write();
    enc.extend_from_slice(&[0xff, 0xff]);
    let (x, over) = Signature::read_x(&enc).unwrap();
    assert_eq!(x.to_le_bytes(), bytes_of(2));
    assert!(over);
}

#[test]
fn decode_rejects_unreduced_x() {
    let enc = MODULUS_LE.to_vec();
    assert!(matches!(Signature::read_x(&enc), Err(BLSError::DecodeInvalidField)));
}

#[test]
fn field_element_must_be_reduced() {
    assert!(Fq::from_le_bytes(&MODULUS_LE.to_vec()).is_none());
    let mut below = MODULUS_LE.to_vec();
    below[0] = 0;
    assert!(Fq::from_le_bytes(&below).is_some());
    assert!(Fq::from_le_bytes(&vec![0u8; 47]).is_none());
}

#[test]
fn negation_and_order() {
    let mut p_minus_one = MODULUS_LE.to_vec();
    p_minus_one[0] = 0;
    assert_eq!(fq(1).neg().to_le_bytes(), p_minus_one);
    assert_eq!(fq(0).neg().to_le_bytes(), bytes_of(0));
    assert!(fq(3).le(&fq(3).neg()));
    assert!(!fq(3).neg().le(&fq(3)));
    assert!(fq(4).eq(&fq(4)));
    assert!(!fq(4).eq(&fq(5)));
    assert!(!Fq::half().is_over_half());
    assert!(Fq::half().neg().is_over_half());
}

#[test]
fn message_hashes_report_first_failure() {
    let messages = vec![
        (b"one".to_vec(), b"x1".to_vec()),
        (b"two".to_vec(), b"x2".to_vec()),
        (b"three".to_vec(), b"x3".to_vec()),
    ];
    let hashes = vec![Some(g1(fq(2), fq(3))), None, None];
    match Signature::collect_message_hashes(&messages, &hashes) {
        Err(BLSError::HashToCurveFailed(m, e)) => {
            assert_eq!(m, b"two".to_vec());
            assert_eq!(e, b"x2".to_vec());
        }
        _ => panic!("expected a hash failure"),
    }
    let hashes = vec![Some(g1(fq(2), fq(3))), Some(g1(fq(0), fq(1))), Some(g1(fq(8), fq(4)))];
    let hs = Signature::collect_message_hashes(&messages, &hashes).unwrap();
    assert_eq!(hs.len(), 3);
    assert_eq!(hs[2].x.to_le_bytes(), bytes_of(8));
    let empty: Vec<(Vec<u8>, Vec<u8>)> = vec![];
    assert!(Signature::collect_message_hashes(&empty, &vec![]).unwrap().is_empty());
}

#[test]
fn batch_pairs_put_signature_with_negated_generator_first() {
    let sig = Signature::from_sig(g1(fq(2), fq(3)));
    let gen = g2(1, 2, 3, 0);
    let pks = vec![PublicKey::from_pk(g2(5, 6, 7, 8)), PublicKey::from_pk(g2(9, 10, 11, 12))];
    let hs = vec![g1(fq(0), fq(1)), g1(fq(2), fq(3).neg()), g1(fq(8), fq(4))];
    let pairs = sig.batch_pairs(&gen, &pks, &hs);
    assert_eq!(pairs.len(), 3);
    assert_eq!(pairs[0].0.y.to_le_bytes(), bytes_of(3));
    assert_eq!(pairs[0].1.x.c0.to_le_bytes(), bytes_of(1));
    assert_eq!(pairs[0].1.y.c0.to_le_bytes(), fq(3).neg().to_le_bytes());
    assert_eq!(pairs[0].1.y.c1.to_le_bytes(), bytes_of(0));
    assert_eq!(pairs[1].0.y.to_le_bytes(), bytes_of(1));
    assert_eq!(pairs[1].1.y.c1.to_le_bytes(), bytes_of(8));
    assert_eq!(pairs[2].0.y.to_le_bytes(), fq(3).neg().to_le_bytes());
    assert_eq!(pairs[2].1.x.c0.to_le_bytes(), bytes_of(9));
    // an empty batch leaves the signature's pair alone
    let none = sig.batch_pairs(&gen, &vec![], &vec![]);
    assert_eq!(none.len(), 1);
}

#[test]
fn batch_outcome() {
    assert!(Signature::batch_verify_outcome(true).is_ok());
    assert!(matches!(Signature::batch_verify_outcome(false), Err(BLSError::VerificationFailed)));
}

#[test]
fn public_key_round_trips_its_point() {
    let pk = PublicKey::from_pk(g2(5, 6, 7, 8));
    let p = pk.get_pk();
    assert_eq!(p.y.c1.to_le_bytes(), bytes_of(8));
}

#[test]
fn encoder_and_gadget_agree_on_the_sign() {
    let ys = [fq(0), fq(1), fq(3), fq(3).neg(), fq(1).neg(), Fq::half(), Fq::half().neg()];
    for y in ys {
        let bit = YToBitGadget::y_to_bit_g1(&y);
        let enc = Signature::from_sig(g1(fq(2), y)).write();
        assert_eq!(enc[FQ_BYTES - 1] & 0x80 == 0x80, bit);
    }
}

#[test]
fn batch_verify_pairs_hash_then_lay_out() {
    let sig = Signature::from_sig(g1(fq(2), fq(3)));
    let gen = g2(1, 2, 3, 4);
    let pks = vec![PublicKey::from_pk(g2(5, 6, 7, 8))];
    let messages = vec![(b"hello".to_vec(), vec![])];
    let pairs = sig
        .batch_verify_pairs(&gen, &pks, &messages, &vec![Some(g1(fq(0), fq(1)))])
        .unwrap();
    assert_eq!(pairs.len(), 2);
    assert_eq!(pairs[0].1.y.c1.to_le_bytes(), fq(4).neg().to_le_bytes());
    assert_eq!(pairs[1].0.y.to_le_bytes(), bytes_of(1));
    assert_eq!(pairs[1].1.x.c1.to_le_bytes(), bytes_of(6));
    match sig.batch_verify_pairs(&gen, &pks, &messages, &vec![None]) {
        Err(BLSError::HashToCurveFailed(m, e)) => {
            assert_eq!(m, b"hello".to_vec());
            assert!(e.is_empty());
        }
        _ => panic!("expected a hash failure"),
    }
}
