use bls_crypto::field::{Fq, FQ_BYTES};
use bls_crypto::y_to_bit::YToBitGadget;

fn fq(v: u64) -> Fq {
    let mut b = vec![0u8; FQ_BYTES];
    b[..8].copy_from_slice(&v.to_le_bytes());
    Fq::from_le_bytes(&b).unwrap()
}

fn half_plus_one() -> Fq {
    let mut b = Fq::half().to_le_bytes();
    b[0] += 1;
    Fq::from_le_bytes(&b).unwrap()
}

fn p_minus_one() -> Fq {
    fq(1).neg()
}

fn g2_sign(c0: &Fq, c1: &Fq) -> bool {
    c1.is_over_half() || (c1.is_zero() && c0.is_over_half())
}

fn check_g2_edge(c1: Fq, expected_when_c0_small: bool) {
    for c0 in [fq(0), fq(3), Fq::half(), half_plus_one(), p_minus_one()] {
        let bit = YToBitGadget::y_to_bit_g2(&c0, &c1);
        assert_eq!(bit, g2_sign(&c0, &c1));
        let w = YToBitGadget::g2_witness(&c0, &c1);
        assert_eq!(w.y_bit, bit);
        assert_eq!(w.c1.bit, c1.is_over_half());
        assert_eq!(w.c1_zero, c1.is_zero());
        assert_eq!(w.bc, w.c1_zero && w.c0.bit);
        // (1 - c1_bit) * bc == y_bit - c1_bit over the booleans
        let lhs = (1 - w.c1.bit as i32) * (w.bc as i32);
        assert_eq!(lhs, w.y_bit as i32 - w.c1.bit as i32);
    }
    let bit = YToBitGadget::y_to_bit_g2(&fq(5), &c1);
    assert_eq!(bit, expected_when_c0_small);
}

#[test]
fn test_y_to_bit_g1() {
    // points of y^2 = x^3 + 1 and their negations
    let ys = [fq(3), fq(3).neg(), fq(1), fq(1).neg(), fq(0)];
    let expected = [false, true, false, true, false];
    for (y, e) in ys.iter().zip(expected.iter()) {
        let bit = YToBitGadget::y_to_bit_g1(y);
        assert_eq!(bit, y.is_over_half());
        assert_eq!(bit, *e);
    }
}

#[test]
fn test_y_to_bit_g2() {
    let cases = [
        (fq(7), fq(9), false),
        (fq(7), fq(9).neg(), true),
        (fq(7).neg(), fq(9), false),
        (fq(7).neg(), fq(0), true),
        (fq(7), fq(0), false),
        (fq(0), fq(0), false),
    ];
    for (c0, c1, e) in cases.iter() {
        let bit = YToBitGadget::y_to_bit_g2(c0, c1);
        assert_eq!(bit, *e);
        assert_eq!(bit, g2_sign(c0, c1));
    }
}

#[test]
fn test_y_to_bit_g2_c1_is_half() {
    check_g2_edge(Fq::half(), false);
}

#[test]
fn test_y_to_bit_g2_c1_is_zero() {
    check_g2_edge(fq(0), false);
    assert!(YToBitGadget::y_to_bit_g2(&half_plus_one(), &fq(0)));
    assert!(!YToBitGadget::y_to_bit_g2(&Fq::half(), &fq(0)));
}

#[test]
fn test_y_to_bit_g2_c1_is_p_minus_1() {
    check_g2_edge(p_minus_one(), true);
}

#[test]
fn test_y_to_bit_g2_c1_is_half_plus_one() {
    check_g2_edge(half_plus_one(), true);
}

#[test]
fn normalize_witness_subtracts_half() {
    let w = YToBitGadget::normalize(&p_minus_one());
    assert!(w.bit);
    // (p - 1) - (p - 1) / 2 == (p - 1) / 2
    assert_eq!(w.adjusted.to_le_bytes(), Fq::half().to_le_bytes());
    let w = YToBitGadget::normalize(&half_plus_one());
    assert!(w.bit);
    assert_eq!(w.adjusted.to_le_bytes(), fq(1).to_le_bytes());
    let w = YToBitGadget::normalize(&Fq::half());
    assert!(!w.bit);
    assert_eq!(w.adjusted.to_le_bytes(), Fq::half().to_le_bytes());
}

#[test]
fn is_eq_zero_bit() {
    assert!(YToBitGadget::is_eq_zero(&fq(0)));
    assert!(!YToBitGadget::is_eq_zero(&fq(1)));
    assert!(!YToBitGadget::is_eq_zero(&p_minus_one()));
}
