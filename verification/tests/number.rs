use dcim::number::{compare_fractions, Class, Number, Relation};

fn number(v: i64) -> Number {
    if v == 0 {
        return Number::zero(256);
    }
    let m = v.unsigned_abs();
    let bits = 64 - m.leading_zeros();
    let mut mantissa = (m << (64 - bits)).to_be_bytes().to_vec();
    while mantissa.last() == Some(&0) {
        mantissa.pop();
    }
    Number { class: Class::Finite, negative: v < 0, mantissa, exponent: bits as i32, precision: 256 }
}

fn finite(negative: bool, mantissa: Vec<u8>, exponent: i32) -> Number {
    Number { class: Class::Finite, negative, mantissa, exponent, precision: 256 }
}

fn special(class: Class, negative: bool) -> Number {
    Number { class, negative, mantissa: Vec::new(), exponent: 0, precision: 256 }
}

#[test]
fn the_fixed_numbers() {
    let zero = Number::zero(7);
    assert_eq!(zero.class, Class::Zero);
    assert_eq!(zero.precision, 7);
    assert_eq!(zero.magnitude(), Some(0));
    let minus_one = Number::minus_one(64);
    assert!(minus_one.negative);
    assert_eq!(minus_one.magnitude(), Some(1));
    assert_eq!(minus_one.mantissa, vec![0x80]);
    assert_eq!(minus_one.exponent, 1);
    let ten = Number::ten(64);
    assert!(!ten.negative);
    assert_eq!(ten.magnitude(), Some(10));
}

#[test]
fn the_integer_part_is_read() {
    assert_eq!(number(5).magnitude(), Some(5));
    assert_eq!(number(-5).magnitude(), Some(5));
    assert_eq!(number(65536).magnitude(), Some(65536));
    assert_eq!(number(i64::MAX).magnitude(), Some(i64::MAX as u64));
    assert_eq!(finite(false, vec![0xFF; 8], 64).magnitude(), Some(u64::MAX));
    assert_eq!(finite(false, vec![0x80], 65).magnitude(), None);
    assert_eq!(finite(false, vec![0x80], 0).magnitude(), Some(0));
    assert_eq!(finite(false, vec![0xC0], 1).magnitude(), Some(1));
    assert_eq!(finite(false, vec![0xA8], 3).magnitude(), Some(5));
    assert_eq!(finite(false, vec![0x80], -4).magnitude(), Some(0));
    assert_eq!(special(Class::Infinite, false).magnitude(), Some(0));
    assert_eq!(special(Class::NotANumber, false).magnitude(), Some(0));
}

#[test]
fn a_spelling_that_is_not_normal_counts_for_nothing() {
    let low = finite(false, vec![0x40], 3);
    assert!(!low.is_valid());
    assert_eq!(low.magnitude(), Some(0));
    assert_eq!(low.signum(), 0);
    assert_eq!(low.compare(&number(1)), Relation::Unordered);
    let padded = finite(false, vec![0x80, 0x00], 3);
    assert!(!padded.is_valid());
    let empty = finite(false, Vec::new(), 3);
    assert!(!empty.is_valid());
    assert!(number(3).is_valid());
}

#[test]
fn indices_are_read() {
    assert_eq!(number(7).to_usize(), Some(7));
    assert_eq!(number(0).to_usize(), Some(0));
    assert_eq!(number(-7).to_usize(), None);
    assert_eq!(finite(true, vec![0x80], 0).to_usize(), Some(0));
    assert_eq!(finite(false, vec![0x80], 70).to_usize(), None);
    assert_eq!(number(7).to_u32(), Some(7));
    assert_eq!(number(u32::MAX as i64).to_u32(), Some(u32::MAX));
    assert_eq!(number(u32::MAX as i64 + 1).to_u32(), None);
    assert_eq!(number(-1).to_u32(), None);
    assert_eq!(number(-9).magnitude_usize(), Some(9));
}

#[test]
fn the_integer_part_is_held_against_bounds() {
    assert!(number(-1).integer_at_least(-1));
    assert!(!number(-2).integer_at_least(-1));
    assert!(number(0).integer_at_least(-1));
    assert!(number(2).integer_at_least(2));
    assert!(!number(1).integer_at_least(2));
    assert!(finite(false, vec![0x80], 100).integer_at_least(2));
    assert!(!finite(true, vec![0x80], 100).integer_at_least(-1));
    assert!(number(36).integer_at_most(36));
    assert!(!number(37).integer_at_most(36));
    assert!(number(-37).integer_at_most(36));
    assert!(!finite(false, vec![0x80], 100).integer_at_most(36));
    assert!(number(0).integer_is_zero());
    assert!(finite(false, vec![0xFF], 0).integer_is_zero());
    assert!(!number(1).integer_is_zero());
    assert!(number(-1).integer_is_negative());
    assert!(!finite(true, vec![0x80], 0).integer_is_negative());
}

#[test]
fn signs_are_read() {
    assert_eq!(number(3).signum(), 1);
    assert_eq!(number(-3).signum(), -1);
    assert_eq!(number(0).signum(), 0);
    assert_eq!(special(Class::Infinite, true).signum(), -1);
    assert_eq!(special(Class::NotANumber, true).signum(), 0);
    assert!(number(-3).is_below_zero());
    assert!(!number(0).is_below_zero());
    assert!(number(0).is_at_most_zero());
    assert!(number(-1).is_at_most_zero());
    assert!(!number(1).is_at_most_zero());
    assert!(!special(Class::NotANumber, false).is_at_most_zero());
    assert!(number(0).is_zero());
    assert!(!number(1).is_zero());
}

#[test]
fn numbers_are_compared() {
    assert_eq!(number(2).compare(&number(3)), Relation::Less);
    assert_eq!(number(3).compare(&number(2)), Relation::Greater);
    assert_eq!(number(3).compare(&number(3)), Relation::Equal);
    assert_eq!(number(-2).compare(&number(-3)), Relation::Greater);
    assert_eq!(number(-2).compare(&number(3)), Relation::Less);
    assert_eq!(number(0).compare(&number(-3)), Relation::Greater);
    assert_eq!(number(0).compare(&special(Class::Zero, true)), Relation::Equal);
    assert_eq!(number(256).compare(&number(255)), Relation::Greater);
    assert_eq!(number(257).compare(&number(256)), Relation::Greater);
    assert_eq!(number(5).compare(&special(Class::Infinite, false)), Relation::Less);
    assert_eq!(number(5).compare(&special(Class::Infinite, true)), Relation::Greater);
    assert_eq!(
        special(Class::Infinite, false).compare(&special(Class::Infinite, false)),
        Relation::Equal
    );
    assert_eq!(number(5).compare(&special(Class::NotANumber, false)), Relation::Unordered);
    assert_eq!(special(Class::NotANumber, false).compare(&number(5)), Relation::Unordered);
    let half = finite(false, vec![0x80], 0);
    let three_quarters = finite(false, vec![0xC0], 0);
    assert_eq!(half.compare(&three_quarters), Relation::Less);
    assert_eq!(three_quarters.compare(&half), Relation::Greater);
    assert_eq!(half.compare(&number(1)), Relation::Less);
}

#[test]
fn fractions_are_compared() {
    assert_eq!(compare_fractions(&vec![0x80], &vec![0x80]), Relation::Equal);
    assert_eq!(compare_fractions(&vec![0x80], &vec![0x80, 0x01]), Relation::Less);
    assert_eq!(compare_fractions(&vec![0x80, 0x01], &vec![0x80]), Relation::Greater);
    assert_eq!(compare_fractions(&vec![0x81], &vec![0x80, 0xFF]), Relation::Greater);
    assert_eq!(compare_fractions(&Vec::new(), &Vec::new()), Relation::Equal);
}

#[test]
fn absolute_values_are_held_against_one() {
    assert_eq!(number(1).compare_magnitude_with_one(), Relation::Equal);
    assert_eq!(number(-1).compare_magnitude_with_one(), Relation::Equal);
    assert_eq!(number(2).compare_magnitude_with_one(), Relation::Greater);
    assert_eq!(number(0).compare_magnitude_with_one(), Relation::Less);
    assert_eq!(finite(true, vec![0x80], 0).compare_magnitude_with_one(), Relation::Less);
    assert_eq!(finite(false, vec![0xC0], 1).compare_magnitude_with_one(), Relation::Greater);
    assert_eq!(
        special(Class::Infinite, true).compare_magnitude_with_one(),
        Relation::Greater
    );
    assert_eq!(
        special(Class::NotANumber, false).compare_magnitude_with_one(),
        Relation::Unordered
    );
    assert!(number(1).is_one());
    assert!(!number(-1).is_one());
    assert!(!number(2).is_one());
}

#[test]
fn a_copy_is_the_same_number() {
    let n = number(-12345);
    let copy = n.clone();
    assert_eq!(copy.class, n.class);
    assert_eq!(copy.negative, n.negative);
    assert_eq!(copy.mantissa, n.mantissa);
    assert_eq!(copy.exponent, n.exponent);
    assert_eq!(copy.precision, n.precision);
}

#[test]
fn fractions_are_seen() {
    assert!(!number(5).has_fraction());
    assert!(!number(0).has_fraction());
    assert!(!number(-256).has_fraction());
    assert!(finite(false, vec![0x80], 0).has_fraction());
    assert!(finite(false, vec![0xA0], 2).has_fraction());
    assert!(!finite(false, vec![0xA0], 3).has_fraction());
    assert!(finite(false, vec![0x80, 0x01], 15).has_fraction());
    assert!(!finite(false, vec![0x80, 0x01], 16).has_fraction());
    assert!(!finite(false, vec![0x80, 0x01], 4000).has_fraction());
    assert!(finite(true, vec![0x80], -3).has_fraction());
    assert!(!special(Class::Infinite, false).has_fraction());
    assert!(!special(Class::NotANumber, false).has_fraction());
    assert!(!finite(false, vec![0x40], 0).has_fraction());
    assert_eq!(number(5).to_index(), Some(5));
    assert_eq!(number(0).to_index(), Some(0));
    assert_eq!(number(-5).to_index(), None);
    assert_eq!(finite(false, vec![0xA0], 2).to_index(), None);
    assert_eq!(finite(false, vec![0x80], 70).to_index(), None);
}

fn from_double(x: f64) -> Number {
    if x.is_nan() {
        return special(Class::NotANumber, false);
    }
    if x.is_infinite() {
        return special(Class::Infinite, x < 0.0);
    }
    if x == 0.0 {
        return special(Class::Zero, x.is_sign_negative());
    }
    let bits = x.to_bits();
    let stored = ((bits >> 52) & 0x7FF) as i32;
    let fraction = bits & ((1u64 << 52) - 1);
    let (mantissa, exponent) = if stored == 0 {
        (fraction, -1074)
    } else {
        (fraction | (1u64 << 52), stored - 1075)
    };
    let shift = mantissa.leading_zeros();
    let mut bytes = (mantissa << shift).to_be_bytes().to_vec();
    while bytes.last() == Some(&0) {
        bytes.pop();
    }
    finite(x < 0.0, bytes, exponent + 64 - shift as i32)
}

fn relation(x: f64, y: f64) -> Relation {
    match x.partial_cmp(&y) {
        Some(std::cmp::Ordering::Less) => Relation::Less,
        Some(std::cmp::Ordering::Equal) => Relation::Equal,
        Some(std::cmp::Ordering::Greater) => Relation::Greater,
        None => Relation::Unordered,
    }
}

fn samples() -> Vec<f64> {
    let mut values = vec![
        0.0,
        -0.0,
        1.0,
        -1.0,
        0.5,
        -0.5,
        1.5,
        2.0,
        2.5,
        255.0,
        256.0,
        256.5,
        65535.0,
        65536.0,
        1e300,
        -1e300,
        1e-300,
        5e-324,
        18446744073709551615.0,
        18446744073709549568.0,
        18446744073709551616.0,
        36893488147419103232.0,
        f64::MAX,
        f64::MIN_POSITIVE,
        f64::INFINITY,
        f64::NEG_INFINITY,
        f64::NAN,
    ];
    let mut seed: u64 = 0x9E37_79B9_7F4A_7C15;
    for _ in 0..400 {
        seed = seed.wrapping_mul(6364136223846793005).wrapping_add(1442695040888963407);
        let x = f64::from_bits(seed);
        if x.is_finite() {
            values.push(x);
        }
        seed = seed.wrapping_mul(6364136223846793005).wrapping_add(1442695040888963407);
        let whole = (seed >> 20) as f64;
        let scale = [1.0, 0.5, 0.001, 1024.0, 3.0][(seed % 5) as usize];
        values.push(if seed & 1 == 0 { whole * scale } else { -whole * scale });
    }
    values
}

#[test]
fn the_spelling_agrees_with_binary_doubles() {
    let values = samples();
    for &x in &values {
        let n = from_double(x);
        assert!(n.is_valid());
        let sign = if x > 0.0 {
            1
        } else if x < 0.0 {
            -1
        } else {
            0
        };
        assert_eq!(n.signum(), sign, "sign of {}", x);
        if x.is_finite() {
            let whole = x.trunc().abs();
            let expected = if whole < 18446744073709551616.0 { Some(whole as u64) } else { None };
            assert_eq!(n.magnitude(), expected, "integer part of {}", x);
            assert_eq!(n.has_fraction(), x.fract() != 0.0, "fraction of {}", x);
            assert_eq!(n.integer_is_zero(), x.trunc() == 0.0);
            assert_eq!(n.integer_is_negative(), x.trunc() < 0.0);
            assert_eq!(n.integer_at_least(2), x.trunc() >= 2.0);
            assert_eq!(n.integer_at_least(-1), x.trunc() >= -1.0);
            assert_eq!(n.integer_at_most(36), x.trunc() <= 36.0);
        } else {
            assert_eq!(n.magnitude(), Some(0));
            assert!(!n.has_fraction());
        }
        assert_eq!(n.compare_magnitude_with_one(), relation(x.abs(), 1.0), "size of {}", x);
        assert_eq!(n.is_below_zero(), x < 0.0);
        assert_eq!(n.is_at_most_zero(), x <= 0.0);
        assert_eq!(n.is_one(), x == 1.0);
        assert_eq!(n.is_zero(), x == 0.0);
    }
    for &x in values.iter().step_by(7) {
        for &y in values.iter().step_by(5) {
            assert_eq!(from_double(x).compare(&from_double(y)), relation(x, y), "{} and {}", x, y);
        }
    }
}
