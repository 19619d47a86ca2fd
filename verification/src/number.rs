use vstd::arithmetic::power2::{
    lemma2_to64, lemma2_to64_rest, lemma_pow2_strictly_increases, lemma_pow2_unfold, pow2,
};
use vstd::prelude::*;

verus! {

/// What kind of value a number holds.
#[derive(Clone, Copy, Debug, PartialEq, Eq, Structural)]
pub enum Class {
    Zero,
    Finite,
    Infinite,
    NotANumber,
}

/// How two numbers stand to each other.
#[derive(Clone, Copy, Debug, PartialEq, Eq, Structural)]
pub enum Relation {
    Less,
    Equal,
    Greater,
    Unordered,
}

/// A binary floating-point value, written out exactly.
///
/// A finite value is `0.m * 2^exponent`, where `m` are the bits of `mantissa`
/// from the first byte's highest bit down. The first bit is set and the last
/// byte is not zero, so every value has one spelling. `precision` is the
/// mantissa width in bits that the value was computed with.
#[derive(Debug)]
pub struct Number {
    pub class: Class,
    pub negative: bool,
    pub mantissa: Vec<u8>,
    pub exponent: i32,
    pub precision: u32,
}

/// The mathematical content of a [`Number`].
pub struct NumberView {
    pub class: Class,
    pub negative: bool,
    pub mantissa: Seq<u8>,
    pub exponent: int,
    pub precision: nat,
}

impl View for Number {
    type V = NumberView;

    open spec fn view(&self) -> NumberView {
        NumberView {
            class: self.class,
            negative: self.negative,
            mantissa: self.mantissa@,
            exponent: self.exponent as int,
            precision: self.precision as nat,
        }
    }
}

/// Bit `i` of a mantissa, counted from the highest bit of the first byte;
/// zero past its end.
pub open spec fn bit_at(m: Seq<u8>, i: int) -> nat {
    if 0 <= i && i / 8 < m.len() {
        ((m[i / 8] >> ((7 - i % 8) as u8)) & 1u8) as nat
    } else {
        0
    }
}

/// The natural number whose binary digits are the first `count` bits of `m`.
pub open spec fn leading_bits(m: Seq<u8>, count: nat) -> nat
    decreases count,
{
    if count == 0 {
        0
    } else {
        2 * leading_bits(m, (count - 1) as nat) + bit_at(m, count - 1)
    }
}

/// Which of two mantissas is the larger binary fraction. A mantissa that is
/// a proper prefix of the other is the smaller, as no mantissa ends in zero.
pub open spec fn fraction_order(a: Seq<u8>, b: Seq<u8>) -> Relation
    decreases a.len(),
{
    if a.len() == 0 && b.len() == 0 {
        Relation::Equal
    } else if a.len() == 0 {
        Relation::Less
    } else if b.len() == 0 {
        Relation::Greater
    } else if a[0] < b[0] {
        Relation::Less
    } else if a[0] > b[0] {
        Relation::Greater
    } else {
        fraction_order(a.drop_first(), b.drop_first())
    }
}

/// The relation seen from the other side.
pub open spec fn mirrored(r: Relation) -> Relation {
    match r {
        Relation::Less => Relation::Greater,
        Relation::Greater => Relation::Less,
        _ => r,
    }
}

impl NumberView {
    /// A finite value is spelled with its first bit set and no trailing zero
    /// byte; the other classes carry no mantissa.
    pub open spec fn valid(self) -> bool {
        if self.class == Class::Finite {
            self.mantissa.len() > 0 && self.mantissa[0] >= 128 && self.mantissa.last() != 0
        } else {
            true
        }
    }

    /// The value can take part in a comparison.
    pub open spec fn ordered(self) -> bool {
        self.valid() && self.class != Class::NotANumber
    }

    /// The value with its fraction cut off. What is not a valid finite value
    /// counts as zero.
    pub open spec fn integer(self) -> int {
        if self.valid() && self.class == Class::Finite && self.exponent > 0 {
            if self.negative {
                -(leading_bits(self.mantissa, self.exponent as nat) as int)
            } else {
                leading_bits(self.mantissa, self.exponent as nat) as int
            }
        } else {
            0
        }
    }

    /// -1, 0 or 1 as the value is below, at or above zero. Zero also for
    /// what cannot be compared.
    pub open spec fn sign(self) -> int {
        if !self.ordered() || self.class == Class::Zero {
            0
        } else if self.negative {
            -1
        } else {
            1
        }
    }

    /// Compares the absolute values of two values that can be compared.
    pub open spec fn magnitude_order(self, other: NumberView) -> Relation {
        match (self.class, other.class) {
            (Class::Zero, Class::Zero) => Relation::Equal,
            (Class::Zero, _) => Relation::Less,
            (_, Class::Zero) => Relation::Greater,
            (Class::Infinite, Class::Infinite) => Relation::Equal,
            (Class::Infinite, _) => Relation::Greater,
            (_, Class::Infinite) => Relation::Less,
            _ => if self.exponent < other.exponent {
                Relation::Less
            } else if self.exponent > other.exponent {
                Relation::Greater
            } else {
                fraction_order(self.mantissa, other.mantissa)
            },
        }
    }

    /// Compares two values. Nothing compares with what is not a number.
    pub open spec fn order(self, other: NumberView) -> Relation {
        if !self.ordered() || !other.ordered() {
            Relation::Unordered
        } else if self.sign() < other.sign() {
            Relation::Less
        } else if self.sign() > other.sign() {
            Relation::Greater
        } else if self.sign() == 0 {
            Relation::Equal
        } else if self.sign() > 0 {
            self.magnitude_order(other)
        } else {
            mirrored(self.magnitude_order(other))
        }
    }

    /// The absolute value.
    pub open spec fn abs(self) -> NumberView {
        NumberView { negative: false, ..self }
    }

    /// How the absolute value stands to one.
    pub open spec fn magnitude_to_one(self) -> Relation {
        if self.ordered() {
            self.magnitude_order(one_view(0))
        } else {
            Relation::Unordered
        }
    }

    /// The value is below zero.
    pub open spec fn below_zero(self) -> bool {
        self.sign() < 0
    }

    /// The value is zero or below.
    pub open spec fn at_most_zero(self) -> bool {
        self.ordered() && self.sign() <= 0
    }

    /// The value is one.
    pub open spec fn is_one(self) -> bool {
        self.sign() > 0 && self.magnitude_to_one() == Relation::Equal
    }
}

/// The view of the value one.
pub open spec fn one_view(precision: nat) -> NumberView {
    NumberView {
        class: Class::Finite,
        negative: false,
        mantissa: seq![128u8],
        exponent: 1,
        precision,
    }
}

/// The view of the value zero.
pub open spec fn zero_view(precision: nat) -> NumberView {
    NumberView {
        class: Class::Zero,
        negative: false,
        mantissa: Seq::empty(),
        exponent: 0,
        precision,
    }
}

proof fn lemma_single_bit(b: u8, k: u8)
    requires
        k < 8,
    ensures
        (b >> k) & 1u8 <= 1,
        k == 7 && b >= 128 ==> (b >> k) & 1u8 == 1,
{
    assert((b >> k) & 1u8 <= 1) by (bit_vector)
        requires
            k < 8,
    ;
    assert(k == 7 && b >= 128 ==> (b >> k) & 1u8 == 1) by (bit_vector);
}

proof fn lemma_bit_at_bound(m: Seq<u8>, i: int)
    ensures
        bit_at(m, i) <= 1,
        i == 0 && m.len() > 0 && m[0] >= 128 ==> bit_at(m, i) == 1,
{
    if 0 <= i && i / 8 < m.len() {
        lemma_single_bit(m[i / 8], (7 - i % 8) as u8);
    }
}

/// The first `count` bits spell a number below `2^count`, and one of at
/// least `2^(count-1)` where the first bit is set.
proof fn lemma_leading_bits_range(m: Seq<u8>, count: nat)
    ensures
        leading_bits(m, count) < pow2(count),
        count >= 1 && m.len() > 0 && m[0] >= 128 ==> leading_bits(m, count) >= pow2(
            (count - 1) as nat,
        ),
    decreases count,
{
    lemma2_to64();
    if count > 0 {
        lemma_leading_bits_range(m, (count - 1) as nat);
        lemma_bit_at_bound(m, count - 1);
        lemma_pow2_unfold(count);
        if count >= 2 {
            lemma_pow2_unfold((count - 1) as nat);
        }
    }
}

impl Clone for Number {
    fn clone(&self) -> (r: Self)
        ensures
            r@ == self@,
    {
        let mantissa = self.mantissa.clone();
        assert(mantissa@ =~= self.mantissa@);
        Number {
            class: self.class,
            negative: self.negative,
            mantissa,
            exponent: self.exponent,
            precision: self.precision,
        }
    }
}

impl Number {
    /// Zero, as computed at the given precision.
    pub fn zero(precision: u32) -> (r: Number)
        ensures
            r@ == zero_view(precision as nat),
    {
        Number {
            class: Class::Zero,
            negative: false,
            mantissa: Vec::new(),
            exponent: 0,
            precision,
        }
    }

    /// Minus one, the output precision that asks for every digit.
    pub fn minus_one(precision: u32) -> (r: Number)
        ensures
            r@.valid(),
            r@.integer() == -1,
            r@.precision == precision,
    {
        let mut mantissa: Vec<u8> = Vec::new();
        mantissa.push(128u8);
        let r = Number { class: Class::Finite, negative: true, mantissa, exponent: 1, precision };
        proof {
            reveal_with_fuel(leading_bits, 2);
            assert((128u8 >> 7u8) & 1u8 == 1) by (bit_vector);
            assert(r@.mantissa[0] == 128u8);
        }
        r
    }

    /// Ten, the base that numbers are read and written in at first.
    pub fn ten(precision: u32) -> (r: Number)
        ensures
            r@.valid(),
            r@.integer() == 10,
            r@.precision == precision,
    {
        let mut mantissa: Vec<u8> = Vec::new();
        mantissa.push(160u8);
        let r = Number { class: Class::Finite, negative: false, mantissa, exponent: 4, precision };
        proof {
            reveal_with_fuel(leading_bits, 5);
            assert((160u8 >> 7u8) & 1u8 == 1) by (bit_vector);
            assert((160u8 >> 6u8) & 1u8 == 0) by (bit_vector);
            assert((160u8 >> 5u8) & 1u8 == 1) by (bit_vector);
            assert((160u8 >> 4u8) & 1u8 == 0) by (bit_vector);
            assert(r@.mantissa[0] == 160u8);
        }
        r
    }

    /// Whether the spelling is that of a value.
    pub fn is_valid(&self) -> (r: bool)
        ensures
            r == self@.valid(),
    {
        match self.class {
            Class::Finite => {
                let n = self.mantissa.len();
                n > 0 && self.mantissa[0] >= 128 && self.mantissa[n - 1] != 0
            },
            _ => true,
        }
    }

    /// Whether the value can be compared with others.
    pub fn is_ordered(&self) -> (r: bool)
        ensures
            r == self@.ordered(),
    {
        let valid = self.is_valid();
        match self.class {
            Class::NotANumber => false,
            _ => valid,
        }
    }

    /// -1, 0 or 1 as the value is below, at or above zero.
    pub fn signum(&self) -> (r: i8)
        ensures
            r as int == self@.sign(),
    {
        if !self.is_ordered() {
            return 0;
        }
        match self.class {
            Class::Zero => 0,
            _ => if self.negative {
                -1
            } else {
                1
            },
        }
    }

    /// The absolute value of the integer part, where it is below `2^64`.
    pub fn magnitude(&self) -> (r: Option<u64>)
        ensures
            match r {
                Some(v) => v as int == vstd::math::abs(self@.integer()),
                None => vstd::math::abs(self@.integer()) > u64::MAX,
            },
    {
        let finite = match self.class {
            Class::Finite => true,
            _ => false,
        };
        if !self.is_valid() || !finite || self.exponent <= 0 {
            return Some(0);
        }
        proof {
            lemma2_to64();
        }
        if self.exponent > 64 {
            proof {
                lemma_leading_bits_range(self.mantissa@, self.exponent as nat);
                if self.exponent > 65 {
                    lemma_pow2_strictly_increases(64, (self.exponent - 1) as nat);
                }
            }
            return None;
        }
        let count: u32 = self.exponent as u32;
        let mut acc: u64 = 0;
        let mut i: u32 = 0;
        while i < count
            invariant
                i <= count <= 64,
                acc as nat == leading_bits(self.mantissa@, i as nat),
            decreases count - i,
        {
            let at: usize = (i / 8) as usize;
            let bit: u8 = if at < self.mantissa.len() {
                (self.mantissa[at] >> ((7 - i % 8) as u8)) & 1u8
            } else {
                0
            };
            proof {
                lemma2_to64();
                lemma2_to64_rest();
                lemma_bit_at_bound(self.mantissa@, i as int);
                lemma_leading_bits_range(self.mantissa@, i as nat);
                lemma_leading_bits_range(self.mantissa@, (i + 1) as nat);
                if i < 63 {
                    lemma_pow2_strictly_increases(i as nat, 63);
                }
                assert(bit as nat == bit_at(self.mantissa@, i as int));
            }
            acc = acc * 2 + bit as u64;
            i = i + 1;
        }
        Some(acc)
    }

    /// The absolute value of the integer part, where a length can count it.
    pub fn magnitude_usize(&self) -> (r: Option<usize>)
        ensures
            match r {
                Some(v) => v as int == vstd::math::abs(self@.integer()),
                None => vstd::math::abs(self@.integer()) > usize::MAX,
            },
    {
        match self.magnitude() {
            Some(v) => if v > usize::MAX as u64 {
                None
            } else {
                Some(v as usize)
            },
            None => None,
        }
    }

    /// The integer part as an index, where it is one.
    pub fn to_usize(&self) -> (r: Option<usize>)
        ensures
            match r {
                Some(v) => v as int == self@.integer(),
                None => self@.integer() < 0 || self@.integer() > usize::MAX,
            },
    {
        match self.magnitude() {
            Some(v) => if v == 0 {
                Some(0)
            } else if self.negative || v > usize::MAX as u64 {
                None
            } else {
                Some(v as usize)
            },
            None => None,
        }
    }

    /// The integer part as a `u32`, where it is one.
    pub fn to_u32(&self) -> (r: Option<u32>)
        ensures
            match r {
                Some(v) => v as int == self@.integer(),
                None => self@.integer() < 0 || self@.integer() > u32::MAX,
            },
    {
        match self.magnitude() {
            Some(v) => if v == 0 {
                Some(0)
            } else if self.negative || v > u32::MAX as u64 {
                None
            } else {
                Some(v as u32)
            },
            None => None,
        }
    }

    /// Whether the integer part is at least `bound`, for a small bound.
    pub fn integer_at_least(&self, bound: i8) -> (r: bool)
        ensures
            r == (self@.integer() >= bound as int),
    {
        match self.magnitude() {
            Some(v) => {
                if v == 0 {
                    bound <= 0
                } else if self.negative {
                    bound < 0 && v <= (-(bound as i16)) as u64
                } else {
                    bound <= 0 || v >= bound as u64
                }
            },
            None => !self.negative,
        }
    }

    /// Whether the integer part is at most `bound`.
    pub fn integer_at_most(&self, bound: u64) -> (r: bool)
        ensures
            r == (self@.integer() <= bound as int),
    {
        match self.magnitude() {
            Some(v) => v == 0 || self.negative || v <= bound,
            None => self.negative,
        }
    }

    /// Whether the integer part is zero.
    pub fn integer_is_zero(&self) -> (r: bool)
        ensures
            r == (self@.integer() == 0),
    {
        match self.magnitude() {
            Some(v) => v == 0,
            None => false,
        }
    }
}

/// Which of two mantissas is the larger binary fraction.
pub fn compare_fractions(a: &Vec<u8>, b: &Vec<u8>) -> (r: Relation)
    ensures
        r == fraction_order(a@, b@),
{
    let mut i: usize = 0;
    assert(a@.skip(0) =~= a@ && b@.skip(0) =~= b@);
    while i < a.len() && i < b.len()
        invariant
            i <= a@.len(),
            i <= b@.len(),
            fraction_order(a@, b@) == fraction_order(a@.skip(i as int), b@.skip(i as int)),
        decreases a@.len() - i,
    {
        proof {
            assert(a@.skip(i as int).drop_first() =~= a@.skip(i + 1));
            assert(b@.skip(i as int).drop_first() =~= b@.skip(i + 1));
        }
        if a[i] < b[i] {
            return Relation::Less;
        }
        if a[i] > b[i] {
            return Relation::Greater;
        }
        i = i + 1;
    }
    if i < b.len() {
        Relation::Less
    } else if i < a.len() {
        Relation::Greater
    } else {
        Relation::Equal
    }
}

impl Number {
    /// Compares the absolute values of two values that can be compared.
    pub fn compare_magnitude(&self, other: &Number) -> (r: Relation)
        ensures
            r == self@.magnitude_order(other@),
    {
        match (self.class, other.class) {
            (Class::Zero, Class::Zero) => Relation::Equal,
            (Class::Zero, _) => Relation::Less,
            (_, Class::Zero) => Relation::Greater,
            (Class::Infinite, Class::Infinite) => Relation::Equal,
            (Class::Infinite, _) => Relation::Greater,
            (_, Class::Infinite) => Relation::Less,
            _ => if self.exponent < other.exponent {
                Relation::Less
            } else if self.exponent > other.exponent {
                Relation::Greater
            } else {
                compare_fractions(&self.mantissa, &other.mantissa)
            },
        }
    }

    /// Compares two values. Nothing compares with what is not a number.
    pub fn compare(&self, other: &Number) -> (r: Relation)
        ensures
            r == self@.order(other@),
    {
        if !self.is_ordered() || !other.is_ordered() {
            return Relation::Unordered;
        }
        let a = self.signum();
        let b = other.signum();
        if a < b {
            Relation::Less
        } else if a > b {
            Relation::Greater
        } else if a == 0 {
            Relation::Equal
        } else {
            let m = self.compare_magnitude(other);
            if a > 0 {
                m
            } else {
                match m {
                    Relation::Less => Relation::Greater,
                    Relation::Greater => Relation::Less,
                    _ => m,
                }
            }
        }
    }

    /// Compares the absolute value with one.
    pub fn compare_magnitude_with_one(&self) -> (r: Relation)
        ensures
            r == self@.magnitude_to_one(),
    {
        if !self.is_ordered() {
            return Relation::Unordered;
        }
        let mut mantissa: Vec<u8> = Vec::new();
        mantissa.push(128u8);
        assert(mantissa@ =~= seq![128u8]);
        let one = Number {
            class: Class::Finite,
            negative: false,
            mantissa,
            exponent: 1,
            precision: 0,
        };
        self.compare_magnitude(&one)
    }
}

/// How many bits of a byte are in use: the place of its lowest set bit,
/// counted from one at the highest bit; zero for the byte zero.
pub open spec fn used_bits(b: u8) -> nat {
    if b & 1 == 1 {
        8
    } else if b & 2 == 2 {
        7
    } else if b & 4 == 4 {
        6
    } else if b & 8 == 8 {
        5
    } else if b & 16 == 16 {
        4
    } else if b & 32 == 32 {
        3
    } else if b & 64 == 64 {
        2
    } else if b & 128 == 128 {
        1
    } else {
        0
    }
}

/// How many bits of a mantissa are in use: up to its last set bit.
pub open spec fn bit_length(m: Seq<u8>) -> int {
    if m.len() == 0 {
        0
    } else {
        8 * (m.len() - 1) + used_bits(m.last())
    }
}

impl NumberView {
    /// The value has a fraction: a bit of its mantissa behind its integer
    /// part is set. What is not a valid finite value has none.
    pub open spec fn has_fraction(self) -> bool {
        &&& self.valid()
        &&& self.class == Class::Finite
        &&& exists|i: int| i >= self.exponent && #[trigger] bit_at(self.mantissa, i) == 1
    }
}

/// The bit of a byte at the place that `used_bits` names is set, and the
/// bits below it are not.
proof fn lemma_used_bits(b: u8, k: u8)
    requires
        b != 0,
        k < 8,
    ensures
        1 <= used_bits(b) <= 8,
        k as int == 8 - used_bits(b) ==> (b >> k) & 1u8 == 1,
        (k as int) < 8 - used_bits(b) ==> (b >> k) & 1u8 == 0,
{
    assert(b != 0 ==> (b & 1 == 1 || b & 2 == 2 || b & 4 == 4 || b & 8 == 8 || b & 16 == 16 || b
        & 32 == 32 || b & 64 == 64 || b & 128 == 128)) by (bit_vector);
    assert(b & 1 == 1 ==> (b >> 0u8) & 1u8 == 1) by (bit_vector);
    assert(b & 1 != 1 && b & 2 == 2 ==> (b >> 1u8) & 1u8 == 1 && (b >> 0u8) & 1u8 == 0)
        by (bit_vector);
    assert(b & 1 != 1 && b & 2 != 2 && b & 4 == 4 ==> (b >> 2u8) & 1u8 == 1 && (b >> 1u8) & 1u8
        == 0 && (b >> 0u8) & 1u8 == 0) by (bit_vector);
    assert(b & 1 != 1 && b & 2 != 2 && b & 4 != 4 && b & 8 == 8 ==> (b >> 3u8) & 1u8 == 1 && (b
        >> 2u8) & 1u8 == 0 && (b >> 1u8) & 1u8 == 0 && (b >> 0u8) & 1u8 == 0) by (bit_vector);
    assert(b & 1 != 1 && b & 2 != 2 && b & 4 != 4 && b & 8 != 8 && b & 16 == 16 ==> (b >> 4u8)
        & 1u8 == 1 && (b >> 3u8) & 1u8 == 0 && (b >> 2u8) & 1u8 == 0 && (b >> 1u8) & 1u8 == 0 && (b
        >> 0u8) & 1u8 == 0) by (bit_vector);
    assert(b & 1 != 1 && b & 2 != 2 && b & 4 != 4 && b & 8 != 8 && b & 16 != 16 && b & 32 == 32
        ==> (b >> 5u8) & 1u8 == 1 && (b >> 4u8) & 1u8 == 0 && (b >> 3u8) & 1u8 == 0 && (b >> 2u8)
        & 1u8 == 0 && (b >> 1u8) & 1u8 == 0 && (b >> 0u8) & 1u8 == 0) by (bit_vector);
    assert(b & 1 != 1 && b & 2 != 2 && b & 4 != 4 && b & 8 != 8 && b & 16 != 16 && b & 32 != 32
        && b & 64 == 64 ==> (b >> 6u8) & 1u8 == 1 && (b >> 5u8) & 1u8 == 0 && (b >> 4u8) & 1u8 == 0
        && (b >> 3u8) & 1u8 == 0 && (b >> 2u8) & 1u8 == 0 && (b >> 1u8) & 1u8 == 0 && (b >> 0u8)
        & 1u8 == 0) by (bit_vector);
    assert(b & 1 != 1 && b & 2 != 2 && b & 4 != 4 && b & 8 != 8 && b & 16 != 16 && b & 32 != 32
        && b & 64 != 64 && b & 128 == 128 ==> (b >> 7u8) & 1u8 == 1 && (b >> 6u8) & 1u8 == 0 && (b
        >> 5u8) & 1u8 == 0 && (b >> 4u8) & 1u8 == 0 && (b >> 3u8) & 1u8 == 0 && (b >> 2u8) & 1u8
        == 0 && (b >> 1u8) & 1u8 == 0 && (b >> 0u8) & 1u8 == 0) by (bit_vector);
}

/// The last bit in use is set, and no bit behind it is.
proof fn lemma_bit_length(m: Seq<u8>, i: int)
    requires
        m.len() > 0,
        m.last() != 0,
    ensures
        0 < bit_length(m) <= 8 * m.len(),
        bit_at(m, bit_length(m) - 1) == 1,
        i >= bit_length(m) ==> bit_at(m, i) == 0,
{
    let u = used_bits(m.last());
    lemma_used_bits(m.last(), 0);
    lemma_used_bits(m.last(), (8 - u) as u8);
    let at = bit_length(m) - 1;
    assert(at / 8 == m.len() - 1 && at % 8 == u - 1);
    if i >= bit_length(m) && i / 8 < m.len() {
        assert(i / 8 == m.len() - 1);
        lemma_used_bits(m.last(), (7 - i % 8) as u8);
    }
}

/// How many bits of a byte are in use.
fn count_used_bits(b: u8) -> (r: u8)
    ensures
        r as nat == used_bits(b),
{
    if b & 1 == 1 {
        8
    } else if b & 2 == 2 {
        7
    } else if b & 4 == 4 {
        6
    } else if b & 8 == 8 {
        5
    } else if b & 16 == 16 {
        4
    } else if b & 32 == 32 {
        3
    } else if b & 64 == 64 {
        2
    } else if b & 128 == 128 {
        1
    } else {
        0
    }
}

impl Number {
    /// Whether the value has a fraction.
    pub fn has_fraction(&self) -> (r: bool)
        ensures
            r == self@.has_fraction(),
    {
        let finite = match self.class {
            Class::Finite => true,
            _ => false,
        };
        if !finite || !self.is_valid() {
            return false;
        }
        let n = self.mantissa.len();
        let used = count_used_bits(self.mantissa[n - 1]);
        let fraction = if self.exponent <= 0 {
            true
        } else {
            (self.exponent as u128) < 8 * ((n - 1) as u128) + used as u128
        };
        proof {
            let m = self.mantissa@;
            lemma_bit_length(m, 0);
            assert(fraction == (bit_length(m) > self.exponent));
            if fraction {
                assert(bit_at(m, bit_length(m) - 1) == 1);
            } else {
                assert forall|i: int| i >= self.exponent implies #[trigger] bit_at(m, i) != 1 by {
                    lemma_bit_length(m, i);
                }
            }
        }
        fraction
    }

    /// The integer part as an index, where the value is one: whole, not
    /// negative, and not beyond counting.
    pub fn to_index(&self) -> (r: Option<usize>)
        ensures
            match r {
                Some(v) => !self@.has_fraction() && v as int == self@.integer(),
                None => self@.has_fraction() || self@.integer() < 0 || self@.integer()
                    > usize::MAX,
            },
    {
        if self.has_fraction() {
            None
        } else {
            self.to_usize()
        }
    }
}

impl Number {
    /// Whether the value is zero.
    pub fn is_zero(&self) -> (r: bool)
        ensures
            r == (self@.class == Class::Zero),
    {
        match self.class {
            Class::Zero => true,
            _ => false,
        }
    }

    /// Whether the value is below zero.
    pub fn is_below_zero(&self) -> (r: bool)
        ensures
            r == self@.below_zero(),
    {
        self.signum() < 0
    }

    /// Whether the value is zero or below.
    pub fn is_at_most_zero(&self) -> (r: bool)
        ensures
            r == self@.at_most_zero(),
    {
        self.is_ordered() && self.signum() <= 0
    }

    /// Whether the value is one.
    pub fn is_one(&self) -> (r: bool)
        ensures
            r == self@.is_one(),
    {
        self.signum() > 0 && self.compare_magnitude_with_one() == Relation::Equal
    }

    /// Whether the integer part is below zero.
    pub fn integer_is_negative(&self) -> (r: bool)
        ensures
            r == (self@.integer() < 0),
    {
        !self.integer_at_least(0)
    }
}

} // verus!
