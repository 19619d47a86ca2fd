use crate::number::Relation;
use vstd::prelude::*;

verus! {

/// The characters of a string slice, in order.
pub fn chars_of(s: &str) -> (r: Vec<char>)
    ensures
        r@ == s@,
{
    let mut r: Vec<char> = Vec::new();
    for c in it: s.chars()
        invariant
            r@ == it.seq().take(it.index@),
    {
        r.push(c);
    }
    r
}

/// `String::push` of the standard library: the string afterwards is the
/// string before with `c` at its end.
#[verifier::external_body]
fn push_char(s: &mut String, c: char)
    ensures
        final(s)@ == old(s)@.push(c),
{
    s.push(c)
}

/// `char::from_u32` of the standard library: the character with the given
/// number, where that number is a Unicode scalar value, and else nothing.
#[verifier::external_body]
pub(crate) fn char_from_u32(v: u32) -> (r: Option<char>)
    ensures
        match r {
            Some(c) => vstd::utf8::is_scalar(v) && c as u32 == v,
            None => !vstd::utf8::is_scalar(v),
        },
{
    char::from_u32(v)
}

/// `String::from_utf8` of the standard library: the text that the bytes
/// encode, where they are valid UTF-8, and else nothing.
#[verifier::external_body]
pub(crate) fn string_from_utf8(bytes: Vec<u8>) -> (r: Option<String>)
    ensures
        match r {
            Some(s) => vstd::utf8::valid_utf8(bytes@) && s@ == vstd::utf8::decode_utf8(bytes@),
            None => !vstd::utf8::valid_utf8(bytes@),
        },
{
    String::from_utf8(bytes).ok()
}

/// The string made of the given characters.
pub fn string_of(chars: &Vec<char>) -> (r: String)
    ensures
        r@ == chars@,
{
    let mut r = String::new();
    let mut i: usize = 0;
    while i < chars.len()
        invariant
            i <= chars@.len(),
            r@ == chars@.take(i as int),
        decreases chars@.len() - i,
    {
        push_char(&mut r, chars[i]);
        i = i + 1;
        assert(chars@.take(i as int) =~= chars@.take(i - 1).push(chars@[i - 1]));
    }
    assert(chars@.take(i as int) =~= chars@);
    r
}

/// Appends the characters of `s` to `target`.
pub fn append(target: &mut Vec<char>, s: &str)
    ensures
        final(target)@ == old(target)@ + s@,
{
    let ghost before = target@;
    for c in it: s.chars()
        invariant
            target@ == before + it.seq().take(it.index@),
    {
        target.push(c);
        assert(before + it.seq().take(it.index@ + 1) =~= (before + it.seq().take(
            it.index@,
        )).push(c));
    }
    assert(target@ =~= before + s@);
}

/// Appends the characters of `more` to `target`.
pub fn append_chars(target: &mut Vec<char>, more: &Vec<char>)
    ensures
        final(target)@ == old(target)@ + more@,
{
    let ghost before = target@;
    let mut i: usize = 0;
    while i < more.len()
        invariant
            i <= more@.len(),
            target@ == before + more@.take(i as int),
        decreases more@.len() - i,
    {
        target.push(more[i]);
        i = i + 1;
        assert(before + more@.take(i as int) =~= (before + more@.take(i - 1)).push(more@[i - 1]));
    }
    assert(more@.take(i as int) =~= more@);
}

/// A string with the characters of `s`.
pub fn owned(s: &str) -> (r: String)
    ensures
        r@ == s@,
{
    let chars = chars_of(s);
    string_of(&chars)
}

/// The string `before`, `middle`, `after`, one after the other.
pub fn compose(before: &str, middle: &Vec<char>, after: &str) -> (r: String)
    ensures
        r@ == before@ + middle@ + after@,
{
    let mut chars = chars_of(before);
    append_chars(&mut chars, middle);
    append(&mut chars, after);
    string_of(&chars)
}

/// The characters from index `from` up to index `to`.
pub fn slice_chars(chars: &Vec<char>, from: usize, to: usize) -> (r: Vec<char>)
    requires
        from <= to <= chars@.len(),
    ensures
        r@ == chars@.subrange(from as int, to as int),
{
    let mut r: Vec<char> = Vec::new();
    let mut i: usize = from;
    while i < to
        invariant
            from <= i <= to <= chars@.len(),
            r@ == chars@.subrange(from as int, i as int),
        decreases to - i,
    {
        r.push(chars[i]);
        i = i + 1;
        assert(chars@.subrange(from as int, i as int) =~= chars@.subrange(from as int, i - 1).push(
            chars@[i - 1],
        ));
    }
    r
}

/// `s` written `n` times in a row.
pub open spec fn repeated(s: Seq<char>, n: nat) -> Seq<char>
    decreases n,
{
    if n == 0 {
        Seq::empty()
    } else {
        repeated(s, (n - 1) as nat) + s
    }
}

/// Writes `chars` `n` times in a row.
pub fn repeat_chars(chars: &Vec<char>, n: usize) -> (r: Vec<char>)
    ensures
        r@ == repeated(chars@, n as nat),
{
    let mut r: Vec<char> = Vec::new();
    let mut i: usize = 0;
    while i < n
        invariant
            i <= n,
            r@ == repeated(chars@, i as nat),
        decreases n - i,
    {
        append_chars(&mut r, chars);
        i = i + 1;
    }
    r
}

/// The characters in opposite order.
pub fn reversed(chars: &Vec<char>) -> (r: Vec<char>)
    ensures
        r@ == chars@.reverse(),
{
    let mut r: Vec<char> = Vec::new();
    let mut i: usize = chars.len();
    while i > 0
        invariant
            i <= chars@.len(),
            r@.len() == chars@.len() - i,
            forall|j: int| 0 <= j < r@.len() ==> r@[j] == chars@[chars@.len() - 1 - j],
        decreases i,
    {
        i = i - 1;
        r.push(chars[i]);
    }
    assert(r@ =~= chars@.reverse());
    r
}

/// Whether `c` is one of the ten decimal digits.
pub open spec fn is_digit(c: char) -> bool {
    '0' <= c && c <= '9'
}

/// The character that writes a digit below ten.
pub open spec fn digit_char(d: nat) -> char
    recommends
        d < 10,
{
    (48 + d) as u8 as char
}

/// A natural number written in base ten, without leading zeros.
pub open spec fn decimal(n: nat) -> Seq<char>
    decreases n,
{
    if n < 10 {
        seq![digit_char(n)]
    } else {
        decimal(n / 10).push(digit_char(n % 10))
    }
}

/// The character that writes a digit below sixteen, a letter in upper case.
pub open spec fn hex_char(d: nat) -> char
    recommends
        d < 16,
{
    if d < 10 {
        (48 + d) as u8 as char
    } else {
        (55 + d) as u8 as char
    }
}

/// A natural number written in base sixteen with upper-case letters and at
/// least `width` digits.
pub open spec fn hexadecimal(n: nat, width: nat) -> Seq<char>
    decreases n + width,
{
    if n < 16 && width <= 1 {
        seq![hex_char(n)]
    } else {
        hexadecimal(
            n / 16,
            if width > 0 {
                (width - 1) as nat
            } else {
                0
            },
        ).push(hex_char(n % 16))
    }
}

/// What a decimal digit counts; zero for any other character.
pub open spec fn digit_value(c: char) -> nat {
    if is_digit(c) {
        (c as int - 48) as nat
    } else {
        0
    }
}

/// The number that a run of decimal digits spells; nothing spells zero.
pub open spec fn decimal_value(s: Seq<char>) -> nat
    decreases s.len(),
{
    if s.len() == 0 {
        0
    } else {
        decimal_value(s.drop_last()) * 10 + digit_value(s.last())
    }
}

/// How `a` stands to `b`.
pub open spec fn relation_of(a: int, b: int) -> Relation {
    if a < b {
        Relation::Less
    } else if a > b {
        Relation::Greater
    } else {
        Relation::Equal
    }
}

/// A run of digits without its leading zeros; `0` where nothing is left.
pub open spec fn canonical(s: Seq<char>) -> Seq<char>
    decreases s.len(),
{
    if s.len() == 0 {
        seq!['0']
    } else if s[0] == '0' {
        canonical(s.drop_first())
    } else {
        s
    }
}

/// The number of a character.
pub fn code_of(c: char) -> (r: u32)
    ensures
        r as int == c as int,
{
    c as u32
}

/// Whether `c` is a decimal digit.
pub fn is_decimal_digit(c: char) -> (r: bool)
    ensures
        r == is_digit(c),
{
    c >= '0' && c <= '9'
}

/// What the character counts as a decimal digit.
pub fn digit_of(c: char) -> (r: u8)
    ensures
        r as nat == digit_value(c),
        r <= 9,
{
    if c >= '0' && c <= '9' {
        ((c as u32) - 48) as u8
    } else {
        0
    }
}

/// How many characters of `s` count once the first `pad` places are empty.
pub open spec fn behind_pad(i: int, pad: int) -> int {
    if i > pad {
        i - pad
    } else {
        0
    }
}

/// Compares the numbers that two runs of decimal digits spell.
pub fn compare_decimal(a: &Vec<char>, b: &Vec<char>) -> (r: Relation)
    ensures
        r == relation_of(decimal_value(a@) as int, decimal_value(b@) as int),
{
    let n: usize = if a.len() > b.len() {
        a.len()
    } else {
        b.len()
    };
    let pa: usize = n - a.len();
    let pb: usize = n - b.len();
    let mut rel = Relation::Equal;
    let mut i: usize = 0;
    assert(a@.take(0) =~= Seq::<char>::empty());
    assert(b@.take(0) =~= Seq::<char>::empty());
    while i < n
        invariant
            i <= n,
            pa == n - a@.len(),
            pb == n - b@.len(),
            a@.len() <= n,
            b@.len() <= n,
            rel == relation_of(
                decimal_value(a@.take(behind_pad(i as int, pa as int))) as int,
                decimal_value(b@.take(behind_pad(i as int, pb as int))) as int,
            ),
        decreases n - i,
    {
        let da: u8 = if i >= pa {
            digit_of(a[i - pa])
        } else {
            0
        };
        let db: u8 = if i >= pb {
            digit_of(b[i - pb])
        } else {
            0
        };
        proof {
            if i >= pa {
                assert(a@.take(i - pa + 1).drop_last() =~= a@.take(i - pa));
            }
            if i >= pb {
                assert(b@.take(i - pb + 1).drop_last() =~= b@.take(i - pb));
            }
        }
        if rel == Relation::Equal {
            rel = if da < db {
                Relation::Less
            } else if da > db {
                Relation::Greater
            } else {
                Relation::Equal
            };
        }
        i = i + 1;
    }
    assert(a@.take(a@.len() as int) =~= a@);
    assert(b@.take(b@.len() as int) =~= b@);
    rel
}

/// The digits without their leading zeros; `0` where nothing is left.
pub fn canonical_digits(digits: &Vec<char>) -> (r: Vec<char>)
    ensures
        r@ == canonical(digits@),
{
    let mut i: usize = 0;
    assert(digits@.skip(0) =~= digits@);
    while i < digits.len() && digits[i] == '0'
        invariant
            i <= digits@.len(),
            canonical(digits@) == canonical(digits@.skip(i as int)),
        decreases digits@.len() - i,
    {
        assert(digits@.skip(i as int).drop_first() =~= digits@.skip(i + 1));
        i = i + 1;
    }
    if i == digits.len() {
        let mut r: Vec<char> = Vec::new();
        r.push('0');
        assert(r@ =~= seq!['0']);
        r
    } else {
        assert(digits@.skip(i as int) =~= digits@.subrange(i as int, digits@.len() as int));
        slice_chars(digits, i, digits.len())
    }
}

/// The number that the digits spell, where a `u64` holds it.
pub fn parse_decimal(digits: &Vec<char>) -> (r: Option<u64>)
    ensures
        match r {
            Some(v) => v as nat == decimal_value(digits@),
            None => decimal_value(digits@) > u64::MAX,
        },
{
    let mut value: u64 = 0;
    let mut i: usize = 0;
    assert(digits@.take(0) =~= Seq::<char>::empty());
    while i < digits.len()
        invariant
            i <= digits@.len(),
            value as nat == decimal_value(digits@.take(i as int)),
        decreases digits@.len() - i,
    {
        let d = digit_of(digits[i]);
        proof {
            assert(digits@.take(i + 1).drop_last() =~= digits@.take(i as int));
            lemma_decimal_value_grows(digits@, i + 1);
        }
        if value > (u64::MAX - d as u64) / 10 {
            return None;
        }
        value = value * 10 + d as u64;
        i = i + 1;
    }
    assert(digits@.take(i as int) =~= digits@);
    Some(value)
}

/// A run of digits spells at least what any of its beginnings spells.
pub proof fn lemma_decimal_value_grows(s: Seq<char>, k: int)
    requires
        0 <= k <= s.len(),
    ensures
        decimal_value(s.take(k)) <= decimal_value(s),
    decreases s.len() - k,
{
    if k == s.len() {
        assert(s.take(k) =~= s);
    } else {
        lemma_decimal_value_grows(s, k + 1);
        assert(s.take(k + 1).drop_last() =~= s.take(k));
    }
}

/// Whether all of `s` are decimal digits.
pub open spec fn is_numeral(s: Seq<char>) -> bool {
    forall|i: int| 0 <= i < s.len() ==> is_digit(#[trigger] s[i])
}

/// A zero in front does not change what digits spell.
proof fn lemma_leading_zero(s: Seq<char>)
    requires
        s.len() > 0,
        s[0] == '0',
    ensures
        decimal_value(s) == decimal_value(s.drop_first()),
    decreases s.len(),
{
    if s.len() == 1 {
        assert(s.drop_last() =~= s.drop_first());
    } else {
        lemma_leading_zero(s.drop_last());
        assert(s.drop_last().drop_first() =~= s.drop_first().drop_last());
    }
}

/// Digits that do not begin with zero spell a number that is written with
/// just those digits.
proof fn lemma_decimal_of_value(s: Seq<char>)
    requires
        s.len() > 0,
        is_numeral(s),
        s[0] != '0',
    ensures
        decimal_value(s) >= 1,
        decimal(decimal_value(s)) == s,
    decreases s.len(),
{
    let d = digit_value(s.last());
    assert(is_digit(s.last()));
    assert(digit_char(d) == s.last());
    if s.len() == 1 {
        assert(s.drop_last().len() == 0);
        assert(decimal_value(s.drop_last()) == 0);
        assert(decimal_value(s) == d);
        assert(seq![s.last()] =~= s);
    } else {
        let front = s.drop_last();
        assert(is_numeral(front)) by {
            assert forall|i: int| 0 <= i < front.len() implies is_digit(#[trigger] front[i]) by {
                assert(front[i] == s[i]);
            }
        }
        lemma_decimal_of_value(front);
        let v = decimal_value(s);
        assert(v == decimal_value(front) * 10 + d);
        assert(v / 10 == decimal_value(front) && v % 10 == d);
        assert(front.push(s.last()) =~= s);
    }
}

/// A number written in base ten is read back as that number.
pub proof fn decimal_is_read_back(n: nat)
    ensures
        is_numeral(decimal(n)),
        decimal_value(decimal(n)) == n,
    decreases n,
{
    if n < 10 {
        assert(decimal(n).drop_last().len() == 0);
        assert(decimal_value(decimal(n).drop_last()) == 0);
    } else {
        decimal_is_read_back(n / 10);
        assert(decimal(n).drop_last() =~= decimal(n / 10));
        assert forall|i: int| 0 <= i < decimal(n).len() implies is_digit(
            #[trigger] decimal(n)[i],
        ) by {
            if i < decimal(n).len() - 1 {
                assert(decimal(n)[i] == decimal(n / 10)[i]);
            }
        }
    }
}

/// Digits without their leading zeros are the number that they spell,
/// written in base ten.
pub proof fn canonical_is_decimal(s: Seq<char>)
    requires
        is_numeral(s),
    ensures
        canonical(s) == decimal(decimal_value(s)),
    decreases s.len(),
{
    if s.len() == 0 {
    } else if s[0] == '0' {
        let rest = s.drop_first();
        assert(is_numeral(rest)) by {
            assert forall|i: int| 0 <= i < rest.len() implies is_digit(#[trigger] rest[i]) by {
                assert(rest[i] == s[i + 1]);
            }
        }
        canonical_is_decimal(rest);
        lemma_leading_zero(s);
    } else {
        lemma_decimal_of_value(s);
    }
}

/// Writes `n` in base ten.
pub fn write_decimal(n: u64) -> (r: Vec<char>)
    ensures
        r@ == decimal(n as nat),
{
    let mut backwards: Vec<char> = Vec::new();
    let mut rest: u64 = n;
    while rest >= 10
        invariant
            decimal(n as nat) == decimal(rest as nat) + backwards@.reverse(),
        decreases rest,
    {
        let d: u8 = (rest % 10) as u8;
        let c: char = (48 + d) as char;
        proof {
            assert(decimal(rest as nat) == decimal((rest / 10) as nat).push(c));
            assert(decimal((rest / 10) as nat).push(c) + backwards@.reverse() =~= decimal(
                (rest / 10) as nat,
            ) + backwards@.push(c).reverse());
        }
        backwards.push(c);
        rest = rest / 10;
    }
    let d: u8 = rest as u8;
    let c: char = (48 + d) as char;
    proof {
        assert(decimal(rest as nat) == seq![c]);
        assert(seq![c] + backwards@.reverse() =~= backwards@.push(c).reverse());
    }
    backwards.push(c);
    reversed(&backwards)
}

/// Writes `n` in base sixteen with upper-case letters and at least `width`
/// digits.
pub fn write_hexadecimal(n: u32, width: u8) -> (r: Vec<char>)
    ensures
        r@ == hexadecimal(n as nat, width as nat),
{
    let mut backwards: Vec<char> = Vec::new();
    let mut rest: u32 = n;
    let mut left: u8 = width;
    while rest >= 16 || left > 1
        invariant
            hexadecimal(n as nat, width as nat) == hexadecimal(rest as nat, left as nat)
                + backwards@.reverse(),
        decreases rest + left,
    {
        let d: u8 = (rest % 16) as u8;
        let c: char = if d < 10 {
            (48 + d) as char
        } else {
            (55 + d) as char
        };
        let next: u8 = if left > 0 {
            (left - 1) as u8
        } else {
            0
        };
        proof {
            assert(hexadecimal(rest as nat, left as nat) == hexadecimal(
                (rest / 16) as nat,
                next as nat,
            ).push(c));
            assert(hexadecimal((rest / 16) as nat, next as nat).push(c) + backwards@.reverse()
                =~= hexadecimal((rest / 16) as nat, next as nat) + backwards@.push(c).reverse());
        }
        backwards.push(c);
        rest = rest / 16;
        left = next;
    }
    let d: u8 = rest as u8;
    let c: char = if d < 10 {
        (48 + d) as char
    } else {
        (55 + d) as char
    };
    proof {
        assert(hexadecimal(rest as nat, left as nat) == seq![c]);
        assert(seq![c] + backwards@.reverse() =~= backwards@.push(c).reverse());
    }
    backwards.push(c);
    reversed(&backwards)
}

} // verus!
