use crate::number::{Class, Number, NumberView};
use crate::commands::expansion::{
    begin_expansion, begun, expand, expand_post, Expanded, Expanding,
};
use crate::service::{Operation, Reply};
use crate::text::{append, append_chars, chars_of, decimal_value, owned, parse_decimal, slice_chars};
use vstd::prelude::*;

verus! {

/// The index of the last `c` in `s`, or -1 where there is none.
pub open spec fn last_index(s: Seq<char>, c: char) -> int
    decreases s.len(),
{
    if s.len() == 0 {
        -1
    } else if s.last() == c {
        s.len() - 1
    } else {
        last_index(s.drop_last(), c)
    }
}

/// The index of the `n`-th `c` from the end of `s`, counted from zero, or
/// -1 where there are not as many.
pub open spec fn nth_last_index(s: Seq<char>, c: char, n: nat) -> int
    decreases s.len(),
{
    if s.len() == 0 {
        -1
    } else if s.last() == c {
        if n == 0 {
            s.len() - 1
        } else {
            nth_last_index(s.drop_last(), c, (n - 1) as nat)
        }
    } else {
        nth_last_index(s.drop_last(), c, n)
    }
}

/// `s` without the `c`s at its end.
pub open spec fn trimmed(s: Seq<char>, c: char) -> Seq<char>
    decreases s.len(),
{
    if s.len() > 0 && s.last() == c {
        trimmed(s.drop_last(), c)
    } else {
        s
    }
}

/// `s` without its first `c`.
pub open spec fn without_first(s: Seq<char>, c: char) -> Seq<char>
    decreases s.len(),
{
    if s.len() == 0 {
        s
    } else if s[0] == c {
        s.drop_first()
    } else {
        seq![s[0]] + without_first(s.drop_first(), c)
    }
}

/// `s` with its first `from` turned into `to`.
pub open spec fn first_replaced(s: Seq<char>, from: char, to: char) -> Seq<char>
    decreases s.len(),
{
    if s.len() == 0 {
        s
    } else if s[0] == from {
        seq![to] + s.drop_first()
    } else {
        seq![s[0]] + first_replaced(s.drop_first(), from, to)
    }
}

/// `count` zeros.
pub open spec fn zeros(count: nat) -> Seq<char> {
    Seq::new(count, |i: int| '0')
}

/// The index of the last `c`, if there is one.
pub fn find_last(s: &Vec<char>, c: char) -> (r: Option<usize>)
    ensures
        match r {
            Some(i) => i as int == last_index(s@, c) && i < s@.len() && s@[i as int] == c,
            None => last_index(s@, c) == -1,
        },
{
    let mut i: usize = s.len();
    assert(s@.take(i as int) =~= s@);
    while i > 0
        invariant
            i <= s@.len(),
            last_index(s@, c) == last_index(s@.take(i as int), c),
        decreases i,
    {
        assert(s@.take(i as int).drop_last() =~= s@.take(i - 1));
        if s[i - 1] == c {
            return Some(i - 1);
        }
        i = i - 1;
    }
    None
}

/// The index of the `n`-th `c` from the end, counted from zero, if there
/// are as many.
pub fn find_nth_last(s: &Vec<char>, c: char, n: usize) -> (r: Option<usize>)
    ensures
        match r {
            Some(i) => i as int == nth_last_index(s@, c, n as nat) && i < s@.len() && s@[i as int]
                == c,
            None => nth_last_index(s@, c, n as nat) == -1,
        },
{
    let mut i: usize = s.len();
    let mut left: usize = n;
    assert(s@.take(i as int) =~= s@);
    while i > 0
        invariant
            i <= s@.len(),
            nth_last_index(s@, c, n as nat) == nth_last_index(s@.take(i as int), c, left as nat),
        decreases i,
    {
        assert(s@.take(i as int).drop_last() =~= s@.take(i - 1));
        if s[i - 1] == c {
            if left == 0 {
                return Some(i - 1);
            }
            left = left - 1;
        }
        i = i - 1;
    }
    None
}

/// Takes the `c`s off the end.
pub fn trim_end(s: &mut Vec<char>, c: char)
    ensures
        final(s)@ == trimmed(old(s)@, c),
{
    while s.len() > 0 && s[s.len() - 1] == c
        invariant
            trimmed(old(s)@, c) == trimmed(s@, c),
        decreases s@.len(),
    {
        s.pop();
    }
}

/// Whether `c` occurs in `s`.
pub fn has(s: &Vec<char>, c: char) -> (r: bool)
    ensures
        r == s@.contains(c),
{
    let mut i: usize = 0;
    while i < s.len()
        invariant
            i <= s@.len(),
            forall|j: int| 0 <= j < i ==> s@[j] != c,
        decreases s@.len() - i,
    {
        if s[i] == c {
            return true;
        }
        i = i + 1;
    }
    false
}

/// The characters without the first `c`.
pub fn remove_first(s: &Vec<char>, c: char) -> (r: Vec<char>)
    ensures
        r@ == without_first(s@, c),
{
    let mut r: Vec<char> = Vec::new();
    let mut i: usize = 0;
    let mut removed = false;
    assert(s@.skip(0) =~= s@);
    while i < s.len()
        invariant
            i <= s@.len(),
            without_first(s@, c) == r@ + if removed {
                s@.skip(i as int)
            } else {
                without_first(s@.skip(i as int), c)
            },
        decreases s@.len() - i,
    {
        let ghost before = r@;
        assert(s@.skip(i as int).drop_first() =~= s@.skip(i + 1));
        if !removed && s[i] == c {
            removed = true;
        } else {
            r.push(s[i]);
            assert(r@ + s@.skip(i + 1) =~= before + s@.skip(i as int));
            assert(r@ + without_first(s@.skip(i + 1), c) =~= before + (seq![s@[i as int]]
                + without_first(s@.skip(i + 1), c)));
        }
        i = i + 1;
    }
    assert(s@.skip(i as int) =~= Seq::<char>::empty());
    assert(r@ + Seq::<char>::empty() =~= r@);
    r
}

/// The characters with the first `from` turned into `to`.
pub fn replace_first(s: &Vec<char>, from: char, to: char) -> (r: Vec<char>)
    ensures
        r@ == first_replaced(s@, from, to),
{
    let mut r: Vec<char> = Vec::new();
    let mut i: usize = 0;
    let mut done = false;
    assert(s@.skip(0) =~= s@);
    while i < s.len()
        invariant
            i <= s@.len(),
            first_replaced(s@, from, to) == r@ + if done {
                s@.skip(i as int)
            } else {
                first_replaced(s@.skip(i as int), from, to)
            },
        decreases s@.len() - i,
    {
        let ghost before = r@;
        assert(s@.skip(i as int).drop_first() =~= s@.skip(i + 1));
        if !done && s[i] == from {
            done = true;
            r.push(to);
            assert(r@ + s@.skip(i + 1) =~= before + (seq![to] + s@.skip(i + 1)));
        } else {
            r.push(s[i]);
            assert(r@ + s@.skip(i + 1) =~= before + s@.skip(i as int));
            assert(r@ + first_replaced(s@.skip(i + 1), from, to) =~= before + (seq![s@[i as int]]
                + first_replaced(s@.skip(i + 1), from, to)));
        }
        i = i + 1;
    }
    assert(s@.skip(i as int) =~= Seq::<char>::empty());
    assert(r@ + Seq::<char>::empty() =~= r@);
    r
}

/// The digits as the service writes them, with the exponent marker made
/// `@`: in a base up to ten the marker is an `e`, which stands among the
/// last eleven characters.
pub open spec fn marked(raw: Seq<char>, base: int) -> Seq<char> {
    let k = last_index(raw, 'e');
    if base <= 10 && k >= 0 && k >= raw.len() - 11 {
        raw.update(k, '@')
    } else {
        raw
    }
}

/// The digits with a leading `-` made `_`.
pub open spec fn signed(s: Seq<char>) -> Seq<char> {
    if s.len() > 0 && s[0] == '-' {
        s.update(0, '_')
    } else {
        s
    }
}

/// Whether an exponent is one of -1 to -9.
pub open spec fn slightly_negative(exponent: Seq<char>) -> bool {
    &&& exponent.len() > 0
    &&& exponent[0] == '-'
    &&& 1 <= decimal_value(exponent.skip(1)) <= 9
}

/// A number in exponent form, given what stands before and behind the
/// marker: with an exponent of -1 to -9 it is written out with leading
/// zeros; else the mantissa loses its trailing zeros and the exponent's
/// sign is made `_`.
pub open spec fn exponential(mantissa: Seq<char>, exponent: Seq<char>) -> Seq<char> {
    let m = trimmed(trimmed(mantissa, '0'), '.');
    if slightly_negative(exponent) {
        let lead = zeros((decimal_value(exponent.skip(1)) - 1) as nat);
        if m.len() > 0 && m[0] == '_' {
            "_0."@ + lead + without_first(m.skip(1), '.')
        } else {
            "0."@ + lead + without_first(m, '.')
        }
    } else {
        m + seq!['@'] + first_replaced(exponent, '-', '_')
    }
}

/// How a number is shown in a base of 2 to 36, given its digits as the
/// service writes them: `@` marks the exponent and `_` the sign, an
/// exponent of -1 to -9 is written out, and trailing zeros behind the
/// separator go, with the separator where nothing is left behind it.
pub open spec fn notation(raw: Seq<char>, base: int) -> Seq<char> {
    let s = signed(marked(raw, base));
    let m = last_index(s, '@');
    let t = if m >= 0 && m >= s.len() - 11 {
        exponential(s.take(m), s.skip(m + 1))
    } else if s.contains('.') {
        trimmed(s, '0')
    } else {
        s
    };
    trimmed(t, '.')
}

/// Shows a number in a base of 2 to 36, given its digits as the service
/// writes them.
pub fn write_notation(raw: &Vec<char>, base: u64) -> (r: Vec<char>)
    ensures
        r@ == notation(raw@, base as int),
{
    let mut s: Vec<char> = slice_chars(raw, 0, raw.len());
    assert(s@ =~= raw@);
    if base <= 10 {
        match find_last(raw, 'e') {
            Some(k) => {
                if raw.len() - k <= 11 {
                    s[k] = '@';
                }
            },
            None => {},
        }
    }
    assert(s@ == marked(raw@, base as int));
    if s.len() > 0 && s[0] == '-' {
        s[0] = '_';
    }
    assert(s@ == signed(marked(raw@, base as int)));
    let mut t: Vec<char>;
    let at = find_last(&s, '@');
    let exponent_form = match at {
        Some(m) => s.len() - m <= 11,
        None => false,
    };
    if exponent_form {
        let m = at.unwrap();
        let mut mantissa = slice_chars(&s, 0, m);
        let exponent = slice_chars(&s, m + 1, s.len());
        assert(mantissa@ =~= s@.take(m as int));
        assert(exponent@ =~= s@.skip(m + 1));
        trim_end(&mut mantissa, '0');
        trim_end(&mut mantissa, '.');
        assert(mantissa@ == trimmed(trimmed(s@.take(m as int), '0'), '.'));
        let slight = if exponent.len() > 0 && exponent[0] == '-' {
            let digits = slice_chars(&exponent, 1, exponent.len());
            assert(digits@ =~= exponent@.skip(1));
            match parse_decimal(&digits) {
                Some(v) => if 1 <= v && v <= 9 {
                    Some(v)
                } else {
                    None
                },
                None => None,
            }
        } else {
            None
        };
        assert(match slight {
            Some(v) => slightly_negative(exponent@) && v == decimal_value(exponent@.skip(1)),
            None => !slightly_negative(exponent@),
        });
        match slight {
            Some(v) => {
                let negative = mantissa.len() > 0 && mantissa[0] == '_';
                t = if negative {
                    chars_of("_0.")
                } else {
                    chars_of("0.")
                };
                let ghost head = t@;
                let mut i: u64 = 1;
                while i < v
                    invariant
                        1 <= i <= v <= 9,
                        t@ == head + zeros((i - 1) as nat),
                    decreases v - i,
                {
                    t.push('0');
                    assert(t@ =~= head + zeros(i as nat));
                    i = i + 1;
                }
                assert(head + zeros(0) =~= head);
                let body = if negative {
                    let rest = slice_chars(&mantissa, 1, mantissa.len());
                    assert(rest@ =~= mantissa@.skip(1));
                    remove_first(&rest, '.')
                } else {
                    remove_first(&mantissa, '.')
                };
                append_chars(&mut t, &body);
                assert(t@ == exponential(s@.take(m as int), exponent@));
            },
            None => {
                let ghost kept = mantissa@;
                t = mantissa;
                t.push('@');
                let shown = replace_first(&exponent, '-', '_');
                append_chars(&mut t, &shown);
                assert(t@ =~= kept + seq!['@'] + first_replaced(exponent@, '-', '_'));
                assert(t@ == exponential(s@.take(m as int), exponent@));
            },
        }
    } else {
        t = s;
        if has(&t, '.') {
            trim_end(&mut t, '0');
        }
    }
    trim_end(&mut t, '.');
    t
}

/// How a number is shown in a base above 36, given its digits, each a
/// decimal numeral followed by a blank, of which `scale` stand behind the
/// separator: in brackets, with the separator in place of the blank before
/// those digits, or `0.` in front where there are no digits before them.
pub open spec fn bracketed(negative: bool, digits: Seq<char>, scale: nat) -> Seq<char> {
    let open = if negative {
        "(-"@
    } else {
        "("@
    };
    let k = nth_last_index(digits, ' ', scale);
    let body = if scale == 0 {
        digits
    } else if k >= 0 {
        digits.update(k, '.')
    } else {
        "0."@ + digits
    };
    if body.len() > 0 {
        (open + body.drop_last()).push(')')
    } else {
        open.drop_last().push(')')
    }
}

/// Shows a number in a base above 36, given its digits.
pub fn write_bracketed(negative: bool, digits: &Vec<char>, scale: usize) -> (r: Vec<char>)
    ensures
        r@ == bracketed(negative, digits@, scale as nat),
{
    let mut r = if negative {
        chars_of("(-")
    } else {
        chars_of("(")
    };
    proof {
        reveal_strlit("(-");
        reveal_strlit("(");
    }
    let ghost open = r@;
    let mut body: Vec<char> = Vec::new();
    if scale == 0 {
        append_chars(&mut body, digits);
        assert(body@ =~= digits@);
    } else {
        match find_nth_last(digits, ' ', scale) {
            Some(k) => {
                append_chars(&mut body, digits);
                assert(body@ =~= digits@);
                body[k] = '.';
            },
            None => {
                append(&mut body, "0.");
                append_chars(&mut body, digits);
                assert(body@ =~= "0."@ + digits@);
            },
        }
    }
    if body.len() > 0 {
        body.pop();
        append_chars(&mut r, &body);
    } else {
        r.pop();
    }
    r.push(')');
    r
}

/// What is to be shown for a number: a text that is known at once, or what
/// the service is to be asked for.
#[derive(Debug)]
pub enum Rendering {
    Text(String),
    Ask(Operation, Stage),
}

/// How far the digits of a number are worked out.
#[derive(Debug)]
pub enum Stage {
    /// The digits in a base up to 36 are awaited.
    Digits,
    /// The integer part in a base up to 36 is awaited, whose digits are
    /// counted to ask for the digits of the number.
    Measuring,
    /// The digits in a base above 36 are being worked out.
    Expanding(Expanding),
}

/// The precision that a number was computed with, which its digits are
/// worked out at; one bit at least.
pub open spec fn own_precision(n: NumberView) -> u32 {
    if n.precision == 0 {
        1
    } else {
        n.precision as u32
    }
}

/// The precision that the digits of a number are worked out at.
pub fn precision_of(n: &Number) -> (r: u32)
    ensures
        r == own_precision(n@),
{
    if n.precision == 0 {
        1
    } else {
        n.precision
    }
}

/// The text for a number that needs no digits worked out.
pub open spec fn ready_text(class: Class, base: int) -> Option<Seq<char>> {
    match class {
        Class::Zero => Some(
            if base > 36 {
                "(0)"@
            } else {
                "0"@
            },
        ),
        Class::Infinite => Some("Infinity"@),
        Class::NotANumber => Some("Not a number"@),
        Class::Finite => None,
    }
}

/// How many digits to ask for behind the integer part: all of them for a
/// precision that is negative or beyond counting.
pub open spec fn places_for(precision: int) -> Option<usize> {
    if precision < 0 || precision > usize::MAX {
        None
    } else {
        Some(precision as usize)
    }
}

/// `operation` asks for the digits of `num` in the output base, to the
/// output precision.
pub open spec fn asks_digits(
    operation: Operation,
    stage: Stage,
    num: NumberView,
    obase: NumberView,
    oprec: NumberView,
) -> bool {
    if obase.integer() > 36 {
        stage matches Stage::Expanding(state) && begun(num, obase, oprec, state, operation)
    } else if places_for(oprec.integer()) is None {
        &&& operation matches Operation::Digits { value, radix, count }
        &&& value@ == num
        &&& radix == obase.integer()
        &&& count is None
        &&& stage is Digits
    } else {
        &&& operation matches Operation::IntegerDigits { value, radix }
        &&& value@ == num
        &&& radix == obase.integer()
        &&& stage is Measuring
    }
}

/// How many digits a whole number has as it is written: its characters but
/// for the signs in front.
pub open spec fn digit_count(text: Seq<char>) -> nat
    decreases text.len(),
{
    if text.len() > 0 && text[0] == '-' {
        digit_count(text.drop_first())
    } else {
        text.len()
    }
}

/// How many significant digits show `places` digits behind an integer part
/// that is written `whole`; all of them where that is beyond counting.
pub open spec fn counted(places: usize, whole: Seq<char>) -> Option<usize> {
    if places + digit_count(whole) > usize::MAX {
        None
    } else {
        Some((places + digit_count(whole)) as usize)
    }
}

/// `operation` asks for the digits of `num` in the output base: as many
/// behind the integer part, which is written `whole`, as the output
/// precision says.
pub open spec fn asks_counted(
    operation: Operation,
    num: NumberView,
    obase: NumberView,
    oprec: NumberView,
    whole: Seq<char>,
) -> bool {
    &&& operation matches Operation::Digits { value, radix, count }
    &&& value@ == num
    &&& radix == obase.integer()
    &&& count == match places_for(oprec.integer()) {
        Some(places) => counted(places, whole),
        None => None,
    }
}

/// The radix that a base of 2 to 36 is.
fn radix_of(obase: &Number) -> (r: i32)
    ensures
        2 <= obase@.integer() <= 36 ==> r == obase@.integer(),
{
    match obase.magnitude() {
        Some(v) => if v <= 36 {
            v as i32
        } else {
            36
        },
        None => 36,
    }
}

/// Asks for the digits of a number in a base of 2 to 36, given its integer
/// part as it is written in that base.
pub fn count_digits(num: &Number, obase: &Number, oprec: &Number, whole: &Vec<char>) -> (r:
    Operation)
    requires
        2 <= obase@.integer() <= 36,
    ensures
        asks_counted(r, num@, obase@, oprec@, whole@),
{
    let mut from: usize = 0;
    assert(whole@.skip(0) =~= whole@);
    while from < whole.len() && whole[from] == '-'
        invariant
            from <= whole@.len(),
            digit_count(whole@) == digit_count(whole@.skip(from as int)),
        decreases whole@.len() - from,
    {
        assert(whole@.skip(from as int).drop_first() =~= whole@.skip(from + 1));
        from = from + 1;
    }
    let digits = whole.len() - from;
    let places = if oprec.integer_is_negative() {
        None
    } else {
        oprec.to_usize()
    };
    let count = match places {
        Some(p) => if p > usize::MAX - digits {
            None
        } else {
            Some(p + digits)
        },
        None => None,
    };
    Operation::Digits { value: num.clone(), radix: radix_of(obase), count }
}

/// What is to be shown for a number: zero, the infinities and what is no
/// number have fixed texts; for any other the service is asked: in a base
/// above 36 the expansion begins, in a base up to 36 all its digits are
/// asked for where the output precision asks for all, and else its integer
/// part first, whose digits are to be counted.
pub open spec fn float_to_string_post(
    num: NumberView,
    obase: NumberView,
    oprec: NumberView,
    r: Rendering,
) -> bool {
    match ready_text(num.class, obase.integer()) {
        Some(text) => r matches Rendering::Text(t) && t@ == text,
        None => r matches Rendering::Ask(operation, stage) && asks_digits(
            operation,
            stage,
            num,
            obase,
            oprec,
        ),
    }
}

/// Decides how a number is shown in the output base, to the output
/// precision.
pub fn float_to_string(num: &Number, obase: &Number, oprec: &Number) -> (r: Rendering)
    requires
        obase@.integer() >= 2,
    ensures
        float_to_string_post(num@, obase@, oprec@, r),
{
    let wide = !obase.integer_at_most(36);
    match num.class {
        Class::Zero => Rendering::Text(
            if wide {
                owned("(0)")
            } else {
                owned("0")
            },
        ),
        Class::Infinite => Rendering::Text(owned("Infinity")),
        Class::NotANumber => Rendering::Text(owned("Not a number")),
        Class::Finite => {
            if wide {
                let (state, operation) = begin_expansion(num, obase, oprec);
                Rendering::Ask(operation, Stage::Expanding(state))
            } else {
                let places = if oprec.integer_is_negative() {
                    None
                } else {
                    oprec.to_usize()
                };
                match places {
                    Some(_) => Rendering::Ask(
                        Operation::IntegerDigits { value: num.clone(), radix: radix_of(obase) },
                        Stage::Measuring,
                    ),
                    None => Rendering::Ask(
                        Operation::Digits {
                            value: num.clone(),
                            radix: radix_of(obase),
                            count: None,
                        },
                        Stage::Digits,
                    ),
                }
            }
        },
    }
}

/// What an answer about the digits of a number gives: the next question,
/// the text that shows the number, or nothing where the answer does not
/// fit.
#[derive(Debug)]
pub enum Rendered {
    Ask(Operation, Stage),
    Text(Vec<char>),
    Unusable,
}

/// What a step of the expansion means for the number that is shown: its
/// question is asked, or its digits are put in brackets.
pub open spec fn expansion_rendered(step: Expanded, negative: bool, r: Rendered) -> bool {
    match step {
        Expanded::Ask(next, operation) => r == Rendered::Ask(operation, Stage::Expanding(next)),
        Expanded::Done(digits, scale) => r matches Rendered::Text(t) && t@ == bracketed(
            negative,
            digits@,
            scale as nat,
        ),
        Expanded::Unusable => r is Unusable,
    }
}

/// What an answer about the digits of a number does. While measuring, the
/// answer is the integer part, and the digits of the number are asked for,
/// as many behind the integer part as the output precision says. Digits in
/// a base up to 36 are put in the notation. In a base above 36 the
/// expansion goes on, and its digits are put in brackets.
pub open spec fn render_post(
    num: NumberView,
    obase: NumberView,
    oprec: NumberView,
    stage: Stage,
    reply: Reply,
    r: Rendered,
) -> bool {
    match stage {
        Stage::Measuring => if 2 <= obase.integer() <= 36 && reply is Text {
            &&& r matches Rendered::Ask(operation, next)
            &&& asks_counted(operation, num, obase, oprec, (reply->Text_0)@)
            &&& next is Digits
        } else {
            r is Unusable
        },
        Stage::Digits => if reply is Text {
            r matches Rendered::Text(t) && t@ == notation((reply->Text_0)@, obase.integer())
        } else {
            r is Unusable
        },
        Stage::Expanding(state) => exists|step: Expanded| #[trigger]
            expand_post(obase, oprec, state, reply, step) && expansion_rendered(
                step,
                num.negative,
                r,
            ),
    }
}

/// Takes an answer about the digits of a number.
pub fn render(num: &Number, obase: &Number, oprec: &Number, stage: Stage, reply: Reply) -> (r:
    Rendered)
    ensures
        render_post(num@, obase@, oprec@, stage, reply, r),
{
    match stage {
        Stage::Measuring => {
            if !obase.integer_at_least(2) || !obase.integer_at_most(36) {
                return Rendered::Unusable;
            }
            match reply {
                Reply::Text(whole) => Rendered::Ask(
                    count_digits(num, obase, oprec, &chars_of(whole.as_str())),
                    Stage::Digits,
                ),
                _ => Rendered::Unusable,
            }
        },
        Stage::Digits => match reply {
            Reply::Text(raw) => {
                let base: u64 = if obase.integer_at_most(10) {
                    10
                } else {
                    11
                };
                let text = write_notation(&chars_of(raw.as_str()), base);
                proof {
                    lemma_notation_wide(raw@, base as int, obase@.integer());
                }
                Rendered::Text(text)
            },
            _ => Rendered::Unusable,
        },
        Stage::Expanding(state) => {
            let step = expand(obase, oprec, state, reply);
            let ghost taken = step;
            let r = match step {
                Expanded::Ask(next, operation) => Rendered::Ask(operation, Stage::Expanding(next)),
                Expanded::Done(digits, scale) => Rendered::Text(
                    write_bracketed(num.negative, &digits, scale),
                ),
                Expanded::Unusable => Rendered::Unusable,
            };
            assert(expand_post(obase@, oprec@, state, reply, taken) && expansion_rendered(
                taken,
                num@.negative,
                r,
            ));
            r
        },
    }
}

/// The notation depends on the base only through whether it is above ten.
pub proof fn lemma_notation_wide(raw: Seq<char>, a: int, b: int)
    requires
        (a <= 10) == (b <= 10),
    ensures
        notation(raw, a) == notation(raw, b),
{
}

} // verus!
