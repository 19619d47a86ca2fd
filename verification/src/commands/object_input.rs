use crate::commands::{push, pushed_value, top_frame_becomes};
use crate::handler::{Handler, StackObject, Value};
use crate::number::Relation;
use crate::service::{Operation, Outcome, Pending, Request};
use crate::text::{
    append, append_chars, canonical, canonical_digits, chars_of, compare_decimal, compose,
    decimal_value, is_decimal_digit, is_digit, owned, string_of,
};
use vstd::prelude::*;

verus! {

/// What reading a text literal gave: what is left of the frame, the text,
/// and whether its closing bracket was found.
pub struct TextScan {
    pub rest: Seq<char>,
    pub text: Seq<char>,
    pub closed: bool,
}

/// Reads a text literal from a frame, `depth` brackets deep with `read`
/// already behind it: up to the bracket that closes the first one, or to
/// the end of the frame.
pub open spec fn scan_text(frame: Seq<char>, depth: nat, read: Seq<char>) -> TextScan
    decreases frame.len(),
{
    if frame.len() == 0 {
        TextScan { rest: frame, text: read, closed: false }
    } else if frame.last() == ']' && depth <= 1 {
        TextScan { rest: frame.drop_last(), text: read, closed: true }
    } else {
        scan_text(
            frame.drop_last(),
            if frame.last() == '[' {
                depth + 1
            } else if frame.last() == ']' {
                (depth - 1) as nat
            } else {
                depth
            },
            read.push(frame.last()),
        )
    }
}

/// What `[` does: the text up to the matching bracket goes on the main
/// stack; without that bracket the frame is used up and the failure shows
/// what was read.
pub open spec fn string_input_post(
    pre: Handler,
    post: Handler,
    frames_pre: Seq<Vec<char>>,
    frames_post: Seq<Vec<char>>,
    r: Outcome,
) -> bool {
    let scan = scan_text(frames_pre.last()@, 1, Seq::empty());
    &&& top_frame_becomes(frames_pre, frames_post, scan.rest)
    &&& if scan.closed {
        pushed_value(pre, post, Value::String(scan.text)) && r.silent()
    } else {
        post == pre && r.failed(
            "! Unable to parse string \"["@ + scan.text + "\": missing closing bracket"@,
        )
    }
}

/// Reads a text literal.
pub fn string_input(
    handler: &mut Handler,
    command_stack: &mut Vec<Vec<char>>,
    command: char,
) -> (r: Outcome)
    requires
        old(command_stack)@.len() >= 1,
    ensures
        string_input_post(
            *old(handler),
            *final(handler),
            old(command_stack)@,
            final(command_stack)@,
            r,
        ),
{
    let mut frame = command_stack.pop().unwrap();
    let ghost start = frame@;
    let mut text: Vec<char> = Vec::new();
    let mut depth: u128 = 1;
    let mut closed = false;
    while frame.len() > 0 && !closed
        invariant
            depth >= 1,
            depth <= text@.len() + 1,
            scan_text(start, 1, Seq::empty()) == if closed {
                TextScan { rest: frame@, text: text@, closed: true }
            } else {
                scan_text(frame@, depth as nat, text@)
            },
        decreases frame@.len(),
    {
        let c = frame.pop().unwrap();
        assert(text@.len() == text.len());
        if c == ']' && depth == 1 {
            closed = true;
        } else {
            if c == '[' {
                depth = depth + 1;
            } else if c == ']' {
                depth = depth - 1;
            }
            text.push(c);
        }
    }
    command_stack.push(frame);
    assert(command_stack@.drop_last() =~= old(command_stack)@.drop_last());
    if closed {
        push(handler, StackObject::String(string_of(&text)));
        Outcome::nothing()
    } else {
        Outcome::failure(compose("! Unable to parse string \"[", &text, "\": missing closing bracket"))
    }
}

/// What a letter counts as a digit: ten for `a` or `A` up to 35 for `z` or
/// `Z`; 36 for what is no letter.
pub open spec fn letter_value(c: char) -> nat {
    if 'a' <= c && c <= 'z' {
        (c as int - 87) as nat
    } else if 'A' <= c && c <= 'Z' {
        (c as int - 55) as nat
    } else {
        36
    }
}

/// What a letter counts as a digit.
pub fn letter_of(c: char) -> (r: u64)
    ensures
        r as nat == letter_value(c),
{
    if c >= 'a' && c <= 'z' {
        ((c as u32) - 87) as u64
    } else if c >= 'A' && c <= 'Z' {
        ((c as u32) - 55) as u64
    } else {
        36
    }
}

/// What reading a numeral gave: what is left of the frame, and the
/// numeral.
pub struct NumeralScan {
    pub rest: Seq<char>,
    pub text: Seq<char>,
}

/// Reads the longest numeral from a frame, with `text` already behind it:
/// digits, one separator, one exponent marker, one sign before and one
/// after that marker (written `_`, read as `-`), and, with `letters`, the
/// letters that are digits in `base`.
pub open spec fn scan_numeral(
    frame: Seq<char>,
    text: Seq<char>,
    point: bool,
    sign: bool,
    marker: bool,
    letters: bool,
    base: nat,
) -> NumeralScan
    decreases frame.len(),
{
    if frame.len() == 0 {
        NumeralScan { rest: frame, text }
    } else {
        let c = frame.last();
        let rest = frame.drop_last();
        if is_digit(c) {
            scan_numeral(rest, text.push(c), point, sign, marker, letters, base)
        } else if c == '.' && !point {
            scan_numeral(rest, text.push(c), true, sign, marker, letters, base)
        } else if c == '@' && !marker {
            scan_numeral(rest, text.push(c), point, false, true, letters, base)
        } else if c == '_' && !sign {
            scan_numeral(rest, text.push('-'), point, true, marker, letters, base)
        } else if c != '.' && c != '@' && c != '_' && letters && letter_value(c) < base {
            scan_numeral(rest, text.push(c), point, sign, marker, letters, base)
        } else {
            NumeralScan { rest: frame, text }
        }
    }
}

/// A numeral with what it leaves unsaid written out: a one before a leading
/// exponent marker, a zero before a leading separator, a zero after a
/// trailing separator or sign or in place of nothing.
pub open spec fn normalized(text: Seq<char>) -> Seq<char> {
    let a = if text.len() > 0 && text[0] == '@' {
        seq!['1'] + text
    } else {
        text
    };
    let b = if a.len() > 0 && a[0] == '.' {
        seq!['0'] + a
    } else if a.len() > 1 && a[0] == '-' && a[1] == '.' {
        seq!['-', '0'] + a.skip(1)
    } else {
        a
    };
    if b.len() == 0 || b.last() == '.' || b.last() == '-' {
        b.push('0')
    } else {
        b
    }
}

/// Writes out what a numeral leaves unsaid.
pub fn normalize(text: &Vec<char>) -> (r: Vec<char>)
    ensures
        r@ == normalized(text@),
{
    let mut a: Vec<char> = Vec::new();
    if text.len() > 0 && text[0] == '@' {
        a.push('1');
    }
    append_chars(&mut a, text);
    assert(a@ =~= if text@.len() > 0 && text@[0] == '@' {
        seq!['1'] + text@
    } else {
        text@
    });
    let mut b: Vec<char> = Vec::new();
    if a.len() > 0 && a[0] == '.' {
        b.push('0');
        append_chars(&mut b, &a);
        assert(b@ =~= seq!['0'] + a@);
    } else if a.len() > 1 && a[0] == '-' && a[1] == '.' {
        b.push('-');
        b.push('0');
        let tail = crate::text::slice_chars(&a, 1, a.len());
        append_chars(&mut b, &tail);
        assert(b@ =~= seq!['-', '0'] + a@.skip(1));
    } else {
        append_chars(&mut b, &a);
        assert(b@ =~= a@);
    }
    if b.len() == 0 || b[b.len() - 1] == '.' || b[b.len() - 1] == '-' {
        b.push('0');
    }
    b
}

/// What a numeral opcode does: with an input base above 36 it fails;
/// else the longest numeral is taken off the frame, starting with the
/// opcode itself unless that is the quote that lets letters in, and goes to
/// the service written out in full.
pub open spec fn standard_number_input_post(
    pre: Handler,
    post: Handler,
    frames_pre: Seq<Vec<char>>,
    frames_post: Seq<Vec<char>>,
    command: char,
    r: Outcome,
) -> bool {
    let base = pre.context().input_base@.integer();
    if base > 36 {
        &&& post == pre
        &&& frames_post == frames_pre
        &&& r.failed("! Any-base input must be used for input bases over 36"@)
    } else {
        let start = if command == '\'' {
            frames_pre.last()@
        } else {
            frames_pre.last()@.push(command)
        };
        let scan = scan_numeral(
            start,
            Seq::empty(),
            false,
            false,
            false,
            command == '\'',
            base as nat,
        );
        &&& post == pre
        &&& top_frame_becomes(frames_pre, frames_post, scan.rest)
        &&& r.output@.len() == 0
        &&& r.ask matches Some(ask)
        &&& ask.request.precision == pre.working_precision
        &&& ask.request.operation matches Operation::Parse { text, radix }
        &&& text@ == normalized(scan.text)
        &&& radix == base
        &&& ask.pending matches Pending::Parsed { text: shown }
        &&& shown@ == normalized(scan.text)
    }
}

/// Reads a numeral in a base of 2 to 36.
pub fn standard_number_input(
    handler: &mut Handler,
    command_stack: &mut Vec<Vec<char>>,
    command: char,
) -> (r: Outcome)
    requires
        old(handler).wf(),
        old(command_stack)@.len() >= 1,
    ensures
        standard_number_input_post(
            *old(handler),
            *final(handler),
            old(command_stack)@,
            final(command_stack)@,
            command,
            r,
        ),
{
    let n = handler.parameter_stack.len();
    let base: u64 = match handler.parameter_stack[n - 1].input_base.magnitude() {
        Some(v) => v,
        None => 37,
    };
    if base > 36 {
        return Outcome::failure(owned("! Any-base input must be used for input bases over 36"));
    }
    let letters = command == '\'';
    let mut frame = command_stack.pop().unwrap();
    if !letters {
        frame.push(command);
    }
    let ghost start = frame@;
    let mut text: Vec<char> = Vec::new();
    let mut point = false;
    let mut sign = false;
    let mut marker = false;
    let mut done = false;
    while frame.len() > 0 && !done
        invariant
            scan_numeral(start, Seq::empty(), false, false, false, letters, base as nat) == if done {
                NumeralScan { rest: frame@, text: text@ }
            } else {
                scan_numeral(frame@, text@, point, sign, marker, letters, base as nat)
            },
        decreases
                frame@.len() + if done {
                    0int
                } else {
                    1int
                },
    {
        let c = frame[frame.len() - 1];
        if is_decimal_digit(c) {
            text.push(c);
            frame.pop();
        } else if c == '.' && !point {
            point = true;
            text.push(c);
            frame.pop();
        } else if c == '@' && !marker {
            marker = true;
            sign = false;
            text.push(c);
            frame.pop();
        } else if c == '_' && !sign {
            sign = true;
            text.push('-');
            frame.pop();
        } else if c != '.' && c != '@' && c != '_' && letters && letter_of(c) < base {
            text.push(c);
            frame.pop();
        } else {
            done = true;
        }
    }
    command_stack.push(frame);
    assert(command_stack@.drop_last() =~= old(command_stack)@.drop_last());
    let numeral = normalize(&text);
    Outcome {
        output: Vec::new(),
        ask: Some(
            crate::service::Ask {
                request: Request {
                    precision: handler.working_precision,
                    operation: Operation::Parse { text: string_of(&numeral), radix: base as i32 },
                },
                pending: Pending::Parsed { text: string_of(&numeral) },
            },
        ),
    }
}

/// What is left of a frame when the rest of a malformed number goes: what
/// stands behind the next `)`, or nothing where there is none.
pub open spec fn discarded(frame: Seq<char>) -> Seq<char>
    decreases frame.len(),
{
    if frame.len() == 0 {
        frame
    } else if frame.last() == ')' {
        frame.drop_last()
    } else {
        discarded(frame.drop_last())
    }
}

/// Takes the rest of a malformed number off the frame.
pub fn discard(frame: &mut Vec<char>)
    ensures
        final(frame)@ == discarded(old(frame)@),
{
    let mut done = false;
    while frame.len() > 0 && !done
        invariant
            discarded(old(frame)@) == if done {
                frame@
            } else {
                discarded(frame@)
            },
        decreases frame@.len(),
    {
        let c = frame.pop().unwrap();
        if c == ')' {
            done = true;
        }
    }
}

/// What reading the exponent of a number in any base gave.
pub enum ExponentScan {
    Value { rest: Seq<char>, text: Seq<char> },
    Failure { rest: Seq<char>, message: Seq<char> },
}

/// The exponent as a numeral: nothing where it has no digit.
pub open spec fn exponent_text(digits: Seq<char>, negative: bool) -> Seq<char> {
    if digits.len() == 0 {
        Seq::empty()
    } else if negative {
        seq!['-'] + digits
    } else {
        digits
    }
}

/// Reads the exponent of a number in any base, with `digits` already
/// behind it: digits and one sign, up to the closing bracket or the end of
/// the frame.
pub open spec fn scan_exponent(frame: Seq<char>, digits: Seq<char>, negative: bool) -> ExponentScan
    decreases frame.len(),
{
    if frame.len() == 0 {
        ExponentScan::Value { rest: frame, text: exponent_text(digits, negative) }
    } else {
        let c = frame.last();
        let rest = frame.drop_last();
        if is_digit(c) {
            scan_exponent(rest, digits.push(c), negative)
        } else if c == '-' || c == '_' {
            if negative {
                ExponentScan::Failure {
                    rest: discarded(rest),
                    message: "! Unable to parse any-base number: more than one negative sign in exponent"@,
                }
            } else {
                scan_exponent(rest, digits, true)
            }
        } else if c == ')' {
            ExponentScan::Value { rest, text: exponent_text(digits, negative) }
        } else {
            ExponentScan::Failure {
                rest: discarded(rest),
                message: "! Unable to parse any-base number: invalid character '"@ + seq![c]
                    + "' in exponent"@,
            }
        }
    }
}

/// Reads the exponent of a number in any base.
pub fn read_exponent(frame: &mut Vec<char>) -> (r: Result<Vec<char>, String>)
    ensures
        match scan_exponent(old(frame)@, Seq::empty(), false) {
            ExponentScan::Value { rest, text } => {
                &&& final(frame)@ == rest
                &&& r matches Ok(t)
                &&& t@ == text
            },
            ExponentScan::Failure { rest, message } => {
                &&& final(frame)@ == rest
                &&& r matches Err(m)
                &&& m@ == message
            },
        },
{
    let mut digits: Vec<char> = Vec::new();
    let mut negative = false;
    let mut closed = false;
    while frame.len() > 0 && !closed
        invariant
            scan_exponent(old(frame)@, Seq::empty(), false) == if closed {
                ExponentScan::Value { rest: frame@, text: exponent_text(digits@, negative) }
            } else {
                scan_exponent(frame@, digits@, negative)
            },
        decreases frame@.len(),
    {
        let c = frame.pop().unwrap();
        if is_decimal_digit(c) {
            digits.push(c);
        } else if c == '-' || c == '_' {
            if negative {
                discard(frame);
                return Err(
                    owned(
                        "! Unable to parse any-base number: more than one negative sign in exponent",
                    ),
                );
            }
            negative = true;
        } else if c == ')' {
            closed = true;
        } else {
            discard(frame);
            let mut shown: Vec<char> = Vec::new();
            shown.push(c);
            assert(shown@ =~= seq![c]);
            return Err(
                compose(
                    "! Unable to parse any-base number: invalid character '",
                    &shown,
                    "' in exponent",
                ),
            );
        }
    }
    if digits.len() == 0 {
        Ok(Vec::new())
    } else if negative {
        let mut text: Vec<char> = Vec::new();
        text.push('-');
        append_chars(&mut text, &digits);
        assert(text@ =~= seq!['-'] + digits@);
        Ok(text)
    } else {
        Ok(digits)
    }
}

/// How far a number in any base has been read: the digit groups that are
/// complete, each followed by a blank; the group being read; whether a sign
/// and a separator were seen; and how many groups ended since the
/// separator.
pub struct GroupState {
    pub digits: Seq<char>,
    pub current: Seq<char>,
    pub negative: bool,
    pub point: bool,
    pub behind: nat,
}

/// What reading a number in any base gave: its parts, or a failure; and
/// what is left of the frame.
pub enum GroupScan {
    Value { rest: Seq<char>, negative: bool, digits: Seq<char>, fraction: nat, exponent: Seq<char> },
    Failure { rest: Seq<char>, message: Seq<char> },
}

/// Nothing read yet.
pub open spec fn fresh() -> GroupState {
    GroupState {
        digits: Seq::empty(),
        current: Seq::empty(),
        negative: false,
        point: false,
        behind: 0,
    }
}

/// The state once the group being read is complete. An empty group is the
/// digit zero.
pub open spec fn group_ended(st: GroupState) -> GroupState {
    GroupState {
        digits: st.digits + canonical(st.current) + seq![' '],
        current: Seq::empty(),
        negative: st.negative,
        point: st.point,
        behind: if st.point {
            st.behind + 1
        } else {
            st.behind
        },
    }
}

/// The group being read is no digit of the base.
pub open spec fn too_high(st: GroupState, base: Seq<char>) -> bool {
    decimal_value(st.current) >= decimal_value(base)
}

/// What is said of a group that is no digit of the base.
pub open spec fn too_high_message(st: GroupState, base: Seq<char>) -> Seq<char> {
    "! Unable to parse any-base number: digit '"@ + canonical(st.current)
        + "' is too high for base "@ + base
}

/// The number read, once its last group is complete. The group before the
/// separator ended after it was seen, so one group less stands behind it.
pub open spec fn finished(rest: Seq<char>, st: GroupState, exponent: Seq<char>) -> GroupScan {
    GroupScan::Value {
        rest,
        negative: st.negative,
        digits: st.digits,
        fraction: if st.behind >= 1 {
            (st.behind - 1) as nat
        } else {
            0
        },
        exponent,
    }
}

/// Reads a number in any base from a frame: groups of decimal digits, ended
/// by a blank, the separator `.`, the exponent marker `@` or the closing
/// bracket, with one sign `-` or `_` anywhere. The end of the frame closes
/// the number. A group that is no digit of `base` (given in decimal), a
/// second sign or separator, or any other character is a failure, and the
/// rest of the number is taken off the frame.
pub open spec fn scan_groups(frame: Seq<char>, base: Seq<char>, st: GroupState) -> GroupScan
    decreases frame.len(),
{
    if frame.len() == 0 {
        if too_high(st, base) {
            GroupScan::Failure { rest: frame, message: too_high_message(st, base) }
        } else {
            finished(frame, group_ended(st), Seq::empty())
        }
    } else {
        let c = frame.last();
        let rest = frame.drop_last();
        if is_digit(c) {
            scan_groups(rest, base, GroupState { current: st.current.push(c), ..st })
        } else if c == '-' || c == '_' {
            if st.negative {
                GroupScan::Failure {
                    rest: discarded(rest),
                    message: "! Unable to parse any-base number: more than one negative sign"@,
                }
            } else {
                scan_groups(rest, base, GroupState { negative: true, ..st })
            }
        } else if c == '.' {
            if st.point {
                GroupScan::Failure {
                    rest: discarded(rest),
                    message: "! Unable to parse any-base number: more than one fractional separator"@,
                }
            } else if too_high(st, base) {
                GroupScan::Failure { rest: discarded(rest), message: too_high_message(st, base) }
            } else {
                scan_groups(rest, base, group_ended(GroupState { point: true, ..st }))
            }
        } else if c == '@' {
            if too_high(st, base) {
                GroupScan::Failure { rest: discarded(rest), message: too_high_message(st, base) }
            } else {
                match scan_exponent(rest, Seq::empty(), false) {
                    ExponentScan::Value { rest: after, text } => finished(
                        after,
                        group_ended(st),
                        text,
                    ),
                    ExponentScan::Failure { rest: after, message } => GroupScan::Failure {
                        rest: after,
                        message,
                    },
                }
            }
        } else if c == ' ' {
            if too_high(st, base) {
                GroupScan::Failure { rest: discarded(rest), message: too_high_message(st, base) }
            } else {
                scan_groups(rest, base, group_ended(st))
            }
        } else if c == ')' {
            if too_high(st, base) {
                GroupScan::Failure { rest, message: too_high_message(st, base) }
            } else {
                finished(rest, group_ended(st), Seq::empty())
            }
        } else {
            GroupScan::Failure {
                rest: discarded(rest),
                message: "! Invalid character in any-base number: '"@ + seq![c] + "'"@,
            }
        }
    }
}

/// The parts of a number in any base.
#[derive(Debug)]
pub struct Groups {
    pub negative: bool,
    pub digits: Vec<char>,
    pub fraction: usize,
    pub exponent: Vec<char>,
}

fn high_message(current: &Vec<char>, base: &Vec<char>) -> (r: String)
    ensures
        r@ == "! Unable to parse any-base number: digit '"@ + canonical(current@)
            + "' is too high for base "@ + base@,
{
    let mut text = chars_of("! Unable to parse any-base number: digit '");
    let shown = canonical_digits(current);
    append_chars(&mut text, &shown);
    append(&mut text, "' is too high for base ");
    append_chars(&mut text, base);
    string_of(&text)
}

fn end_group(digits: &mut Vec<char>, current: &mut Vec<char>)
    ensures
        final(digits)@ == old(digits)@ + canonical(old(current)@) + seq![' '],
        final(current)@ == Seq::<char>::empty(),
{
    let shown = canonical_digits(current);
    append_chars(digits, &shown);
    digits.push(' ');
    current.clear();
    assert(digits@ =~= old(digits)@ + canonical(old(current)@) + seq![' ']);
}

/// Reads a number in any base from a frame, given the base in decimal.
pub fn read_groups(frame: &mut Vec<char>, base: &Vec<char>) -> (r: Result<Groups, String>)
    ensures
        match scan_groups(old(frame)@, base@, fresh()) {
            GroupScan::Value { rest, negative, digits, fraction, exponent } => {
                &&& final(frame)@ == rest
                &&& r matches Ok(g)
                &&& g.negative == negative
                &&& g.digits@ == digits
                &&& g.fraction == fraction
                &&& g.exponent@ == exponent
            },
            GroupScan::Failure { rest, message } => {
                &&& final(frame)@ == rest
                &&& r matches Err(m)
                &&& m@ == message
            },
        },
{
    let ghost start = frame@;
    let mut digits: Vec<char> = Vec::new();
    let mut current: Vec<char> = Vec::new();
    let mut negative = false;
    let mut point = false;
    let mut behind: usize = 0;
    assert(frame@.len() == frame.len());
    loop
        invariant
            start == old(frame)@,
            start.len() <= usize::MAX,
            !point ==> behind == 0,
            behind + frame@.len() <= start.len(),
            scan_groups(start, base@, fresh()) == scan_groups(
                frame@,
                base@,
                GroupState {
                    digits: digits@,
                    current: current@,
                    negative,
                    point,
                    behind: behind as nat,
                },
            ),
        decreases frame@.len(),
    {
        let ghost st = GroupState {
            digits: digits@,
            current: current@,
            negative,
            point,
            behind: behind as nat,
        };
        let high = match compare_decimal(&current, base) {
            Relation::Less => false,
            _ => true,
        };
        assert(high == too_high(st, base@));
        if frame.len() == 0 {
            if high {
                return Err(high_message(&current, base));
            }
            end_group(&mut digits, &mut current);
            let fraction = behind;
            return Ok(Groups { negative, digits, fraction, exponent: Vec::new() });
        }
        let c = frame.pop().unwrap();
        if is_decimal_digit(c) {
            current.push(c);
        } else if c == '-' || c == '_' {
            if negative {
                discard(frame);
                return Err(owned("! Unable to parse any-base number: more than one negative sign"));
            }
            negative = true;
        } else if c == '.' {
            if point {
                discard(frame);
                return Err(
                    owned("! Unable to parse any-base number: more than one fractional separator"),
                );
            }
            if high {
                discard(frame);
                return Err(high_message(&current, base));
            }
            point = true;
            end_group(&mut digits, &mut current);
            behind = behind + 1;
        } else if c == '@' {
            if high {
                discard(frame);
                return Err(high_message(&current, base));
            }
            end_group(&mut digits, &mut current);
            let fraction = behind;
            return match read_exponent(frame) {
                Ok(exponent) => Ok(Groups { negative, digits, fraction, exponent }),
                Err(message) => Err(message),
            };
        } else if c == ' ' {
            if high {
                discard(frame);
                return Err(high_message(&current, base));
            }
            end_group(&mut digits, &mut current);
            if point {
                behind = behind + 1;
            }
        } else if c == ')' {
            if high {
                return Err(high_message(&current, base));
            }
            end_group(&mut digits, &mut current);
            let fraction = behind;
            return Ok(Groups { negative, digits, fraction, exponent: Vec::new() });
        } else {
            discard(frame);
            let mut shown: Vec<char> = Vec::new();
            shown.push(c);
            assert(shown@ =~= seq![c]);
            return Err(compose("! Invalid character in any-base number: '", &shown, "'"));
        }
    }
}

/// What `(` does: at the end of the frame the number is zero, which the
/// service makes; else the service is asked for the input base in decimal,
/// to read the number with.
pub open spec fn any_base_number_input_post(
    pre: Handler,
    post: Handler,
    frames_pre: Seq<Vec<char>>,
    frames_post: Seq<Vec<char>>,
    r: Outcome,
) -> bool {
    &&& post == pre
    &&& frames_post == frames_pre
    &&& if frames_pre.last()@.len() == 0 {
        r.asked(pre.working_precision, Operation::Unsigned(0), Pending::Push)
    } else {
        &&& r.output@.len() == 0
        &&& r.ask matches Some(ask)
        &&& ask.request.precision == pre.working_precision
        &&& ask.request.operation matches Operation::Describe(numbers)
        &&& numbers@.len() == 1
        &&& numbers@[0]@ == pre.context().input_base@
        &&& ask.pending == Pending::AnyBase
    }
}

/// Begins to read a number in any base.
pub fn any_base_number_input(
    handler: &mut Handler,
    command_stack: &mut Vec<Vec<char>>,
    command: char,
) -> (r: Outcome)
    requires
        old(handler).wf(),
        old(command_stack)@.len() >= 1,
    ensures
        any_base_number_input_post(
            *old(handler),
            *final(handler),
            old(command_stack)@,
            final(command_stack)@,
            r,
        ),
{
    let top = command_stack.len() - 1;
    if command_stack[top].len() == 0 {
        return Outcome::request(handler.working_precision, Operation::Unsigned(0), Pending::Push);
    }
    let n = handler.parameter_stack.len();
    let mut numbers: Vec<crate::number::Number> = Vec::new();
    numbers.push(handler.parameter_stack[n - 1].input_base.clone());
    Outcome::request(handler.working_precision, Operation::Describe(numbers), Pending::AnyBase)
}

/// What reading a number in any base does once the base is known in
/// decimal: the number is off the frame, and the working out of its value
/// begins with its parts, or the failure is reported.
pub open spec fn any_base_digits_post(
    handler: Handler,
    frames_pre: Seq<Vec<char>>,
    frames_post: Seq<Vec<char>>,
    base: Seq<char>,
    r: Outcome,
) -> bool {
    match scan_groups(frames_pre.last()@, base, fresh()) {
        GroupScan::Value { rest, negative, digits, fraction, exponent } => {
            &&& top_frame_becomes(frames_pre, frames_post, rest)
            &&& r.ask matches Some(ask)
            &&& ask.pending matches Pending::Accumulate { groups, state }
            &&& groups.negative == negative
            &&& groups.digits@ == digits
            &&& groups.fraction == fraction
            &&& groups.exponent@ == exponent
            &&& crate::commands::accumulation::accumulation_begun(handler, groups, r)
        },
        GroupScan::Failure { rest, message } => top_frame_becomes(frames_pre, frames_post, rest)
            && r.failed(message),
    }
}

/// Reads a number in any base, given the input base in decimal.
pub fn any_base_digits(
    handler: &Handler,
    command_stack: &mut Vec<Vec<char>>,
    base: &String,
) -> (r: Outcome)
    requires
        handler.wf(),
        old(command_stack)@.len() >= 1,
    ensures
        any_base_digits_post(*handler, old(command_stack)@, final(command_stack)@, base@, r),
{
    let mut frame = command_stack.pop().unwrap();
    let base_digits = chars_of(base.as_str());
    let read = read_groups(&mut frame, &base_digits);
    command_stack.push(frame);
    assert(command_stack@.drop_last() =~= old(command_stack)@.drop_last());
    match read {
        Ok(groups) => crate::commands::accumulation::begin_accumulation(handler, groups),
        Err(message) => Outcome::failure(message),
    }
}

} // verus!
