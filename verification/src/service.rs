use crate::handler::{Command, Output, StackObject};
use crate::number::Number;
use vstd::prelude::*;

verus! {

/// A function of one number.
#[derive(Clone, Copy, Debug, PartialEq, Eq, Structural)]
pub enum UnaryOperation {
    SquareRoot,
    NaturalLogarithm,
    Sine,
    Cosine,
    Tangent,
    ArcSine,
    ArcCosine,
    ArcTangent,
    /// Ten to the power of the number.
    TenTo,
}

/// A function of two numbers. `Root` is the first raised to the reciprocal
/// of the second, `Logarithm` the logarithm of the first to the base of the
/// second, `Remainder` the remainder of the integer parts with the sign of
/// the first. `Scale` is the first times the integer part of the second,
/// `Shrink` the first divided by it, `Raise` the first to the power of it.
#[derive(Clone, Copy, Debug, PartialEq, Eq, Structural)]
pub enum BinaryOperation {
    Add,
    Subtract,
    Multiply,
    Divide,
    Power,
    Root,
    Logarithm,
    Remainder,
    Scale,
    Shrink,
    Raise,
}

/// A function of the integer parts of two numbers whose answer is exact: it
/// has as many bits as it takes, whatever the precision of the request.
/// `Quotient` is cut off towards zero.
#[derive(Clone, Copy, Debug, PartialEq, Eq, Structural)]
pub enum WholeOperation {
    Sum,
    Product,
    Quotient,
}

/// A named constant with a decimal scale and a power: the constant times
/// ten to the scale, raised to the power.
#[derive(Debug)]
pub struct Affixed {
    pub name: String,
    pub scale: String,
    pub power: String,
}

/// The mathematical content of an [`Affixed`].
pub struct AffixedView {
    pub name: Seq<char>,
    pub scale: Seq<char>,
    pub power: Seq<char>,
}

impl View for Affixed {
    type V = AffixedView;

    open spec fn view(&self) -> AffixedView {
        AffixedView { name: self.name@, scale: self.scale@, power: self.power@ }
    }
}

/// A computation that the session leaves to an arithmetic service. A
/// number that comes back is rounded to the precision of the request, but
/// where the operation is said to be exact.
#[derive(Debug)]
pub enum Operation {
    /// The value of a numeral in a radix of 2 to 36.
    Parse { text: String, radix: i32 },
    /// A count as a number.
    Unsigned(u64),
    /// The integer part of a number.
    Integer(Number),
    /// The number that the bytes spell, the most significant first.
    Bytes(Vec<u8>),
    Unary(UnaryOperation, Number),
    Binary(BinaryOperation, Number, Number),
    /// Quotient and remainder of the integer parts, the remainder not
    /// negative.
    Euclid(Number, Number),
    /// An exact function of the integer parts.
    Whole(WholeOperation, Number, Number),
    /// Quotient and remainder of the integer parts, the remainder not
    /// negative, both exact.
    WholeEuclid(Number, Number),
    /// The whole number nearest to the value, exact.
    Nearest(Number),
    /// The whole number that decimal digits spell, with or without a minus
    /// sign before them, exact.
    Numeral(String),
    /// The value of a named constant.
    Named(String),
    /// The integer part of the first to the power of that of the second,
    /// modulo that of the third.
    PowerMod(Number, Number, Number),
    /// The integer part of a value written in a radix of 2 to 36.
    IntegerDigits { value: Number, radix: i32 },
    /// A value written in a radix of 2 to 36 with `count` significant
    /// digits, or with as many as it takes to tell it from any other.
    Digits { value: Number, radix: i32, count: Option<usize> },
    /// The integer parts in decimal.
    Describe(Vec<Number>),
    /// The bytes of the integer part's absolute value, the most significant
    /// first.
    ToBytes(Number),
}

/// An operation together with the precision to compute it at.
#[derive(Debug)]
pub struct Request {
    pub precision: u32,
    pub operation: Operation,
}

/// What the arithmetic service answers.
#[derive(Debug)]
pub enum Reply {
    Number(Number),
    Pair(Number, Number),
    /// There is no such value.
    Missing,
    /// The text is no numeral; the reason is given.
    Rejected(String),
    Text(String),
    Texts(Vec<String>),
    Bytes(Vec<u8>),
}

/// One line to print: a value between two fixed texts, with a signal.
#[derive(Debug)]
pub struct Line {
    pub before: String,
    pub value: StackObject,
    pub after: String,
    pub command: Command,
}

/// The mathematical content of a [`Line`].
pub struct LineView {
    pub before: Seq<char>,
    pub value: crate::handler::Value,
    pub after: Seq<char>,
    pub command: Command,
}

impl View for Line {
    type V = LineView;

    open spec fn view(&self) -> LineView {
        LineView {
            before: self.before@,
            value: self.value@,
            after: self.after@,
            command: self.command,
        }
    }
}

/// The views of a sequence of lines, one by one.
pub open spec fn line_views(lines: Seq<Line>) -> Seq<LineView> {
    lines.map_values(|l: Line| l@)
}

/// What is to be done with the answer to a request.
#[derive(Debug)]
pub enum Pending {
    /// Put the number on the main stack.
    Push,
    /// Put both numbers on the main stack.
    PushPair,
    /// Put the number on the main stack, or report that `text` is no numeral.
    Parsed { text: String },
    /// Report a failure made of `parts` with the answered texts in between.
    Fail { parts: Vec<String> },
    /// Put the number on the main stack, or report that `base` has no
    /// inverse modulo `modulus`.
    Inverse { base: Number, modulus: Number },
    /// Put the text that the bytes spell on the main stack, or report that
    /// `number` spells none.
    Utf8 { number: Number },
    /// Print `lines` from index `at` on, of which the first is answered;
    /// `stage` says how far the digits of its value are worked out.
    Print { lines: Vec<Line>, at: usize, stage: crate::commands::notation::Stage },
    /// Put the notation of `number` on the main stack as a text; `stage`
    /// says how far its digits are worked out.
    Spell { number: Number, stage: crate::commands::notation::Stage },
    /// Read a number in any base, now that the base is known in decimal.
    AnyBase,
    /// Go on working out the value of the number in any base whose parts
    /// are `groups`.
    Accumulate {
        groups: crate::commands::object_input::Groups,
        state: crate::commands::accumulation::Accumulating,
    },
    /// Go on working out the value of the constant `wanted` with its
    /// affixes; `then` says what to do with it.
    Constant {
        wanted: Affixed,
        state: crate::commands::constants::Affixing,
        then: crate::commands::constants::Then,
    },
}

/// A request and what to do with its answer.
#[derive(Debug)]
pub struct Ask {
    pub request: Request,
    pub pending: Pending,
}

/// What running an opcode gave: reports, and a request where the opcode
/// needs an answer to finish.
#[derive(Debug)]
pub struct Outcome {
    pub output: Vec<Output>,
    pub ask: Option<Ask>,
}

impl Outcome {
    /// Nothing reported, nothing asked.
    pub open spec fn silent(&self) -> bool {
        self.output@.len() == 0 && self.ask is None
    }

    /// One failure that says `text`, nothing asked.
    pub open spec fn failed(&self, text: Seq<char>) -> bool {
        self.output@.len() == 1 && crate::handler::fails(self.output@[0], text) && self.ask is None
    }

    /// One success that says `text` with `command`, nothing asked.
    pub open spec fn said(&self, text: Seq<char>, command: Command) -> bool {
        self.output@.len() == 1 && crate::handler::says(self.output@[0], text, command)
            && self.ask is None
    }

    /// Nothing reported, and `operation` asked at `precision`, its answer to
    /// be handled as `pending` says.
    pub open spec fn asked(&self, precision: u32, operation: Operation, pending: Pending) -> bool {
        self.output@.len() == 0 && self.ask == Some(
            Ask { request: Request { precision, operation }, pending },
        )
    }

    /// The outcome of an opcode that reports nothing and asks nothing.
    pub fn nothing() -> (r: Self)
        ensures
            r.silent(),
    {
        Outcome { output: Vec::new(), ask: None }
    }

    /// The outcome of an opcode that fails.
    pub fn failure(text: String) -> (r: Self)
        ensures
            r.failed(text@),
    {
        let mut output: Vec<Output> = Vec::new();
        output.push(crate::handler::failure(text));
        Outcome { output, ask: None }
    }

    /// The outcome of an opcode that says something, with a signal.
    pub fn success(text: String, command: Command) -> (r: Self)
        ensures
            r.said(text@, command),
    {
        let mut output: Vec<Output> = Vec::new();
        output.push(crate::handler::success(text, command));
        Outcome { output, ask: None }
    }

    /// The outcome of an opcode that asks the service.
    pub fn request(precision: u32, operation: Operation, pending: Pending) -> (r: Self)
        ensures
            r.asked(precision, operation, pending),
    {
        Outcome {
            output: Vec::new(),
            ask: Some(Ask { request: Request { precision, operation }, pending }),
        }
    }
}

} // verus!
