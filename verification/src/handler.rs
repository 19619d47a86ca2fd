use crate::number::{Number, NumberView};
use vstd::prelude::*;

verus! {

/// How many registers a session has.
pub const REGISTER_COUNT: usize = 65536;

/// A value on a stack: a number or a text.
#[derive(Debug)]
pub enum StackObject {
    Float(Number),
    String(String),
}

/// The mathematical content of a [`StackObject`].
pub enum Value {
    Float(NumberView),
    String(Seq<char>),
}

impl View for StackObject {
    type V = Value;

    open spec fn view(&self) -> Value {
        match self {
            StackObject::Float(n) => Value::Float(n@),
            StackObject::String(s) => Value::String(s@),
        }
    }
}

impl Clone for StackObject {
    fn clone(&self) -> (r: Self)
        ensures
            r@ == self@,
    {
        match self {
            StackObject::Float(n) => StackObject::Float(n.clone()),
            StackObject::String(s) => StackObject::String(s.clone()),
        }
    }
}

impl StackObject {
    /// Whether both are numbers or both are texts.
    pub fn is_equal_type(&self, other: &Self) -> (r: bool)
        ensures
            r == ((*self is Float) == (*other is Float)),
    {
        match (self, other) {
            (StackObject::Float(_), StackObject::Float(_)) => true,
            (StackObject::String(_), StackObject::String(_)) => true,
            _ => false,
        }
    }

    /// Whether this is a number.
    pub fn is_float(&self) -> (r: bool)
        ensures
            r == (*self is Float),
    {
        match self {
            StackObject::Float(_) => true,
            _ => false,
        }
    }

    /// Whether this is a text.
    pub fn is_string(&self) -> (r: bool)
        ensures
            r == (*self is String),
    {
        match self {
            StackObject::String(_) => true,
            _ => false,
        }
    }

    /// The number that this value is.
    pub fn get_float(&self) -> (r: &Number)
        requires
            *self is Float,
        ensures
            *self == StackObject::Float(*r),
    {
        match self {
            StackObject::Float(f) => f,
            _ => vstd::pervasive::unreached(),
        }
    }

    /// The text that this value is.
    pub fn get_string(&self) -> (r: &String)
        requires
            *self is String,
        ensures
            *self == StackObject::String(*r),
    {
        match self {
            StackObject::String(s) => s,
            _ => vstd::pervasive::unreached(),
        }
    }
}

/// The views of a sequence of values, one by one.
pub open spec fn values(s: Seq<StackObject>) -> Seq<Value> {
    s.map_values(|o: StackObject| o@)
}

/// Viewing commutes with adding a value at the end.
pub proof fn lemma_values_push(s: Seq<StackObject>, x: StackObject)
    ensures
        values(s.push(x)) == values(s).push(x@),
{
    assert(values(s.push(x)) =~= values(s).push(x@));
}

/// Clones the values from index `from` on.
pub fn clone_values(source: &Vec<StackObject>, from: usize) -> (r: Vec<StackObject>)
    requires
        from <= source@.len(),
    ensures
        r@.len() == source@.len() - from,
        values(r@) == values(source@.skip(from as int)),
{
    let mut r: Vec<StackObject> = Vec::new();
    let mut i: usize = from;
    while i < source.len()
        invariant
            from <= i <= source@.len(),
            r@.len() == i - from,
            values(r@) == values(source@.subrange(from as int, i as int)),
        decreases source@.len() - i,
    {
        let ghost before = r@;
        let c = source[i].clone();
        r.push(c);
        proof {
            lemma_values_push(before, c);
            lemma_values_push(source@.subrange(from as int, i as int), source@[i as int]);
            assert(source@.subrange(from as int, i + 1) =~= source@.subrange(
                from as int,
                i as int,
            ).push(source@[i as int]));
        }
        i = i + 1;
    }
    assert(source@.subrange(from as int, i as int) =~= source@.skip(from as int));
    r
}

/// One entry of a register: a value and the array that goes with it.
#[derive(Debug)]
pub struct RegisterObject {
    pub primary: StackObject,
    pub array: Vec<StackObject>,
}

/// The mathematical content of a [`RegisterObject`].
pub struct EntryView {
    pub primary: Value,
    pub array: Seq<Value>,
}

impl View for RegisterObject {
    type V = EntryView;

    open spec fn view(&self) -> EntryView {
        EntryView { primary: self.primary@, array: values(self.array@) }
    }
}

impl Clone for RegisterObject {
    fn clone(&self) -> (r: Self)
        ensures
            r@ == self@,
    {
        let array = clone_values(&self.array, 0);
        assert(self.array@.skip(0) =~= self.array@);
        RegisterObject { primary: self.primary.clone(), array }
    }
}

impl RegisterObject {
    /// An entry that holds `primary` and an empty array.
    pub fn new(primary: StackObject) -> (r: Self)
        ensures
            r.primary == primary,
            r.array@.len() == 0,
    {
        RegisterObject { primary, array: Vec::new() }
    }
}

/// A register: its entries, the newest last.
pub type Register = Vec<RegisterObject>;

/// A signal to whoever runs the session.
#[derive(Clone, Copy, Debug, PartialEq, Eq, Structural)]
pub enum Command {
    Exit(i32),
    Restart,
    Interactive,
    NoNewLine,
    NoOp,
}

/// What the session is asked to run.
pub enum Input<'a> {
    Interactive(&'a str),
    Expression(Vec<&'a str>),
    File(Vec<&'a str>),
}

/// What an opcode reports: a message with signals, or a failure.
pub type Output = Result<(Option<String>, Vec<Command>), String>;

/// `o` is a success that says `text` and carries the one signal `command`.
pub open spec fn says(o: Output, text: Seq<char>, command: Command) -> bool {
    match o {
        Ok((Some(m), cs)) => m@ == text && cs@ == seq![command],
        _ => false,
    }
}

/// `o` is a failure that says `text`.
pub open spec fn fails(o: Output, text: Seq<char>) -> bool {
    match o {
        Err(m) => m@ == text,
        _ => false,
    }
}

/// A success with a message and one signal.
pub fn success(text: String, command: Command) -> (r: Output)
    ensures
        says(r, text@, command),
{
    let mut commands: Vec<Command> = Vec::new();
    commands.push(command);
    assert(commands@ =~= seq![command]);
    Ok((Some(text), commands))
}

/// A failure with a message.
pub fn failure(text: String) -> (r: Output)
    ensures
        fails(r, text@),
{
    Err(text)
}

/// One environment context: output precision, input base, output base.
#[derive(Debug)]
pub struct Context {
    pub output_precision: Number,
    pub input_base: Number,
    pub output_base: Number,
}

impl Context {
    /// The parameters are in range: a precision of at least -1 and bases of at
    /// least 2.
    pub open spec fn wf(&self) -> bool {
        &&& self.output_precision@.integer() >= -1
        &&& self.input_base@.integer() >= 2
        &&& self.output_base@.integer() >= 2
    }

    /// The context that a session starts with and falls back to: every
    /// digit printed, base ten in and out.
    pub open spec fn is_default(&self) -> bool {
        &&& self.output_precision@.integer() == -1
        &&& self.input_base@.integer() == 10
        &&& self.output_base@.integer() == 10
    }

    /// The context that a session starts with.
    pub fn new() -> (r: Self)
        ensures
            r.wf(),
            r.is_default(),
    {
        Context {
            output_precision: Number::minus_one(64),
            input_base: Number::ten(64),
            output_base: Number::ten(64),
        }
    }
}

/// The state of one session.
#[derive(Debug)]
pub struct Handler {
    pub main_stack: Vec<StackObject>,
    pub registers: Vec<Register>,
    pub register_buffer: RegisterObject,
    pub direct_register_selector: Option<usize>,
    pub parameter_stack: Vec<Context>,
    pub working_precision: u32,
}

impl Handler {
    /// There are 65536 registers, a pending selector names one of them,
    /// there is at least one context, every context is in range, and the
    /// working precision is at least one bit.
    pub open spec fn wf(&self) -> bool {
        &&& self.registers@.len() == REGISTER_COUNT
        &&& self.direct_register_selector matches Some(i) ==> i < REGISTER_COUNT
        &&& self.parameter_stack@.len() >= 1
        &&& forall|i: int|
            0 <= i < self.parameter_stack@.len() ==> (#[trigger] self.parameter_stack@[i]).wf()
        &&& self.working_precision >= 1
    }

    /// The context in force.
    pub open spec fn context(&self) -> Context
        recommends
            self.parameter_stack@.len() >= 1,
    {
        self.parameter_stack@.last()
    }

    /// The state that a session starts in: nothing on the main stack or in
    /// any register, zero in the buffer, no pending selector, and the one
    /// context that prints every digit and reads and writes in base ten.
    pub open spec fn is_fresh(&self, working_precision: u32) -> bool {
        &&& self.wf()
        &&& self.working_precision == working_precision
        &&& self.main_stack@.len() == 0
        &&& forall|i: int|
            0 <= i < REGISTER_COUNT ==> (#[trigger] self.registers@[i])@.len() == 0
        &&& self.direct_register_selector is None
        &&& self.parameter_stack@.len() == 1
        &&& self.parameter_stack@[0].is_default()
        &&& self.register_buffer@ == (EntryView {
            primary: Value::Float(crate::number::zero_view(working_precision as nat)),
            array: Seq::empty(),
        })
    }

    /// A fresh session that computes with `working_precision` bits.
    pub fn new(working_precision: u32) -> (r: Self)
        requires
            working_precision >= 1,
        ensures
            r.is_fresh(working_precision),
    {
        let mut registers: Vec<Register> = Vec::new();
        let mut i: usize = 0;
        while i < REGISTER_COUNT
            invariant
                i <= REGISTER_COUNT,
                registers@.len() == i,
                forall|j: int| 0 <= j < i ==> (#[trigger] registers@[j])@.len() == 0,
            decreases REGISTER_COUNT - i,
        {
            registers.push(Vec::new());
            i = i + 1;
        }
        let mut parameter_stack: Vec<Context> = Vec::new();
        parameter_stack.push(Context::new());
        let register_buffer = RegisterObject::new(
            StackObject::Float(Number::zero(working_precision)),
        );
        assert(values(register_buffer.array@) =~= Seq::empty());
        Handler {
            main_stack: Vec::new(),
            registers,
            register_buffer,
            direct_register_selector: None,
            parameter_stack,
            working_precision,
        }
    }
}

impl Default for Handler {
    /// A fresh session that computes with 256 bits.
    fn default() -> (r: Self)
        ensures
            r.is_fresh(256),
    {
        Handler::new(256)
    }
}

/// The mathematical content of a [`Context`].
pub struct ContextView {
    pub output_precision: NumberView,
    pub input_base: NumberView,
    pub output_base: NumberView,
}

impl View for Context {
    type V = ContextView;

    open spec fn view(&self) -> ContextView {
        ContextView {
            output_precision: self.output_precision@,
            input_base: self.input_base@,
            output_base: self.output_base@,
        }
    }
}

impl Clone for Context {
    fn clone(&self) -> (r: Self)
        ensures
            r@ == self@,
    {
        Context {
            output_precision: self.output_precision.clone(),
            input_base: self.input_base.clone(),
            output_base: self.output_base.clone(),
        }
    }
}

/// The views of the entries of a register, one by one.
pub open spec fn entry_views(s: Seq<RegisterObject>) -> Seq<EntryView> {
    s.map_values(|e: RegisterObject| e@)
}

/// The views of a sequence of contexts, one by one.
pub open spec fn context_views(s: Seq<Context>) -> Seq<ContextView> {
    s.map_values(|c: Context| c@)
}

/// Copies a register.
pub fn clone_register(register: &Register) -> (r: Register)
    ensures
        entry_views(r@) == entry_views(register@),
{
    let mut r: Register = Vec::new();
    let mut i: usize = 0;
    while i < register.len()
        invariant
            i <= register@.len(),
            r@.len() == i,
            forall|k: int| 0 <= k < i ==> (#[trigger] r@[k])@ == register@[k]@,
        decreases register@.len() - i,
    {
        r.push(register[i].clone());
        i = i + 1;
    }
    assert(entry_views(r@) =~= entry_views(register@));
    r
}

/// Two sessions are in the same state.
pub open spec fn same_state(a: Handler, b: Handler) -> bool {
    &&& values(a.main_stack@) == values(b.main_stack@)
    &&& a.registers@.len() == b.registers@.len()
    &&& forall|i: int|
        0 <= i < a.registers@.len() ==> entry_views(#[trigger] a.registers@[i]@) == entry_views(
            b.registers@[i]@,
        )
    &&& a.register_buffer@ == b.register_buffer@
    &&& a.direct_register_selector == b.direct_register_selector
    &&& context_views(a.parameter_stack@) == context_views(b.parameter_stack@)
    &&& a.working_precision == b.working_precision
}

impl Clone for Handler {
    /// A session in the same state, which shares nothing with this one.
    fn clone(&self) -> (r: Self)
        ensures
            same_state(r, *self),
            self.wf() ==> r.wf(),
    {
        let main_stack = clone_values(&self.main_stack, 0);
        assert(self.main_stack@.skip(0) =~= self.main_stack@);
        let mut registers: Vec<Register> = Vec::new();
        let mut i: usize = 0;
        while i < self.registers.len()
            invariant
                i <= self.registers@.len(),
                registers@.len() == i,
                forall|k: int|
                    0 <= k < i ==> entry_views(#[trigger] registers@[k]@) == entry_views(
                        self.registers@[k]@,
                    ),
            decreases self.registers@.len() - i,
        {
            registers.push(clone_register(&self.registers[i]));
            i = i + 1;
        }
        let mut parameter_stack: Vec<Context> = Vec::new();
        let mut j: usize = 0;
        while j < self.parameter_stack.len()
            invariant
                j <= self.parameter_stack@.len(),
                parameter_stack@.len() == j,
                forall|k: int| 0 <= k < j ==> (#[trigger] parameter_stack@[k])@
                    == self.parameter_stack@[k]@,
            decreases self.parameter_stack@.len() - j,
        {
            parameter_stack.push(self.parameter_stack[j].clone());
            j = j + 1;
        }
        assert(context_views(parameter_stack@) =~= context_views(self.parameter_stack@));
        let r = Handler {
            main_stack,
            registers,
            register_buffer: self.register_buffer.clone(),
            direct_register_selector: self.direct_register_selector,
            parameter_stack,
            working_precision: self.working_precision,
        };
        assert(self.wf() ==> r.wf()) by {
            if self.wf() {
                assert forall|k: int| 0 <= k < r.parameter_stack@.len() implies (
                #[trigger] r.parameter_stack@[k]).wf() by {
                    assert(r.parameter_stack@[k]@ == self.parameter_stack@[k]@);
                    assert(self.parameter_stack@[k].wf());
                }
            }
        }
        r
    }
}

} // verus!
