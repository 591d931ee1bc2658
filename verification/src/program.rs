//! The block program: values, input tokens and instructions, together with
//! their mathematical views.
//!
//! Numbers are carried as the bit pattern of the IEEE-754 `f64` the editor
//! works with (`f64::to_bits`); nothing in this crate does arithmetic on them.
use vstd::prelude::*;

verus! {

/// The operator of a `Value::Op` reporter.
#[derive(Clone, Copy, Debug, PartialEq, Eq, Hash, Structural)]
pub enum Op {
    Add,
    Sub,
    Mul,
    Div,
    Mod,
    Random,
    Round,
    Eq,
    Lt,
    Gt,
    And,
    Or,
    Not,
    Join,
    LengthOf,
    LetterOf,
    ItemOfList,
    LengthOfList,
    ListContains,
    ClipboardText,
    ClipboardHasImage,
    ClipboardHasFiles,
}

impl Op {
    /// True for the logical operators whose operands sit in boolean
    /// (hexagon) slots.
    pub open spec fn spec_takes_bool_operands(self) -> bool {
        self == Op::And || self == Op::Or || self == Op::Not
    }

    #[verifier::when_used_as_spec(spec_takes_bool_operands)]
    pub fn takes_bool_operands(self) -> (r: bool)
        ensures
            r == self.spec_takes_bool_operands(),
    {
        match self {
            Op::And | Op::Or | Op::Not => true,
            _ => false,
        }
    }
}

/// An expression tree placed in an instruction's field.
#[derive(Debug)]
pub enum Value {
    /// A number literal, as the bit pattern of an `f64`.
    Number { bits: u64 },
    /// A text literal.
    Text { value: String },
    /// The blank boolean (hexagon) slot.
    Bool,
    /// Reads a macro-wide variable.
    Var { name: String },
    /// Reports the contents of a macro-wide list.
    List { name: String },
    /// Reads one input of the custom block whose body this value sits in.
    Param { name: String },
    /// An operator applied to its operands; `saved` is what the slot shows
    /// once the operator block is dragged out.
    Op { op: Op, args: Vec<Value>, saved: Box<Value> },
    /// A value-position call of a reporter-shaped custom block.
    Call { block_id: String, args: Vec<Value>, branches: Vec<Vec<Instruction>>, saved: Box<Value> },
}

/// Whether a mouse movement is absolute or relative.
#[derive(Clone, Copy, Debug, PartialEq, Eq, Hash, Structural)]
pub enum Coordinate {
    Abs,
    Rel,
}

/// One recorded or hand-placed input event.
#[derive(Debug)]
pub enum InputToken {
    KeyDown(String),
    KeyUp(String),
    MouseDown(String),
    MouseUp(String),
    Text(Value),
    MoveMouse(Value, Value, Coordinate),
    Scroll(Value),
}

/// A recurring point in local time for `WhenTime` strands.
#[derive(Clone, Copy, Debug, PartialEq, Eq, Hash, Structural)]
pub enum TimeSchedule {
    Daily { hour: u8, minute: u8 },
    Weekly { weekday: u8, hour: u8, minute: u8 },
}

/// The result of evaluating a value; numbers as `f64` bit patterns.
#[derive(Debug)]
pub enum Evaluated {
    Number(u64),
    Text(String),
    Bool(bool),
}

#[derive(Debug)]
pub enum InstructionKind {
    Token(InputToken),
    Wait(Value),
    Command(String),
    Comment(String),
    /// Marks a strand as an entry point run by Run/Loop.
    WhenRan,
    WhenBatteryDischargedTo(Value),
    WhenBatteryChargedTo(Value),
    WhenTime(TimeSchedule),
    WhenPowerPluggedIn,
    WhenPowerUnplugged,
    /// Marks a strand fired by the clipboard watcher whenever the clipboard
    /// contents change.
    WhenClipboardChanged,
    OpenApp { command: String, name: String, icon: Option<String> },
    CloseApp { command: String, name: String, icon: Option<String> },
    SetVariable(String, Value),
    ChangeVariable(String, Value),
    AddToList { value: Value, name: String },
    DeleteOfList { index: Value, name: String },
    DeleteAllOfList { name: String },
    ShiftList { name: String, amount: Value },
    InsertIntoList { value: Value, index: Value, name: String },
    ReplaceItemOfList { index: Value, name: String, value: Value },
    ReverseList { name: String },
    BlockHeader(String),
    CallBlock { block_id: String, args: Vec<Value>, branches: Vec<Vec<Instruction>> },
    RunBranch(String),
    Return(Value),
    If { condition: Value, body: Vec<Instruction> },
    IfElse { condition: Value, then_body: Vec<Instruction>, else_body: Vec<Instruction> },
    Repeat { count: Value, body: Vec<Instruction> },
    Forever { body: Vec<Instruction> },
    While { condition: Value, body: Vec<Instruction> },
    EscapeLoop,
    ContinueLoop,
}

/// An instruction with its stable identity; equality ignores `id`.
#[derive(Debug)]
pub struct Instruction {
    pub id: String,
    pub kind: InstructionKind,
}

// ---------------------------------------------------------------------
// Views
// ---------------------------------------------------------------------

pub ghost enum ValueV {
    Number(u64),
    Text(Seq<char>),
    Bool,
    Var(Seq<char>),
    List(Seq<char>),
    Param(Seq<char>),
    Op(Op, Seq<ValueV>, Box<ValueV>),
    Call(Seq<char>, Seq<ValueV>, Seq<Seq<InstructionV>>, Box<ValueV>),
}

pub ghost enum TokenV {
    KeyDown(Seq<char>),
    KeyUp(Seq<char>),
    MouseDown(Seq<char>),
    MouseUp(Seq<char>),
    Text(ValueV),
    MoveMouse(ValueV, ValueV, Coordinate),
    Scroll(ValueV),
}

pub ghost enum KindV {
    Token(TokenV),
    Wait(ValueV),
    Command(Seq<char>),
    Comment(Seq<char>),
    WhenRan,
    WhenBatteryDischargedTo(ValueV),
    WhenBatteryChargedTo(ValueV),
    WhenTime(TimeSchedule),
    WhenPowerPluggedIn,
    WhenPowerUnplugged,
    WhenClipboardChanged,
    OpenApp { command: Seq<char>, name: Seq<char>, icon: Option<Seq<char>> },
    CloseApp { command: Seq<char>, name: Seq<char>, icon: Option<Seq<char>> },
    SetVariable(Seq<char>, ValueV),
    ChangeVariable(Seq<char>, ValueV),
    AddToList { value: ValueV, name: Seq<char> },
    DeleteOfList { index: ValueV, name: Seq<char> },
    DeleteAllOfList { name: Seq<char> },
    ShiftList { name: Seq<char>, amount: ValueV },
    InsertIntoList { value: ValueV, index: ValueV, name: Seq<char> },
    ReplaceItemOfList { index: ValueV, name: Seq<char>, value: ValueV },
    ReverseList { name: Seq<char> },
    BlockHeader(Seq<char>),
    CallBlock { block_id: Seq<char>, args: Seq<ValueV>, branches: Seq<Seq<InstructionV>> },
    RunBranch(Seq<char>),
    Return(ValueV),
    If { condition: ValueV, body: Seq<InstructionV> },
    IfElse { condition: ValueV, then_body: Seq<InstructionV>, else_body: Seq<InstructionV> },
    Repeat { count: ValueV, body: Seq<InstructionV> },
    Forever { body: Seq<InstructionV> },
    While { condition: ValueV, body: Seq<InstructionV> },
    EscapeLoop,
    ContinueLoop,
}

pub ghost struct InstructionV {
    pub id: Seq<char>,
    pub kind: KindV,
}

pub open spec fn dummy_value() -> ValueV {
    ValueV::Bool
}

pub open spec fn dummy_instruction() -> InstructionV {
    InstructionV { id: Seq::empty(), kind: KindV::WhenRan }
}

pub open spec fn opt_str_view(o: Option<String>) -> Option<Seq<char>> {
    match o {
        Some(s) => Some(s@),
        None => None,
    }
}

pub open spec fn view_value(v: Value) -> ValueV
    decreases v,
{
    match v {
        Value::Number { bits } => ValueV::Number(bits),
        Value::Text { value } => ValueV::Text(value@),
        Value::Bool => ValueV::Bool,
        Value::Var { name } => ValueV::Var(name@),
        Value::List { name } => ValueV::List(name@),
        Value::Param { name } => ValueV::Param(name@),
        Value::Op { op, args, saved } => ValueV::Op(op, view_values(args@), Box::new(view_value(*saved))),
        Value::Call { block_id, args, branches, saved } => ValueV::Call(
            block_id@,
            view_values(args@),
            view_branches(branches@),
            Box::new(view_value(*saved)),
        ),
    }
}

pub open spec fn view_values(s: Seq<Value>) -> Seq<ValueV>
    decreases s,
{
    Seq::new(s.len(), |i: int| if 0 <= i < s.len() { view_value(s[i]) } else { dummy_value() })
}

pub open spec fn view_branches(s: Seq<Vec<Instruction>>) -> Seq<Seq<InstructionV>>
    decreases s,
{
    Seq::new(s.len(), |i: int| if 0 <= i < s.len() { view_instrs(s[i]@) } else { Seq::empty() })
}

pub open spec fn view_instrs(s: Seq<Instruction>) -> Seq<InstructionV>
    decreases s,
{
    Seq::new(s.len(), |i: int| if 0 <= i < s.len() { view_instr(s[i]) } else { dummy_instruction() })
}

pub open spec fn view_instr(i: Instruction) -> InstructionV
    decreases i,
{
    InstructionV { id: i.id@, kind: view_kind(i.kind) }
}

pub open spec fn view_token(t: InputToken) -> TokenV
    decreases t,
{
    match t {
        InputToken::KeyDown(s) => TokenV::KeyDown(s@),
        InputToken::KeyUp(s) => TokenV::KeyUp(s@),
        InputToken::MouseDown(s) => TokenV::MouseDown(s@),
        InputToken::MouseUp(s) => TokenV::MouseUp(s@),
        InputToken::Text(v) => TokenV::Text(view_value(v)),
        InputToken::MoveMouse(x, y, c) => TokenV::MoveMouse(view_value(x), view_value(y), c),
        InputToken::Scroll(v) => TokenV::Scroll(view_value(v)),
    }
}

pub open spec fn view_kind(k: InstructionKind) -> KindV
    decreases k,
{
    match k {
        InstructionKind::Token(t) => KindV::Token(view_token(t)),
        InstructionKind::Wait(v) => KindV::Wait(view_value(v)),
        InstructionKind::Command(s) => KindV::Command(s@),
        InstructionKind::Comment(s) => KindV::Comment(s@),
        InstructionKind::WhenRan => KindV::WhenRan,
        InstructionKind::WhenBatteryDischargedTo(v) => KindV::WhenBatteryDischargedTo(view_value(v)),
        InstructionKind::WhenBatteryChargedTo(v) => KindV::WhenBatteryChargedTo(view_value(v)),
        InstructionKind::WhenTime(s) => KindV::WhenTime(s),
        InstructionKind::WhenPowerPluggedIn => KindV::WhenPowerPluggedIn,
        InstructionKind::WhenPowerUnplugged => KindV::WhenPowerUnplugged,
        InstructionKind::WhenClipboardChanged => KindV::WhenClipboardChanged,
        InstructionKind::OpenApp { command, name, icon } => KindV::OpenApp {
            command: command@,
            name: name@,
            icon: opt_str_view(icon),
        },
        InstructionKind::CloseApp { command, name, icon } => KindV::CloseApp {
            command: command@,
            name: name@,
            icon: opt_str_view(icon),
        },
        InstructionKind::SetVariable(n, v) => KindV::SetVariable(n@, view_value(v)),
        InstructionKind::ChangeVariable(n, v) => KindV::ChangeVariable(n@, view_value(v)),
        InstructionKind::AddToList { value, name } => KindV::AddToList { value: view_value(value), name: name@ },
        InstructionKind::DeleteOfList { index, name } => KindV::DeleteOfList { index: view_value(index), name: name@ },
        InstructionKind::DeleteAllOfList { name } => KindV::DeleteAllOfList { name: name@ },
        InstructionKind::ShiftList { name, amount } => KindV::ShiftList { name: name@, amount: view_value(amount) },
        InstructionKind::InsertIntoList { value, index, name } => KindV::InsertIntoList {
            value: view_value(value),
            index: view_value(index),
            name: name@,
        },
        InstructionKind::ReplaceItemOfList { index, name, value } => KindV::ReplaceItemOfList {
            index: view_value(index),
            name: name@,
            value: view_value(value),
        },
        InstructionKind::ReverseList { name } => KindV::ReverseList { name: name@ },
        InstructionKind::BlockHeader(s) => KindV::BlockHeader(s@),
        InstructionKind::CallBlock { block_id, args, branches } => KindV::CallBlock {
            block_id: block_id@,
            args: view_values(args@),
            branches: view_branches(branches@),
        },
        InstructionKind::RunBranch(s) => KindV::RunBranch(s@),
        InstructionKind::Return(v) => KindV::Return(view_value(v)),
        InstructionKind::If { condition, body } => KindV::If { condition: view_value(condition), body: view_instrs(body@) },
        InstructionKind::IfElse { condition, then_body, else_body } => KindV::IfElse {
            condition: view_value(condition),
            then_body: view_instrs(then_body@),
            else_body: view_instrs(else_body@),
        },
        InstructionKind::Repeat { count, body } => KindV::Repeat { count: view_value(count), body: view_instrs(body@) },
        InstructionKind::Forever { body } => KindV::Forever { body: view_instrs(body@) },
        InstructionKind::While { condition, body } => KindV::While { condition: view_value(condition), body: view_instrs(body@) },
        InstructionKind::EscapeLoop => KindV::EscapeLoop,
        InstructionKind::ContinueLoop => KindV::ContinueLoop,
    }
}

impl View for Value {
    type V = ValueV;

    open spec fn view(&self) -> ValueV {
        view_value(*self)
    }
}

impl View for InputToken {
    type V = TokenV;

    open spec fn view(&self) -> TokenV {
        view_token(*self)
    }
}

impl View for InstructionKind {
    type V = KindV;

    open spec fn view(&self) -> KindV {
        view_kind(*self)
    }
}

impl View for Instruction {
    type V = InstructionV;

    open spec fn view(&self) -> InstructionV {
        view_instr(*self)
    }
}

pub broadcast proof fn lemma_view_values(s: Seq<Value>)
    ensures
        #[trigger] view_values(s).len() == s.len(),
        forall|i: int| 0 <= i < s.len() ==> view_values(s)[i] == view_value(#[trigger] s[i]),
{
}

pub broadcast proof fn lemma_view_branches(s: Seq<Vec<Instruction>>)
    ensures
        #[trigger] view_branches(s).len() == s.len(),
        forall|i: int| 0 <= i < s.len() ==> view_branches(s)[i] == view_instrs((#[trigger] s[i])@),
{
}

pub broadcast proof fn lemma_view_instrs(s: Seq<Instruction>)
    ensures
        #[trigger] view_instrs(s).len() == s.len(),
        forall|i: int| 0 <= i < s.len() ==> view_instrs(s)[i] == view_instr(#[trigger] s[i]),
{
}

pub broadcast proof fn lemma_view_branches_update(s: Seq<Vec<Instruction>>, i: int, b: Vec<Instruction>)
    requires
        0 <= i < s.len(),
    ensures
        #[trigger] view_branches(s.update(i, b)) == view_branches(s).update(i, view_instrs(b@)),
{
    assert(view_branches(s.update(i, b)) =~= view_branches(s).update(i, view_instrs(b@)));
}

pub broadcast proof fn lemma_view_values_update(s: Seq<Value>, i: int, x: Value)
    requires
        0 <= i < s.len(),
    ensures
        #[trigger] view_values(s.update(i, x)) == view_values(s).update(i, view_value(x)),
{
    assert(view_values(s.update(i, x)) =~= view_values(s).update(i, view_value(x)));
}

pub broadcast proof fn lemma_view_instrs_update(s: Seq<Instruction>, i: int, x: Instruction)
    requires
        0 <= i < s.len(),
    ensures
        #[trigger] view_instrs(s.update(i, x)) == view_instrs(s).update(i, view_instr(x)),
{
    assert(view_instrs(s.update(i, x)) =~= view_instrs(s).update(i, view_instr(x)));
}

pub broadcast group group_program_views {
    lemma_view_values,
    lemma_view_branches,
    lemma_view_instrs,
    lemma_view_branches_update,
    lemma_view_values_update,
    lemma_view_instrs_update,
}

} // verus!
