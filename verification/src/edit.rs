//! What the whole-tree edits of a block program do: renaming variables,
//! lists and block inputs, repairing boolean slots, realigning call-site
//! arguments and scrubbing calls of a deleted block.
//!
//! Each edit visits the same positions: every value field of every
//! instruction, every operand,
//! argument and saved placeholder of a value, and every nested body and
//! call branch. `rw_kind` and its companions state what each edit does
//! at each of them.
use vstd::prelude::*;
use crate::blocks::InputValueType;
use crate::program::{dummy_instruction, dummy_value, InstructionV, KindV, TokenV, ValueV};

verus! {


/// Where one argument of a rebuilt call site comes from: the old argument
/// at `source`, or a blank of `value_type` when there is none.
#[derive(Clone, Copy, Debug)]
pub struct ArgSlot {
    pub source: Option<usize>,
    pub value_type: InputValueType,
}

/// One edit applied throughout a program tree.
pub ghost enum Edit {
    RenameVar(Seq<char>, Seq<char>),
    RenameList(Seq<char>, Seq<char>),
    RenameParam(Seq<char>, Seq<char>),
    ScrubCalls(Seq<char>),
    MigrateBools,
    RebuildArgs(Seq<char>, Seq<ArgSlot>),
}

/// The blank a fresh argument of an input of type `t` gets.
pub open spec fn blank_value(t: InputValueType) -> ValueV {
    match t {
        InputValueType::Any => ValueV::Number(0),
        InputValueType::Bool => ValueV::Bool,
    }
}

/// Call-site arguments realigned to `plan`.
pub open spec fn rebuilt_args(args: Seq<ValueV>, plan: Seq<ArgSlot>) -> Seq<ValueV> {
    Seq::new(
        plan.len(),
        |k: int|
            match plan[k].source {
                Some(i) => if i < args.len() { args[i as int] } else { blank_value(plan[k].value_type) },
                None => blank_value(plan[k].value_type),
            },
    )
}

pub open spec fn var_name(n: Seq<char>, e: Edit) -> Seq<char> {
    match e {
        Edit::RenameVar(from, to) => if n == from { to } else { n },
        _ => n,
    }
}

pub open spec fn list_name(n: Seq<char>, e: Edit) -> Seq<char> {
    match e {
        Edit::RenameList(from, to) => if n == from { to } else { n },
        _ => n,
    }
}

pub open spec fn param_name(n: Seq<char>, e: Edit) -> Seq<char> {
    match e {
        Edit::RenameParam(from, to) => if n == from { to } else { n },
        _ => n,
    }
}

/// Whether `e` rebuilds the arguments of calls of `id`; if so, the plan.
pub open spec fn rebuild_plan(e: Edit, id: Seq<char>) -> Option<Seq<ArgSlot>> {
    match e {
        Edit::RebuildArgs(target, plan) => if target == id { Some(plan) } else { None },
        _ => None,
    }
}

/// Call-site arguments `args` (already edited) of a call of `id`,
/// realigned when `e` rebuilds the calls of `id`.
pub open spec fn realigned(args: Seq<ValueV>, id: Seq<char>, e: Edit) -> Seq<ValueV> {
    match rebuild_plan(e, id) {
        Some(plan) => rebuilt_args(args, plan),
        None => args,
    }
}

/// The value `v` after the edit `e`; `in_bool` tells whether `v` sits in a
/// boolean (hexagon) slot.
pub open spec fn rw_value(v: ValueV, e: Edit, in_bool: bool) -> ValueV
    decreases v,
{
    match v {
        ValueV::Number(b) => if e == Edit::MigrateBools && in_bool { ValueV::Bool } else { ValueV::Number(b) },
        ValueV::Text(t) => ValueV::Text(t),
        ValueV::Bool => ValueV::Bool,
        ValueV::Var(n) => ValueV::Var(var_name(n, e)),
        ValueV::List(n) => ValueV::List(list_name(n, e)),
        ValueV::Param(n) => ValueV::Param(param_name(n, e)),
        ValueV::Op(op, args, saved) => ValueV::Op(
            op,
            rw_values(args, e, op.spec_takes_bool_operands()),
            Box::new(rw_value(*saved, e, in_bool)),
        ),
        ValueV::Call(id, args, branches, saved) => if e == Edit::ScrubCalls(id) {
            ValueV::Number(0)
        } else {
            ValueV::Call(
                id,
                realigned(rw_values(args, e, false), id, e),
                rw_branches(branches, e),
                Box::new(rw_value(*saved, e, in_bool)),
            )
        },
    }
}

pub open spec fn rw_values(s: Seq<ValueV>, e: Edit, in_bool: bool) -> Seq<ValueV>
    decreases s,
{
    Seq::new(s.len(), |i: int| if 0 <= i < s.len() { rw_value(s[i], e, in_bool) } else { dummy_value() })
}

pub open spec fn rw_branches(s: Seq<Seq<InstructionV>>, e: Edit) -> Seq<Seq<InstructionV>>
    decreases s,
{
    Seq::new(s.len(), |i: int| if 0 <= i < s.len() { rw_instrs(s[i], e) } else { Seq::empty() })
}

pub open spec fn rw_instrs(s: Seq<InstructionV>, e: Edit) -> Seq<InstructionV>
    decreases s,
{
    Seq::new(s.len(), |i: int| if 0 <= i < s.len() { rw_instr(s[i], e) } else { dummy_instruction() })
}

pub open spec fn rw_instr(i: InstructionV, e: Edit) -> InstructionV
    decreases i,
{
    InstructionV { id: i.id, kind: rw_kind(i.kind, e) }
}

pub open spec fn rw_token(t: TokenV, e: Edit) -> TokenV
    decreases t,
{
    match t {
        TokenV::Text(v) => TokenV::Text(rw_value(v, e, false)),
        TokenV::MoveMouse(x, y, c) => TokenV::MoveMouse(rw_value(x, e, false), rw_value(y, e, false), c),
        TokenV::Scroll(v) => TokenV::Scroll(rw_value(v, e, false)),
        _ => t,
    }
}

/// The instruction kind `k` after the edit `e`.
pub open spec fn rw_kind(k: KindV, e: Edit) -> KindV
    decreases k,
{
    match k {
        KindV::Token(t) => KindV::Token(rw_token(t, e)),
        KindV::Wait(v) => KindV::Wait(rw_value(v, e, false)),
        KindV::WhenBatteryDischargedTo(v) => KindV::WhenBatteryDischargedTo(rw_value(v, e, false)),
        KindV::WhenBatteryChargedTo(v) => KindV::WhenBatteryChargedTo(rw_value(v, e, false)),
        KindV::Return(v) => KindV::Return(rw_value(v, e, false)),
        KindV::SetVariable(n, v) => KindV::SetVariable(var_name(n, e), rw_value(v, e, false)),
        KindV::ChangeVariable(n, v) => KindV::ChangeVariable(var_name(n, e), rw_value(v, e, false)),
        KindV::AddToList { value, name } => KindV::AddToList { value: rw_value(value, e, false), name: list_name(name, e) },
        KindV::InsertIntoList { value, index, name } => KindV::InsertIntoList {
            value: rw_value(value, e, false),
            index: rw_value(index, e, false),
            name: list_name(name, e),
        },
        KindV::DeleteOfList { index, name } => KindV::DeleteOfList { index: rw_value(index, e, false), name: list_name(name, e) },
        KindV::ShiftList { name, amount } => KindV::ShiftList { name: list_name(name, e), amount: rw_value(amount, e, false) },
        KindV::ReplaceItemOfList { index, name, value } => KindV::ReplaceItemOfList {
            index: rw_value(index, e, false),
            name: list_name(name, e),
            value: rw_value(value, e, false),
        },
        KindV::DeleteAllOfList { name } => KindV::DeleteAllOfList { name: list_name(name, e) },
        KindV::ReverseList { name } => KindV::ReverseList { name: list_name(name, e) },
        KindV::CallBlock { block_id, args, branches } => KindV::CallBlock {
            block_id: block_id,
            args: realigned(rw_values(args, e, false), block_id, e),
            branches: rw_branches(branches, e),
        },
        KindV::If { condition, body } => KindV::If { condition: rw_value(condition, e, true), body: rw_instrs(body, e) },
        KindV::IfElse { condition, then_body, else_body } => KindV::IfElse {
            condition: rw_value(condition, e, true),
            then_body: rw_instrs(then_body, e),
            else_body: rw_instrs(else_body, e),
        },
        KindV::Repeat { count, body } => KindV::Repeat { count: rw_value(count, e, false), body: rw_instrs(body, e) },
        KindV::Forever { body } => KindV::Forever { body: rw_instrs(body, e) },
        KindV::While { condition, body } => KindV::While { condition: rw_value(condition, e, true), body: rw_instrs(body, e) },
        _ => k,
    }
}

pub broadcast proof fn lemma_rw_values(s: Seq<ValueV>, e: Edit, b: bool)
    ensures
        #[trigger] rw_values(s, e, b).len() == s.len(),
        forall|i: int| 0 <= i < s.len() ==> rw_values(s, e, b)[i] == rw_value(#[trigger] s[i], e, b),
{
}

pub broadcast proof fn lemma_rw_branches(s: Seq<Seq<InstructionV>>, e: Edit)
    ensures
        #[trigger] rw_branches(s, e).len() == s.len(),
        forall|i: int| 0 <= i < s.len() ==> rw_branches(s, e)[i] == rw_instrs(#[trigger] s[i], e),
{
}

pub broadcast proof fn lemma_rw_instrs(s: Seq<InstructionV>, e: Edit)
    ensures
        #[trigger] rw_instrs(s, e).len() == s.len(),
        forall|i: int| 0 <= i < s.len() ==> rw_instrs(s, e)[i] == rw_instr(#[trigger] s[i], e),
{
}

pub broadcast group group_rewrite {
    lemma_rw_values,
    lemma_rw_branches,
    lemma_rw_instrs,
}



} // verus!
