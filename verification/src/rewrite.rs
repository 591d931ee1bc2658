//! The executable whole-tree edits; `crate::edit` states what they do.
use vstd::prelude::*;
use crate::edit::{
    blank_value, group_rewrite, list_name, param_name, rebuild_plan, rebuilt_args, rw_branches,
    realigned, rw_instr, rw_instrs, rw_kind, rw_token, rw_value, rw_values, var_name, ArgSlot, Edit,
};
use crate::blocks::InputValueType;
use crate::program::{
    group_program_views, view_branches, view_instr, view_instrs, view_value, view_values,
    InputToken, Instruction, InstructionKind, Value,
};

verus! {

broadcast use {group_program_views, group_rewrite};

/// The executable form of an `Edit`.
pub enum Rewrite {
    RenameVar { from: String, to: String },
    RenameList { from: String, to: String },
    RenameParam { from: String, to: String },
    ScrubCalls { block_id: String },
    MigrateBools,
    RebuildArgs { block_id: String, plan: Vec<ArgSlot> },
}

impl View for Rewrite {
    type V = Edit;

    open spec fn view(&self) -> Edit {
        match self {
            Rewrite::RenameVar { from, to } => Edit::RenameVar(from@, to@),
            Rewrite::RenameList { from, to } => Edit::RenameList(from@, to@),
            Rewrite::RenameParam { from, to } => Edit::RenameParam(from@, to@),
            Rewrite::ScrubCalls { block_id } => Edit::ScrubCalls(block_id@),
            Rewrite::MigrateBools => Edit::MigrateBools,
            Rewrite::RebuildArgs { block_id, plan } => Edit::RebuildArgs(block_id@, plan@),
        }
    }
}

fn rename_in(name: &mut String, from: &String, to: &String)
    ensures
        final(name)@ == (if old(name)@ == from@ { to@ } else { old(name)@ }),
{
    if *name == *from {
        *name = to.clone();
    }
}

fn rename_var_name(name: &mut String, r: &Rewrite)
    ensures
        final(name)@ == var_name(old(name)@, r@),
{
    match r {
        Rewrite::RenameVar { from, to } => rename_in(name, from, to),
        _ => {},
    }
}

fn rename_list_name(name: &mut String, r: &Rewrite)
    ensures
        final(name)@ == list_name(old(name)@, r@),
{
    match r {
        Rewrite::RenameList { from, to } => rename_in(name, from, to),
        _ => {},
    }
}

fn rename_param_name(name: &mut String, r: &Rewrite)
    ensures
        final(name)@ == param_name(old(name)@, r@),
{
    match r {
        Rewrite::RenameParam { from, to } => rename_in(name, from, to),
        _ => {},
    }
}

fn blank(t: InputValueType) -> (v: Value)
    ensures
        v@ == blank_value(t),
{
    match t {
        InputValueType::Any => Value::Number { bits: 0 },
        InputValueType::Bool => Value::Bool,
    }
}

/// The arguments of a call site realigned to `plan`, copying the old
/// argument each slot carries over.
fn rebuild(args: &Vec<Value>, plan: &Vec<ArgSlot>) -> (r: Vec<Value>)
    ensures
        view_values(r@) == rebuilt_args(view_values(args@), plan@),
{
    let mut out: Vec<Value> = Vec::new();
    let mut k: usize = 0;
    while k < plan.len()
        invariant
            k <= plan@.len(),
            out@.len() == k,
            forall|j: int| 0 <= j < k ==> #[trigger] view_value(out@[j]) == rebuilt_args(view_values(args@), plan@)[j],
        decreases plan.len() - k,
    {
        let slot = plan[k];
        let v = match slot.source {
            Some(i) => if i < args.len() {
                args[i].duplicate()
            } else {
                blank(slot.value_type)
            },
            None => blank(slot.value_type),
        };
        out.push(v);
        k = k + 1;
    }
    assert(view_values(out@) =~= rebuilt_args(view_values(args@), plan@));
    out
}

/// Whether `r` rebuilds the arguments of calls of `id`.
fn plan_for<'a>(r: &'a Rewrite, id: &String) -> (p: Option<&'a Vec<ArgSlot>>)
    ensures
        p matches Some(plan) ==> rebuild_plan(r@, id@) == Some(plan@),
        p is None ==> rebuild_plan(r@, id@) is None,
{
    match r {
        Rewrite::RebuildArgs { block_id, plan } => if *block_id == *id {
            Some(plan)
        } else {
            None
        },
        _ => None,
    }
}

/// Applies `r` to the arguments of a call of `id`.
fn rewrite_call_args(args: &mut Vec<Value>, id: &String, r: &Rewrite)
    ensures
        view_values(final(args)@) == realigned(rw_values(view_values(old(args)@), r@, false), id@, r@),
    decreases *old(args), 1nat,
{
    rewrite_values(args, r, false);
    match plan_for(r, id) {
        Some(plan) => {
            let fresh = rebuild(args, plan);
            *args = fresh;
        },
        None => {},
    }
}

impl Value {
    /// Applies `r` throughout this value.
    pub(crate) fn rewrite(&mut self, r: &Rewrite, in_bool: bool)
        ensures
            final(self)@ == rw_value(old(self)@, r@, in_bool),
        decreases *old(self), 0nat,
    {
        let to_bool = match r {
            Rewrite::MigrateBools => in_bool,
            _ => false,
        };
        let replace = match &*self {
            Value::Number { .. } => to_bool,
            Value::Call { block_id, .. } => match r {
                Rewrite::ScrubCalls { block_id: target } => *block_id == *target,
                _ => false,
            },
            _ => false,
        };
        if replace {
            match &*self {
                Value::Number { .. } => {
                    *self = Value::Bool;
                },
                _ => {
                    *self = Value::Number { bits: 0 };
                },
            }
            return;
        }
        match self {
            Value::Number { .. } => {},
            Value::Text { .. } => {},
            Value::Bool => {},
            Value::Var { name } => rename_var_name(name, r),
            Value::List { name } => rename_list_name(name, r),
            Value::Param { name } => rename_param_name(name, r),
            Value::Op { op, args, saved } => {
                let b = op.takes_bool_operands();
                rewrite_values(args, r, b);
                saved.rewrite(r, in_bool);
            },
            Value::Call { block_id, args, branches, saved } => {
                rewrite_call_args(args, block_id, r);
                rewrite_branches(branches, r);
                saved.rewrite(r, in_bool);
            },
        }
    }
}

fn rewrite_values(vs: &mut Vec<Value>, r: &Rewrite, in_bool: bool)
    ensures
        view_values(final(vs)@) == rw_values(view_values(old(vs)@), r@, in_bool),
    decreases *old(vs), 0nat,
{
    let ghost v0 = vs@;
    let mut i: usize = 0;
    while i < vs.len()
        invariant
            vs@.len() == v0.len(),
            v0 == old(vs)@,
            i <= vs@.len(),
            forall|j: int| 0 <= j < i ==> #[trigger] view_value(vs@[j]) == rw_value(view_value(v0[j]), r@, in_bool),
            forall|j: int| i <= j < vs@.len() ==> #[trigger] vs@[j] == v0[j],
        decreases vs.len() - i,
    {
        proof {
            assert(decreases_to!(*old(vs) => old(vs)@));
            assert(decreases_to!(old(vs)@ => v0[i as int]));
        }
        vs[i].rewrite(r, in_bool);
        i = i + 1;
    }
    assert(view_values(vs@) =~= rw_values(view_values(v0), r@, in_bool));
}

fn rewrite_branches(bs: &mut Vec<Vec<Instruction>>, r: &Rewrite)
    ensures
        view_branches(final(bs)@) == rw_branches(view_branches(old(bs)@), r@),
    decreases *old(bs), 0nat,
{
    let ghost v0 = bs@;
    let mut i: usize = 0;
    while i < bs.len()
        invariant
            bs@.len() == v0.len(),
            v0 == old(bs)@,
            i <= bs@.len(),
            forall|k: int| 0 <= k < i ==> #[trigger] view_instrs(bs@[k]@) == rw_instrs(view_instrs(v0[k]@), r@),
            forall|k: int| i <= k < bs@.len() ==> #[trigger] bs@[k] == v0[k],
        decreases bs.len() - i,
    {
        proof {
            assert(decreases_to!(*old(bs) => old(bs)@));
            assert(decreases_to!(old(bs)@ => v0[i as int]));
        }
        rewrite_instrs(&mut bs[i], r);
        i = i + 1;
    }
    assert(view_branches(bs@) =~= rw_branches(view_branches(v0), r@));
}

pub(crate) fn rewrite_instrs(vs: &mut Vec<Instruction>, r: &Rewrite)
    ensures
        view_instrs(final(vs)@) == rw_instrs(view_instrs(old(vs)@), r@),
    decreases *old(vs), 0nat,
{
    let ghost v0 = vs@;
    let mut i: usize = 0;
    while i < vs.len()
        invariant
            vs@.len() == v0.len(),
            v0 == old(vs)@,
            i <= vs@.len(),
            forall|j: int| 0 <= j < i ==> #[trigger] view_instr(vs@[j]) == rw_instr(view_instr(v0[j]), r@),
            forall|j: int| i <= j < vs@.len() ==> #[trigger] vs@[j] == v0[j],
        decreases vs.len() - i,
    {
        proof {
            assert(decreases_to!(*old(vs) => old(vs)@));
            assert(decreases_to!(old(vs)@ => v0[i as int]));
        }
        vs[i].kind.rewrite(r);
        i = i + 1;
    }
    assert(view_instrs(vs@) =~= rw_instrs(view_instrs(v0), r@));
}

impl InputToken {
    pub(crate) fn rewrite(&mut self, r: &Rewrite)
        ensures
            final(self)@ == rw_token(old(self)@, r@),
        decreases *old(self), 0nat,
    {
        match self {
            InputToken::Text(v) => v.rewrite(r, false),
            InputToken::MoveMouse(x, y, _) => {
                x.rewrite(r, false);
                y.rewrite(r, false);
            },
            InputToken::Scroll(v) => v.rewrite(r, false),
            _ => {},
        }
    }
}

impl InstructionKind {
    pub(crate) fn rewrite(&mut self, r: &Rewrite)
        ensures
            final(self)@ == rw_kind(old(self)@, r@),
        decreases *old(self), 0nat,
    {
        match self {
            InstructionKind::Token(t) => t.rewrite(r),
            InstructionKind::Wait(v) => v.rewrite(r, false),
            InstructionKind::Return(v) => v.rewrite(r, false),
            InstructionKind::WhenBatteryDischargedTo(v) => v.rewrite(r, false),
            InstructionKind::WhenBatteryChargedTo(v) => v.rewrite(r, false),
            InstructionKind::SetVariable(n, v) => {
                rename_var_name(n, r);
                v.rewrite(r, false);
            },
            InstructionKind::ChangeVariable(n, v) => {
                rename_var_name(n, r);
                v.rewrite(r, false);
            },
            InstructionKind::AddToList { value, name } => {
                value.rewrite(r, false);
                rename_list_name(name, r);
            },
            InstructionKind::InsertIntoList { value, index, name } => {
                value.rewrite(r, false);
                index.rewrite(r, false);
                rename_list_name(name, r);
            },
            InstructionKind::DeleteOfList { index, name } => {
                index.rewrite(r, false);
                rename_list_name(name, r);
            },
            InstructionKind::ShiftList { name, amount } => {
                amount.rewrite(r, false);
                rename_list_name(name, r);
            },
            InstructionKind::ReplaceItemOfList { index, name, value } => {
                index.rewrite(r, false);
                rename_list_name(name, r);
                value.rewrite(r, false);
            },
            InstructionKind::DeleteAllOfList { name } => rename_list_name(name, r),
            InstructionKind::ReverseList { name } => rename_list_name(name, r),
            InstructionKind::CallBlock { block_id, args, branches } => {
                rewrite_call_args(args, block_id, r);
                rewrite_branches(branches, r);
            },
            InstructionKind::If { condition, body } => {
                condition.rewrite(r, true);
                rewrite_instrs(body, r);
            },
            InstructionKind::IfElse { condition, then_body, else_body } => {
                condition.rewrite(r, true);
                rewrite_instrs(then_body, r);
                rewrite_instrs(else_body, r);
            },
            InstructionKind::Repeat { count, body } => {
                count.rewrite(r, false);
                rewrite_instrs(body, r);
            },
            InstructionKind::Forever { body } => {
                rewrite_instrs(body, r);
            },
            InstructionKind::While { condition, body } => {
                condition.rewrite(r, true);
                rewrite_instrs(body, r);
            },
            _ => {},
        }
    }
}

} // verus!
