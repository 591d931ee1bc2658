//! Deep copies of the instruction tree, proved to keep the view unchanged.
use vstd::prelude::*;
use crate::program::{
    group_program_views, opt_str_view, view_branches, view_instr, view_instrs, view_value, view_values,
    InputToken, Instruction, InstructionKind, Value,
};

verus! {

broadcast use group_program_views;

fn copy_string(s: &String) -> (r: String)
    ensures
        r@ == s@,
{
    s.clone()
}

fn copy_opt_string(s: &Option<String>) -> (r: Option<String>)
    ensures
        opt_str_view(r) == opt_str_view(*s),
{
    match s {
        Some(t) => Some(copy_string(t)),
        None => None,
    }
}

impl Value {
    /// A copy of this value with the same view.
    pub fn duplicate(&self) -> (r: Value)
        ensures
            r@ == self@,
        decreases *self,
    {
        match self {
            Value::Number { bits } => Value::Number { bits: *bits },
            Value::Text { value } => Value::Text { value: copy_string(value) },
            Value::Bool => Value::Bool,
            Value::Var { name } => Value::Var { name: copy_string(name) },
            Value::List { name } => Value::List { name: copy_string(name) },
            Value::Param { name } => Value::Param { name: copy_string(name) },
            Value::Op { op, args, saved } => {
                let a = duplicate_values(args);
                let s = saved.duplicate();
                Value::Op { op: *op, args: a, saved: Box::new(s) }
            },
            Value::Call { block_id, args, branches, saved } => {
                let a = duplicate_values(args);
                let b = duplicate_branches(branches);
                let s = saved.duplicate();
                Value::Call { block_id: copy_string(block_id), args: a, branches: b, saved: Box::new(s) }
            },
        }
    }
}

pub fn duplicate_values(vs: &Vec<Value>) -> (r: Vec<Value>)
    ensures
        view_values(r@) == view_values(vs@),
    decreases *vs,
{
    let mut out: Vec<Value> = Vec::new();
    let mut i: usize = 0;
    while i < vs.len()
        invariant
            i <= vs@.len(),
            out@.len() == i,
            forall|j: int| 0 <= j < i ==> #[trigger] view_value(out@[j]) == view_value(vs@[j]),
        decreases vs.len() - i,
    {
        proof {
            assert(decreases_to!(*vs => vs@));
            assert(decreases_to!(vs@ => vs@[i as int]));
        }
        let c = vs[i].duplicate();
        out.push(c);
        i = i + 1;
    }
    assert(view_values(out@) =~= view_values(vs@));
    out
}

pub fn duplicate_instrs(vs: &Vec<Instruction>) -> (r: Vec<Instruction>)
    ensures
        view_instrs(r@) == view_instrs(vs@),
    decreases *vs,
{
    let mut out: Vec<Instruction> = Vec::new();
    let mut i: usize = 0;
    while i < vs.len()
        invariant
            i <= vs@.len(),
            out@.len() == i,
            forall|j: int| 0 <= j < i ==> #[trigger] view_instr(out@[j]) == view_instr(vs@[j]),
        decreases vs.len() - i,
    {
        proof {
            assert(decreases_to!(*vs => vs@));
            assert(decreases_to!(vs@ => vs@[i as int]));
        }
        let c = vs[i].duplicate();
        out.push(c);
        i = i + 1;
    }
    assert(view_instrs(out@) =~= view_instrs(vs@));
    out
}

pub fn duplicate_branches(vs: &Vec<Vec<Instruction>>) -> (r: Vec<Vec<Instruction>>)
    ensures
        view_branches(r@) == view_branches(vs@),
    decreases *vs,
{
    let mut out: Vec<Vec<Instruction>> = Vec::new();
    let mut i: usize = 0;
    while i < vs.len()
        invariant
            i <= vs@.len(),
            out@.len() == i,
            forall|j: int| 0 <= j < i ==> #[trigger] view_instrs(out@[j]@) == view_instrs(vs@[j]@),
        decreases vs.len() - i,
    {
        proof {
            assert(decreases_to!(*vs => vs@));
            assert(decreases_to!(vs@ => vs@[i as int]));
        }
        let c = duplicate_instrs(&vs[i]);
        out.push(c);
        i = i + 1;
    }
    assert(view_branches(out@) =~= view_branches(vs@));
    out
}

impl Instruction {
    /// A copy of this instruction, id included, with the same view.
    pub fn duplicate(&self) -> (r: Instruction)
        ensures
            r@ == self@,
        decreases *self,
    {
        Instruction { id: copy_string(&self.id), kind: self.kind.duplicate() }
    }
}

impl InputToken {
    pub fn duplicate(&self) -> (r: InputToken)
        ensures
            r@ == self@,
        decreases *self,
    {
        match self {
            InputToken::KeyDown(s) => InputToken::KeyDown(copy_string(s)),
            InputToken::KeyUp(s) => InputToken::KeyUp(copy_string(s)),
            InputToken::MouseDown(s) => InputToken::MouseDown(copy_string(s)),
            InputToken::MouseUp(s) => InputToken::MouseUp(copy_string(s)),
            InputToken::Text(v) => InputToken::Text(v.duplicate()),
            InputToken::MoveMouse(x, y, c) => InputToken::MoveMouse(x.duplicate(), y.duplicate(), *c),
            InputToken::Scroll(v) => InputToken::Scroll(v.duplicate()),
        }
    }
}

impl InstructionKind {
    pub fn duplicate(&self) -> (r: InstructionKind)
        ensures
            r@ == self@,
        decreases *self,
    {
        match self {
            InstructionKind::Token(t) => InstructionKind::Token(t.duplicate()),
            InstructionKind::Wait(v) => InstructionKind::Wait(v.duplicate()),
            InstructionKind::Command(s) => InstructionKind::Command(copy_string(s)),
            InstructionKind::Comment(s) => InstructionKind::Comment(copy_string(s)),
            InstructionKind::WhenRan => InstructionKind::WhenRan,
            InstructionKind::WhenBatteryDischargedTo(v) => InstructionKind::WhenBatteryDischargedTo(v.duplicate()),
            InstructionKind::WhenBatteryChargedTo(v) => InstructionKind::WhenBatteryChargedTo(v.duplicate()),
            InstructionKind::WhenTime(s) => InstructionKind::WhenTime(*s),
            InstructionKind::WhenPowerPluggedIn => InstructionKind::WhenPowerPluggedIn,
            InstructionKind::WhenPowerUnplugged => InstructionKind::WhenPowerUnplugged,
            InstructionKind::WhenClipboardChanged => InstructionKind::WhenClipboardChanged,
            InstructionKind::OpenApp { command, name, icon } => InstructionKind::OpenApp {
                command: copy_string(command),
                name: copy_string(name),
                icon: copy_opt_string(icon),
            },
            InstructionKind::CloseApp { command, name, icon } => InstructionKind::CloseApp {
                command: copy_string(command),
                name: copy_string(name),
                icon: copy_opt_string(icon),
            },
            InstructionKind::SetVariable(n, v) => InstructionKind::SetVariable(copy_string(n), v.duplicate()),
            InstructionKind::ChangeVariable(n, v) => InstructionKind::ChangeVariable(copy_string(n), v.duplicate()),
            InstructionKind::AddToList { value, name } => InstructionKind::AddToList {
                value: value.duplicate(),
                name: copy_string(name),
            },
            InstructionKind::DeleteOfList { index, name } => InstructionKind::DeleteOfList {
                index: index.duplicate(),
                name: copy_string(name),
            },
            InstructionKind::DeleteAllOfList { name } => InstructionKind::DeleteAllOfList { name: copy_string(name) },
            InstructionKind::ShiftList { name, amount } => InstructionKind::ShiftList {
                name: copy_string(name),
                amount: amount.duplicate(),
            },
            InstructionKind::InsertIntoList { value, index, name } => InstructionKind::InsertIntoList {
                value: value.duplicate(),
                index: index.duplicate(),
                name: copy_string(name),
            },
            InstructionKind::ReplaceItemOfList { index, name, value } => InstructionKind::ReplaceItemOfList {
                index: index.duplicate(),
                name: copy_string(name),
                value: value.duplicate(),
            },
            InstructionKind::ReverseList { name } => InstructionKind::ReverseList { name: copy_string(name) },
            InstructionKind::BlockHeader(s) => InstructionKind::BlockHeader(copy_string(s)),
            InstructionKind::CallBlock { block_id, args, branches } => InstructionKind::CallBlock {
                block_id: copy_string(block_id),
                args: duplicate_values(args),
                branches: duplicate_branches(branches),
            },
            InstructionKind::RunBranch(s) => InstructionKind::RunBranch(copy_string(s)),
            InstructionKind::Return(v) => InstructionKind::Return(v.duplicate()),
            InstructionKind::If { condition, body } => InstructionKind::If {
                condition: condition.duplicate(),
                body: duplicate_instrs(body),
            },
            InstructionKind::IfElse { condition, then_body, else_body } => InstructionKind::IfElse {
                condition: condition.duplicate(),
                then_body: duplicate_instrs(then_body),
                else_body: duplicate_instrs(else_body),
            },
            InstructionKind::Repeat { count, body } => InstructionKind::Repeat {
                count: count.duplicate(),
                body: duplicate_instrs(body),
            },
            InstructionKind::Forever { body } => InstructionKind::Forever { body: duplicate_instrs(body) },
            InstructionKind::While { condition, body } => InstructionKind::While {
                condition: condition.duplicate(),
                body: duplicate_instrs(body),
            },
            InstructionKind::EscapeLoop => InstructionKind::EscapeLoop,
            InstructionKind::ContinueLoop => InstructionKind::ContinueLoop,
        }
    }
}

impl Clone for Value {
    fn clone(&self) -> (r: Self)
        ensures
            r@ == self@,
    {
        self.duplicate()
    }
}

impl Clone for InputToken {
    fn clone(&self) -> (r: Self)
        ensures
            r@ == self@,
    {
        self.duplicate()
    }
}

impl Clone for InstructionKind {
    fn clone(&self) -> (r: Self)
        ensures
            r@ == self@,
    {
        self.duplicate()
    }
}

impl Clone for Instruction {
    fn clone(&self) -> (r: Self)
        ensures
            r@ == self@,
    {
        self.duplicate()
    }
}

} // verus!
