//! Equality of programs that disregards instruction ids: two instructions
//! are equal when their kinds are, nested instructions included. Number
//! literals compare as `f64` numbers do: `0.0` equals `-0.0`, and a NaN
//! equals nothing, itself included.
use vstd::prelude::*;
use crate::program::{
    group_program_views, opt_str_view, view_branches, view_instr, view_instrs, view_value, view_values,
    dummy_instruction, dummy_value, InputToken, Instruction, InstructionKind, InstructionV, KindV, TokenV,
    Value, ValueV,
};

verus! {

broadcast use group_program_views;

/// The bit pattern of a number with its zero made positive: `0.0` and
/// `-0.0` compare equal, as `f64` numbers do.
pub open spec fn number_key(bits: u64) -> u64 {
    if bits == 0x8000_0000_0000_0000u64 {
        0
    } else {
        bits
    }
}

/// Whether the bit pattern is that of a NaN: every exponent bit set and a
/// nonzero fraction, of either sign.
pub open spec fn is_nan_bits(bits: u64) -> bool {
    (0x7FF0_0000_0000_0000u64 < bits && bits < 0x8000_0000_0000_0000u64) || 0xFFF0_0000_0000_0000u64 < bits
}

/// `==` on two `f64` numbers given by their bit patterns.
pub open spec fn number_eq(x: u64, y: u64) -> bool {
    number_key(x) == number_key(y) && !is_nan_bits(x)
}

fn is_nan(bits: u64) -> (r: bool)
    ensures
        r == is_nan_bits(bits),
{
    (0x7FF0_0000_0000_0000u64 < bits && bits < 0x8000_0000_0000_0000u64) || 0xFFF0_0000_0000_0000u64 < bits
}

/// `==` on two `f64` numbers given by their bit patterns.
pub fn same_number(x: u64, y: u64) -> (r: bool)
    ensures
        r == number_eq(x, y),
{
    let kx = if x == 0x8000_0000_0000_0000u64 { 0 } else { x };
    let ky = if y == 0x8000_0000_0000_0000u64 { 0 } else { y };
    kx == ky && !is_nan(x)
}

/// `v` with the ids of all nested instructions blanked out and every zero
/// made positive.
pub open spec fn erase_value(v: ValueV) -> ValueV
    decreases v,
{
    match v {
        ValueV::Number(b) => ValueV::Number(number_key(b)),
        ValueV::Op(op, args, saved) => ValueV::Op(op, erase_values(args), Box::new(erase_value(*saved))),
        ValueV::Call(id, args, branches, saved) => ValueV::Call(
            id,
            erase_values(args),
            erase_branches(branches),
            Box::new(erase_value(*saved)),
        ),
        _ => v,
    }
}

pub open spec fn erase_values(s: Seq<ValueV>) -> Seq<ValueV>
    decreases s,
{
    Seq::new(s.len(), |i: int| if 0 <= i < s.len() { erase_value(s[i]) } else { dummy_value() })
}

pub open spec fn erase_branches(s: Seq<Seq<InstructionV>>) -> Seq<Seq<InstructionV>>
    decreases s,
{
    Seq::new(s.len(), |i: int| if 0 <= i < s.len() { erase_instrs(s[i]) } else { Seq::empty() })
}

pub open spec fn erase_instrs(s: Seq<InstructionV>) -> Seq<InstructionV>
    decreases s,
{
    Seq::new(s.len(), |i: int| if 0 <= i < s.len() { erase_instr(s[i]) } else { dummy_instruction() })
}

pub open spec fn erase_instr(i: InstructionV) -> InstructionV
    decreases i,
{
    InstructionV { id: Seq::empty(), kind: erase_kind(i.kind) }
}

pub open spec fn erase_token(t: TokenV) -> TokenV
    decreases t,
{
    match t {
        TokenV::Text(v) => TokenV::Text(erase_value(v)),
        TokenV::MoveMouse(x, y, c) => TokenV::MoveMouse(erase_value(x), erase_value(y), c),
        TokenV::Scroll(v) => TokenV::Scroll(erase_value(v)),
        _ => t,
    }
}

pub open spec fn erase_kind(k: KindV) -> KindV
    decreases k,
{
    match k {
        KindV::Token(t) => KindV::Token(erase_token(t)),
        KindV::Wait(v) => KindV::Wait(erase_value(v)),
        KindV::WhenBatteryDischargedTo(v) => KindV::WhenBatteryDischargedTo(erase_value(v)),
        KindV::WhenBatteryChargedTo(v) => KindV::WhenBatteryChargedTo(erase_value(v)),
        KindV::SetVariable(n, v) => KindV::SetVariable(n, erase_value(v)),
        KindV::ChangeVariable(n, v) => KindV::ChangeVariable(n, erase_value(v)),
        KindV::AddToList { value, name } => KindV::AddToList { value: erase_value(value), name: name },
        KindV::DeleteOfList { index, name } => KindV::DeleteOfList { index: erase_value(index), name: name },
        KindV::ShiftList { name, amount } => KindV::ShiftList { name: name, amount: erase_value(amount) },
        KindV::InsertIntoList { value, index, name } => KindV::InsertIntoList { value: erase_value(value), index: erase_value(index), name: name },
        KindV::ReplaceItemOfList { index, name, value } => KindV::ReplaceItemOfList { index: erase_value(index), name: name, value: erase_value(value) },
        KindV::CallBlock { block_id, args, branches } => KindV::CallBlock { block_id: block_id, args: erase_values(args), branches: erase_branches(branches) },
        KindV::Return(v) => KindV::Return(erase_value(v)),
        KindV::If { condition, body } => KindV::If { condition: erase_value(condition), body: erase_instrs(body) },
        KindV::IfElse { condition, then_body, else_body } => KindV::IfElse { condition: erase_value(condition), then_body: erase_instrs(then_body), else_body: erase_instrs(else_body) },
        KindV::Repeat { count, body } => KindV::Repeat { count: erase_value(count), body: erase_instrs(body) },
        KindV::Forever { body } => KindV::Forever { body: erase_instrs(body) },
        KindV::While { condition, body } => KindV::While { condition: erase_value(condition), body: erase_instrs(body) },
        _ => k,
    }
}

/// Whether no number literal in `v` is a NaN.
pub open spec fn nan_free_value(v: ValueV) -> bool
    decreases v,
{
    match v {
        ValueV::Number(b) => !is_nan_bits(b),
        ValueV::Op(_, args, saved) => nan_free_values(args) && nan_free_value(*saved),
        ValueV::Call(_, args, branches, saved) => nan_free_values(args) && nan_free_branches(branches)
            && nan_free_value(*saved),
        _ => true,
    }
}

pub open spec fn nan_free_values(s: Seq<ValueV>) -> bool
    decreases s,
{
    forall|i: int| 0 <= i < s.len() ==> nan_free_value(#[trigger] s[i])
}

pub open spec fn nan_free_branches(s: Seq<Seq<InstructionV>>) -> bool
    decreases s,
{
    forall|i: int| 0 <= i < s.len() ==> nan_free_instrs(#[trigger] s[i])
}

pub open spec fn nan_free_instrs(s: Seq<InstructionV>) -> bool
    decreases s,
{
    forall|i: int| 0 <= i < s.len() ==> nan_free_kind((#[trigger] s[i]).kind)
}

pub open spec fn nan_free_token(t: TokenV) -> bool
    decreases t,
{
    match t {
        TokenV::Text(v) => nan_free_value(v),
        TokenV::MoveMouse(x, y, _) => nan_free_value(x) && nan_free_value(y),
        TokenV::Scroll(v) => nan_free_value(v),
        _ => true,
    }
}

pub open spec fn nan_free_kind(k: KindV) -> bool
    decreases k,
{
    match k {
        KindV::Token(t) => nan_free_token(t),
        KindV::Wait(v) => nan_free_value(v),
        KindV::WhenBatteryDischargedTo(v) => nan_free_value(v),
        KindV::WhenBatteryChargedTo(v) => nan_free_value(v),
        KindV::SetVariable(_, v) => nan_free_value(v),
        KindV::ChangeVariable(_, v) => nan_free_value(v),
        KindV::AddToList { value, .. } => nan_free_value(value),
        KindV::DeleteOfList { index, .. } => nan_free_value(index),
        KindV::ShiftList { amount, .. } => nan_free_value(amount),
        KindV::InsertIntoList { value, index, .. } => nan_free_value(value) && nan_free_value(index),
        KindV::ReplaceItemOfList { index, value, .. } => nan_free_value(index) && nan_free_value(value),
        KindV::CallBlock { args, branches, .. } => nan_free_values(args) && nan_free_branches(branches),
        KindV::Return(v) => nan_free_value(v),
        KindV::If { condition, body } => nan_free_value(condition) && nan_free_instrs(body),
        KindV::IfElse { condition, then_body, else_body } => nan_free_value(condition) && nan_free_instrs(then_body)
            && nan_free_instrs(else_body),
        KindV::Repeat { count, body } => nan_free_value(count) && nan_free_instrs(body),
        KindV::Forever { body } => nan_free_instrs(body),
        KindV::While { condition, body } => nan_free_value(condition) && nan_free_instrs(body),
        _ => true,
    }
}

/// `==` on values: the same shape with instruction ids disregarded, and
/// numbers that compare equal as `f64`.
pub open spec fn value_eq(a: ValueV, b: ValueV) -> bool {
    erase_value(a) == erase_value(b) && nan_free_value(a)
}

pub open spec fn values_eq(a: Seq<ValueV>, b: Seq<ValueV>) -> bool {
    erase_values(a) == erase_values(b) && nan_free_values(a)
}

pub open spec fn branches_eq(a: Seq<Seq<InstructionV>>, b: Seq<Seq<InstructionV>>) -> bool {
    erase_branches(a) == erase_branches(b) && nan_free_branches(a)
}

pub open spec fn instrs_eq(a: Seq<InstructionV>, b: Seq<InstructionV>) -> bool {
    erase_instrs(a) == erase_instrs(b) && nan_free_instrs(a)
}

pub open spec fn instr_eq(a: InstructionV, b: InstructionV) -> bool {
    erase_instr(a) == erase_instr(b) && nan_free_kind(a.kind)
}

pub open spec fn token_eq(a: TokenV, b: TokenV) -> bool {
    erase_token(a) == erase_token(b) && nan_free_token(a)
}

pub open spec fn kind_eq(a: KindV, b: KindV) -> bool {
    erase_kind(a) == erase_kind(b) && nan_free_kind(a)
}

pub broadcast proof fn lemma_erase_values(s: Seq<ValueV>)
    ensures
        #[trigger] erase_values(s).len() == s.len(),
        forall|i: int| 0 <= i < s.len() ==> erase_values(s)[i] == erase_value(#[trigger] s[i]),
{
}

pub broadcast proof fn lemma_erase_branches(s: Seq<Seq<InstructionV>>)
    ensures
        #[trigger] erase_branches(s).len() == s.len(),
        forall|i: int| 0 <= i < s.len() ==> erase_branches(s)[i] == erase_instrs(#[trigger] s[i]),
{
}

pub broadcast proof fn lemma_erase_instrs(s: Seq<InstructionV>)
    ensures
        #[trigger] erase_instrs(s).len() == s.len(),
        forall|i: int| 0 <= i < s.len() ==> erase_instrs(s)[i] == erase_instr(#[trigger] s[i]),
{
}

fn same_opt_string(a: &Option<String>, b: &Option<String>) -> (r: bool)
    ensures
        r == (opt_str_view(*a) == opt_str_view(*b)),
{
    match (a, b) {
        (Some(x), Some(y)) => *x == *y,
        (None, None) => true,
        _ => false,
    }
}

/// Whether two values are equal once instruction ids are disregarded.
pub fn same_value(a: &Value, b: &Value) -> (r: bool)
    ensures
        r == value_eq(a@, b@),
    decreases *a,
{
    proof {
        broadcast use {lemma_erase_values, lemma_erase_branches, lemma_erase_instrs};
    }
    match (a, b) {
        (Value::Number { bits: x }, Value::Number { bits: y }) => same_number(*x, *y),
        (Value::Text { value: x }, Value::Text { value: y }) => *x == *y,
        (Value::Bool, Value::Bool) => true,
        (Value::Var { name: x }, Value::Var { name: y }) => *x == *y,
        (Value::List { name: x }, Value::List { name: y }) => *x == *y,
        (Value::Param { name: x }, Value::Param { name: y }) => *x == *y,
        (Value::Op { op: o1, args: a1, saved: s1 }, Value::Op { op: o2, args: a2, saved: s2 }) => {
            *o1 == *o2 && same_values(a1, a2) && same_value(s1, s2)
        },
        (
            Value::Call { block_id: i1, args: a1, branches: b1, saved: s1 },
            Value::Call { block_id: i2, args: a2, branches: b2, saved: s2 },
        ) => *i1 == *i2 && same_values(a1, a2) && same_branches(b1, b2) && same_value(s1, s2),
        _ => false,
    }
}

pub fn same_values(a: &Vec<Value>, b: &Vec<Value>) -> (r: bool)
    ensures
        r == values_eq(view_values(a@), view_values(b@)),
    decreases *a,
{
    proof {
        broadcast use {lemma_erase_values, lemma_erase_branches, lemma_erase_instrs};
    }
    if a.len() != b.len() {
        assert(erase_values(view_values(a@)).len() != erase_values(view_values(b@)).len());
        return false;
    }
    let mut i: usize = 0;
    while i < a.len()
        invariant
            a@.len() == b@.len(),
            i <= a@.len(),
            forall|j: int| 0 <= j < i ==> value_eq(view_value(#[trigger] a@[j]), view_value(b@[j])),
        decreases a.len() - i,
    {
        proof {
            assert(decreases_to!(*a => a@));
            assert(decreases_to!(a@ => a@[i as int]));
        }
        if !same_value(&a[i], &b[i]) {
            assert(erase_values(view_values(a@))[i as int] != erase_values(view_values(b@))[i as int]
                || !nan_free_value(view_values(a@)[i as int]));
            return false;
        }
        i = i + 1;
    }
    assert(erase_values(view_values(a@)) =~= erase_values(view_values(b@)));
    assert(nan_free_values(view_values(a@)));
    true
}

pub fn same_instrs(a: &Vec<Instruction>, b: &Vec<Instruction>) -> (r: bool)
    ensures
        r == instrs_eq(view_instrs(a@), view_instrs(b@)),
    decreases *a,
{
    proof {
        broadcast use {lemma_erase_values, lemma_erase_branches, lemma_erase_instrs};
    }
    if a.len() != b.len() {
        assert(erase_instrs(view_instrs(a@)).len() != erase_instrs(view_instrs(b@)).len());
        return false;
    }
    let mut i: usize = 0;
    while i < a.len()
        invariant
            a@.len() == b@.len(),
            i <= a@.len(),
            forall|j: int| 0 <= j < i ==> instr_eq(view_instr(#[trigger] a@[j]), view_instr(b@[j])),
        decreases a.len() - i,
    {
        proof {
            assert(decreases_to!(*a => a@));
            assert(decreases_to!(a@ => a@[i as int]));
        }
        if !same_instr(&a[i], &b[i]) {
            assert(erase_instrs(view_instrs(a@))[i as int] != erase_instrs(view_instrs(b@))[i as int]
                || !nan_free_kind(view_instrs(a@)[i as int].kind));
            return false;
        }
        i = i + 1;
    }
    assert(erase_instrs(view_instrs(a@)) =~= erase_instrs(view_instrs(b@)));
    assert(nan_free_instrs(view_instrs(a@)));
    true
}

pub fn same_branches(a: &Vec<Vec<Instruction>>, b: &Vec<Vec<Instruction>>) -> (r: bool)
    ensures
        r == branches_eq(view_branches(a@), view_branches(b@)),
    decreases *a,
{
    proof {
        broadcast use {lemma_erase_values, lemma_erase_branches, lemma_erase_instrs};
    }
    if a.len() != b.len() {
        assert(erase_branches(view_branches(a@)).len() != erase_branches(view_branches(b@)).len());
        return false;
    }
    let mut i: usize = 0;
    while i < a.len()
        invariant
            a@.len() == b@.len(),
            i <= a@.len(),
            forall|j: int| 0 <= j < i ==> instrs_eq(view_instrs((#[trigger] a@[j])@), view_instrs(b@[j]@)),
        decreases a.len() - i,
    {
        proof {
            assert(decreases_to!(*a => a@));
            assert(decreases_to!(a@ => a@[i as int]));
        }
        if !same_instrs(&a[i], &b[i]) {
            assert(erase_branches(view_branches(a@))[i as int] != erase_branches(view_branches(b@))[i as int]
                || !nan_free_instrs(view_branches(a@)[i as int]));
            return false;
        }
        i = i + 1;
    }
    assert(erase_branches(view_branches(a@)) =~= erase_branches(view_branches(b@)));
    assert(nan_free_branches(view_branches(a@)));
    true
}

/// Whether two instructions have equal kinds, ids disregarded throughout.
pub fn same_instr(a: &Instruction, b: &Instruction) -> (r: bool)
    ensures
        r == instr_eq(a@, b@),
    decreases *a,
{
    same_kind(&a.kind, &b.kind)
}

pub fn same_token(a: &InputToken, b: &InputToken) -> (r: bool)
    ensures
        r == token_eq(a@, b@),
    decreases *a,
{
    match (a, b) {
        (InputToken::KeyDown(x), InputToken::KeyDown(y)) => *x == *y,
        (InputToken::KeyUp(x), InputToken::KeyUp(y)) => *x == *y,
        (InputToken::MouseDown(x), InputToken::MouseDown(y)) => *x == *y,
        (InputToken::MouseUp(x), InputToken::MouseUp(y)) => *x == *y,
        (InputToken::Text(x), InputToken::Text(y)) => same_value(x, y),
        (InputToken::MoveMouse(x1, y1, c1), InputToken::MoveMouse(x2, y2, c2)) => {
            same_value(x1, x2) && same_value(y1, y2) && *c1 == *c2
        },
        (InputToken::Scroll(x), InputToken::Scroll(y)) => same_value(x, y),
        _ => false,
    }
}

pub fn same_kind(a: &InstructionKind, b: &InstructionKind) -> (r: bool)
    ensures
        r == kind_eq(a@, b@),
    decreases *a,
{
    match (a, b) {
            (InstructionKind::Token(t1), InstructionKind::Token(t2)) => same_token(t1, t2),
            (InstructionKind::Wait(v1), InstructionKind::Wait(v2)) => same_value(v1, v2),
            (InstructionKind::Command(s1), InstructionKind::Command(s2)) => *s1 == *s2,
            (InstructionKind::Comment(s1), InstructionKind::Comment(s2)) => *s1 == *s2,
            (InstructionKind::WhenRan, InstructionKind::WhenRan) => true,
            (InstructionKind::WhenBatteryDischargedTo(v1), InstructionKind::WhenBatteryDischargedTo(v2)) => same_value(v1, v2),
            (InstructionKind::WhenBatteryChargedTo(v1), InstructionKind::WhenBatteryChargedTo(v2)) => same_value(v1, v2),
            (InstructionKind::WhenTime(s1), InstructionKind::WhenTime(s2)) => *s1 == *s2,
            (InstructionKind::WhenPowerPluggedIn, InstructionKind::WhenPowerPluggedIn) => true,
            (InstructionKind::WhenPowerUnplugged, InstructionKind::WhenPowerUnplugged) => true,
            (InstructionKind::WhenClipboardChanged, InstructionKind::WhenClipboardChanged) => true,
            (InstructionKind::OpenApp { command: command1, name: name1, icon: icon1 }, InstructionKind::OpenApp { command: command2, name: name2, icon: icon2 }) => *command1 == *command2 && *name1 == *name2 && same_opt_string(icon1, icon2),
            (InstructionKind::CloseApp { command: command1, name: name1, icon: icon1 }, InstructionKind::CloseApp { command: command2, name: name2, icon: icon2 }) => *command1 == *command2 && *name1 == *name2 && same_opt_string(icon1, icon2),
            (InstructionKind::SetVariable(n1, v1), InstructionKind::SetVariable(n2, v2)) => *n1 == *n2 && same_value(v1, v2),
            (InstructionKind::ChangeVariable(n1, v1), InstructionKind::ChangeVariable(n2, v2)) => *n1 == *n2 && same_value(v1, v2),
            (InstructionKind::AddToList { value: value1, name: name1 }, InstructionKind::AddToList { value: value2, name: name2 }) => same_value(value1, value2) && *name1 == *name2,
            (InstructionKind::DeleteOfList { index: index1, name: name1 }, InstructionKind::DeleteOfList { index: index2, name: name2 }) => same_value(index1, index2) && *name1 == *name2,
            (InstructionKind::DeleteAllOfList { name: name1 }, InstructionKind::DeleteAllOfList { name: name2 }) => *name1 == *name2,
            (InstructionKind::ShiftList { name: name1, amount: amount1 }, InstructionKind::ShiftList { name: name2, amount: amount2 }) => *name1 == *name2 && same_value(amount1, amount2),
            (InstructionKind::InsertIntoList { value: value1, index: index1, name: name1 }, InstructionKind::InsertIntoList { value: value2, index: index2, name: name2 }) => same_value(value1, value2) && same_value(index1, index2) && *name1 == *name2,
            (InstructionKind::ReplaceItemOfList { index: index1, name: name1, value: value1 }, InstructionKind::ReplaceItemOfList { index: index2, name: name2, value: value2 }) => same_value(index1, index2) && *name1 == *name2 && same_value(value1, value2),
            (InstructionKind::ReverseList { name: name1 }, InstructionKind::ReverseList { name: name2 }) => *name1 == *name2,
            (InstructionKind::BlockHeader(s1), InstructionKind::BlockHeader(s2)) => *s1 == *s2,
            (InstructionKind::CallBlock { block_id: block_id1, args: args1, branches: branches1 }, InstructionKind::CallBlock { block_id: block_id2, args: args2, branches: branches2 }) => *block_id1 == *block_id2 && same_values(args1, args2) && same_branches(branches1, branches2),
            (InstructionKind::RunBranch(s1), InstructionKind::RunBranch(s2)) => *s1 == *s2,
            (InstructionKind::Return(v1), InstructionKind::Return(v2)) => same_value(v1, v2),
            (InstructionKind::If { condition: condition1, body: body1 }, InstructionKind::If { condition: condition2, body: body2 }) => same_value(condition1, condition2) && same_instrs(body1, body2),
            (InstructionKind::IfElse { condition: condition1, then_body: then_body1, else_body: else_body1 }, InstructionKind::IfElse { condition: condition2, then_body: then_body2, else_body: else_body2 }) => same_value(condition1, condition2) && same_instrs(then_body1, then_body2) && same_instrs(else_body1, else_body2),
            (InstructionKind::Repeat { count: count1, body: body1 }, InstructionKind::Repeat { count: count2, body: body2 }) => same_value(count1, count2) && same_instrs(body1, body2),
            (InstructionKind::Forever { body: body1 }, InstructionKind::Forever { body: body2 }) => same_instrs(body1, body2),
            (InstructionKind::While { condition: condition1, body: body1 }, InstructionKind::While { condition: condition2, body: body2 }) => same_value(condition1, condition2) && same_instrs(body1, body2),
            (InstructionKind::EscapeLoop, InstructionKind::EscapeLoop) => true,
            (InstructionKind::ContinueLoop, InstructionKind::ContinueLoop) => true,
        _ => false,
    }
}

impl PartialEq for Value {
    fn eq(&self, other: &Self) -> (r: bool) {
        same_value(self, other)
    }
}

impl vstd::std_specs::cmp::PartialEqSpecImpl for Value {
    open spec fn obeys_eq_spec() -> bool {
        true
    }

    open spec fn eq_spec(&self, other: &Self) -> bool {
        value_eq(self@, other@)
    }
}

impl PartialEq for InputToken {
    fn eq(&self, other: &Self) -> (r: bool) {
        same_token(self, other)
    }
}

impl vstd::std_specs::cmp::PartialEqSpecImpl for InputToken {
    open spec fn obeys_eq_spec() -> bool {
        true
    }

    open spec fn eq_spec(&self, other: &Self) -> bool {
        token_eq(self@, other@)
    }
}

impl PartialEq for InstructionKind {
    fn eq(&self, other: &Self) -> (r: bool) {
        same_kind(self, other)
    }
}

impl vstd::std_specs::cmp::PartialEqSpecImpl for InstructionKind {
    open spec fn obeys_eq_spec() -> bool {
        true
    }

    open spec fn eq_spec(&self, other: &Self) -> bool {
        kind_eq(self@, other@)
    }
}

impl PartialEq for Instruction {
    fn eq(&self, other: &Self) -> (r: bool) {
        same_instr(self, other)
    }
}

impl vstd::std_specs::cmp::PartialEqSpecImpl for Instruction {
    open spec fn obeys_eq_spec() -> bool {
        true
    }

    open spec fn eq_spec(&self, other: &Self) -> bool {
        instr_eq(self@, other@)
    }
}

} // verus!
