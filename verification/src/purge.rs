//! Dropping every command-position call of a deleted custom block, at
//! every depth: nested bodies, call branches, and the branches of value
//! calls. It visits the same positions as the other whole-tree edits.
use vstd::prelude::*;
use crate::custom::calls_block;
use crate::edit::{group_rewrite, rw_branches, rw_instrs, rw_kind, rw_token, rw_value, rw_values, Edit};
use crate::program::{dummy_value, group_program_views, view_branches, view_instrs, view_value, view_values, InputToken, Instruction, InstructionKind, InstructionV, KindV, TokenV, Value, ValueV};
use crate::text::str_eq;

verus! {

broadcast use group_program_views;

pub open spec fn purged_value(v: ValueV, id: Seq<char>) -> ValueV
    decreases v,
{
    match v {
        ValueV::Op(op, args, saved) => ValueV::Op(op, purged_values(args, id), Box::new(purged_value(*saved, id))),
        ValueV::Call(c, args, branches, saved) => ValueV::Call(
            c,
            purged_values(args, id),
            purged_branches(branches, id),
            Box::new(purged_value(*saved, id)),
        ),
        _ => v,
    }
}

pub open spec fn purged_values(s: Seq<ValueV>, id: Seq<char>) -> Seq<ValueV>
    decreases s,
{
    Seq::new(s.len(), |i: int| if 0 <= i < s.len() { purged_value(s[i], id) } else { dummy_value() })
}

pub open spec fn purged_branches(s: Seq<Seq<InstructionV>>, id: Seq<char>) -> Seq<Seq<InstructionV>>
    decreases s,
{
    Seq::new(s.len(), |i: int| if 0 <= i < s.len() { purged_instrs(s[i], id) } else { Seq::empty() })
}

/// `s` without the calls of block `id`, at every depth.
pub open spec fn purged_instrs(s: Seq<InstructionV>, id: Seq<char>) -> Seq<InstructionV>
    decreases s,
{
    if s.len() == 0 {
        Seq::empty()
    } else {
        let rest = purged_instrs(s.subrange(0, s.len() - 1), id);
        let x = s[s.len() - 1];
        if calls_block(x, id) {
            rest
        } else {
            rest.push(InstructionV { id: x.id, kind: purged_kind(x.kind, id) })
        }
    }
}

pub open spec fn purged_token(t: TokenV, id: Seq<char>) -> TokenV
    decreases t,
{
    match t {
        TokenV::Text(v) => TokenV::Text(purged_value(v, id)),
        TokenV::MoveMouse(x, y, c) => TokenV::MoveMouse(purged_value(x, id), purged_value(y, id), c),
        TokenV::Scroll(v) => TokenV::Scroll(purged_value(v, id)),
        _ => t,
    }
}

pub open spec fn purged_kind(k: KindV, id: Seq<char>) -> KindV
    decreases k,
{
    match k {
        KindV::Token(t) => KindV::Token(purged_token(t, id)),
        KindV::Wait(v) => KindV::Wait(purged_value(v, id)),
        KindV::WhenBatteryDischargedTo(v) => KindV::WhenBatteryDischargedTo(purged_value(v, id)),
        KindV::WhenBatteryChargedTo(v) => KindV::WhenBatteryChargedTo(purged_value(v, id)),
        KindV::Return(v) => KindV::Return(purged_value(v, id)),
        KindV::SetVariable(n, v) => KindV::SetVariable(n, purged_value(v, id)),
        KindV::ChangeVariable(n, v) => KindV::ChangeVariable(n, purged_value(v, id)),
        KindV::AddToList { value, name } => KindV::AddToList { value: purged_value(value, id), name },
        KindV::InsertIntoList { value, index, name } => KindV::InsertIntoList {
            value: purged_value(value, id),
            index: purged_value(index, id),
            name,
        },
        KindV::DeleteOfList { index, name } => KindV::DeleteOfList { index: purged_value(index, id), name },
        KindV::ShiftList { name, amount } => KindV::ShiftList { name, amount: purged_value(amount, id) },
        KindV::ReplaceItemOfList { index, name, value } => KindV::ReplaceItemOfList {
            index: purged_value(index, id),
            name,
            value: purged_value(value, id),
        },
        KindV::CallBlock { block_id, args, branches } => KindV::CallBlock {
            block_id,
            args: purged_values(args, id),
            branches: purged_branches(branches, id),
        },
        KindV::If { condition, body } => KindV::If { condition: purged_value(condition, id), body: purged_instrs(body, id) },
        KindV::IfElse { condition, then_body, else_body } => KindV::IfElse {
            condition: purged_value(condition, id),
            then_body: purged_instrs(then_body, id),
            else_body: purged_instrs(else_body, id),
        },
        KindV::Repeat { count, body } => KindV::Repeat { count: purged_value(count, id), body: purged_instrs(body, id) },
        KindV::Forever { body } => KindV::Forever { body: purged_instrs(body, id) },
        KindV::While { condition, body } => KindV::While { condition: purged_value(condition, id), body: purged_instrs(body, id) },
        _ => k,
    }
}

pub broadcast proof fn lemma_purged_values(s: Seq<ValueV>, id: Seq<char>)
    ensures
        #[trigger] purged_values(s, id).len() == s.len(),
        forall|i: int| 0 <= i < s.len() ==> purged_values(s, id)[i] == purged_value(#[trigger] s[i], id),
{
}

pub broadcast proof fn lemma_purged_branches(s: Seq<Seq<InstructionV>>, id: Seq<char>)
    ensures
        #[trigger] purged_branches(s, id).len() == s.len(),
        forall|i: int| 0 <= i < s.len() ==> purged_branches(s, id)[i] == purged_instrs(#[trigger] s[i], id),
{
}

fn purge_values(vs: &mut Vec<Value>, id: &str)
    ensures
        view_values(final(vs)@) == purged_values(view_values(old(vs)@), id@),
    decreases *old(vs), 0nat,
{
    broadcast use lemma_purged_values;

    let ghost v0 = vs@;
    let mut i: usize = 0;
    while i < vs.len()
        invariant
            vs@.len() == v0.len(),
            v0 == old(vs)@,
            i <= vs@.len(),
            forall|j: int| 0 <= j < i ==> #[trigger] view_value(vs@[j]) == purged_value(view_value(v0[j]), id@),
            forall|j: int| i <= j < vs@.len() ==> #[trigger] vs@[j] == v0[j],
        decreases vs.len() - i,
    {
        proof {
            assert(decreases_to!(*old(vs) => old(vs)@));
            assert(decreases_to!(old(vs)@ => v0[i as int]));
        }
        vs[i].purge(id);
        i = i + 1;
    }
    assert(view_values(vs@) =~= purged_values(view_values(v0), id@));
}

fn purge_branches(bs: &mut Vec<Vec<Instruction>>, id: &str)
    ensures
        view_branches(final(bs)@) == purged_branches(view_branches(old(bs)@), id@),
    decreases *old(bs), 0nat,
{
    broadcast use lemma_purged_branches;

    let ghost v0 = bs@;
    let mut i: usize = 0;
    while i < bs.len()
        invariant
            bs@.len() == v0.len(),
            v0 == old(bs)@,
            i <= bs@.len(),
            forall|k: int| 0 <= k < i ==> #[trigger] view_instrs(bs@[k]@) == purged_instrs(view_instrs(v0[k]@), id@),
            forall|k: int| i <= k < bs@.len() ==> #[trigger] bs@[k] == v0[k],
        decreases bs.len() - i,
    {
        proof {
            assert(decreases_to!(*old(bs) => old(bs)@));
            assert(decreases_to!(old(bs)@ => v0[i as int]));
        }
        purge_instrs(&mut bs[i], id);
        i = i + 1;
    }
    assert(view_branches(bs@) =~= purged_branches(view_branches(v0), id@));
}

/// Drops every call of block `id` from `list`, at every depth.
pub(crate) fn purge_instrs(list: &mut Vec<Instruction>, id: &str)
    ensures
        view_instrs(final(list)@) == purged_instrs(view_instrs(old(list)@), id@),
    decreases *old(list), 0nat,
{
    let ghost l = view_instrs(list@);
    let ghost v0 = list@;
    let mut src: Vec<Instruction> = Vec::new();
    std::mem::swap(&mut src, list);
    let n = src.len();
    let mut kept: Vec<Instruction> = Vec::new();
    let mut i: usize = 0;
    while i < n
        invariant
            n == v0.len(),
            v0 == old(list)@,
            l == view_instrs(v0),
            i <= n,
            src@ == v0.subrange(i as int, n as int),
            view_instrs(kept@) == purged_instrs(l.subrange(0, i as int), id@),
        decreases n - i,
    {
        let mut ins = src.remove(0);
        proof {
            assert(ins == v0[i as int]);
            assert(decreases_to!(*old(list) => old(list)@));
            assert(decreases_to!(old(list)@ => v0[i as int]));
            assert(src@ =~= v0.subrange(i + 1, n as int));
            assert(l.subrange(0, i + 1).subrange(0, i as int) =~= l.subrange(0, i as int));
            assert(l.subrange(0, i + 1)[i as int] == l[i as int]);
        }
        let drop = match &ins.kind {
            InstructionKind::CallBlock { block_id, .. } => str_eq(block_id, id),
            _ => false,
        };
        if !drop {
            ins.kind.purge(id);
            kept.push(ins);
        }
        proof {
            assert(view_instrs(kept@) =~= purged_instrs(l.subrange(0, i + 1), id@));
        }
        i = i + 1;
    }
    assert(l.subrange(0, n as int) =~= l);
    *list = kept;
}

impl Value {
    pub(crate) fn purge(&mut self, id: &str)
        ensures
            final(self)@ == purged_value(old(self)@, id@),
        decreases *old(self), 0nat,
    {
        match self {
            Value::Op { args, saved, .. } => {
                purge_values(args, id);
                saved.purge(id);
            },
            Value::Call { args, branches, saved, .. } => {
                purge_values(args, id);
                purge_branches(branches, id);
                saved.purge(id);
            },
            _ => {},
        }
    }
}

impl InputToken {
    fn purge(&mut self, id: &str)
        ensures
            final(self)@ == purged_token(old(self)@, id@),
        decreases *old(self), 0nat,
    {
        match self {
            InputToken::Text(v) => v.purge(id),
            InputToken::MoveMouse(x, y, _) => {
                x.purge(id);
                y.purge(id);
            },
            InputToken::Scroll(v) => v.purge(id),
            _ => {},
        }
    }
}

impl InstructionKind {
    fn purge(&mut self, id: &str)
        ensures
            final(self)@ == purged_kind(old(self)@, id@),
        decreases *old(self), 0nat,
    {
        match self {
            InstructionKind::Token(t) => t.purge(id),
            InstructionKind::Wait(v) => v.purge(id),
            InstructionKind::Return(v) => v.purge(id),
            InstructionKind::WhenBatteryDischargedTo(v) => v.purge(id),
            InstructionKind::WhenBatteryChargedTo(v) => v.purge(id),
            InstructionKind::SetVariable(_, v) => v.purge(id),
            InstructionKind::ChangeVariable(_, v) => v.purge(id),
            InstructionKind::AddToList { value, .. } => value.purge(id),
            InstructionKind::InsertIntoList { value, index, .. } => {
                value.purge(id);
                index.purge(id);
            },
            InstructionKind::DeleteOfList { index, .. } => index.purge(id),
            InstructionKind::ShiftList { amount, .. } => amount.purge(id),
            InstructionKind::ReplaceItemOfList { index, value, .. } => {
                index.purge(id);
                value.purge(id);
            },
            InstructionKind::CallBlock { args, branches, .. } => {
                purge_values(args, id);
                purge_branches(branches, id);
            },
            InstructionKind::If { condition, body } => {
                condition.purge(id);
                purge_instrs(body, id);
            },
            InstructionKind::IfElse { condition, then_body, else_body } => {
                condition.purge(id);
                purge_instrs(then_body, id);
                purge_instrs(else_body, id);
            },
            InstructionKind::Repeat { count, body } => {
                count.purge(id);
                purge_instrs(body, id);
            },
            InstructionKind::Forever { body } => purge_instrs(body, id),
            InstructionKind::While { condition, body } => {
                condition.purge(id);
                purge_instrs(body, id);
            },
            _ => {},
        }
    }
}

/// Whether `v` reaches block `id` at a position the whole-tree edits
/// visit: a command call of it in a nested branch, or, when `values` is
/// set, a value call of it too.
pub open spec fn value_reaches(v: ValueV, id: Seq<char>, values: bool) -> bool
    decreases v,
{
    match v {
        ValueV::Op(_, args, saved) => values_reach(args, id, values) || value_reaches(*saved, id, values),
        ValueV::Call(c, args, branches, saved) => {
            (values && c == id) || values_reach(args, id, values) || branches_reach(branches, id, values)
                || value_reaches(*saved, id, values)
        },
        _ => false,
    }
}

pub open spec fn values_reach(s: Seq<ValueV>, id: Seq<char>, values: bool) -> bool
    decreases s,
{
    s.len() > 0 && (values_reach(s.subrange(0, s.len() - 1), id, values) || value_reaches(s[s.len() - 1], id, values))
}

pub open spec fn branches_reach(s: Seq<Seq<InstructionV>>, id: Seq<char>, values: bool) -> bool
    decreases s,
{
    s.len() > 0 && (branches_reach(s.subrange(0, s.len() - 1), id, values) || instrs_reach(s[s.len() - 1], id, values))
}

/// Whether an instruction list reaches block `id`: a command call of it at
/// any depth, or, when `values` is set, a value call of it at a position
/// the whole-tree edits visit.
pub open spec fn instrs_reach(s: Seq<InstructionV>, id: Seq<char>, values: bool) -> bool
    decreases s,
{
    s.len() > 0 && {
        let x = s[s.len() - 1];
        instrs_reach(s.subrange(0, s.len() - 1), id, values) || calls_block(x, id) || kind_reaches(x.kind, id, values)
    }
}

pub open spec fn token_reaches(t: TokenV, id: Seq<char>, values: bool) -> bool
    decreases t,
{
    match t {
        TokenV::Text(v) => value_reaches(v, id, values),
        TokenV::MoveMouse(x, y, _) => value_reaches(x, id, values) || value_reaches(y, id, values),
        TokenV::Scroll(v) => value_reaches(v, id, values),
        _ => false,
    }
}

pub open spec fn kind_reaches(k: KindV, id: Seq<char>, values: bool) -> bool
    decreases k,
{
    match k {
        KindV::Token(t) => token_reaches(t, id, values),
        KindV::Wait(v) => value_reaches(v, id, values),
        KindV::WhenBatteryDischargedTo(v) => value_reaches(v, id, values),
        KindV::WhenBatteryChargedTo(v) => value_reaches(v, id, values),
        KindV::Return(v) => value_reaches(v, id, values),
        KindV::SetVariable(_, v) => value_reaches(v, id, values),
        KindV::ChangeVariable(_, v) => value_reaches(v, id, values),
        KindV::AddToList { value, .. } => value_reaches(value, id, values),
        KindV::InsertIntoList { value, index, .. } => value_reaches(value, id, values) || value_reaches(index, id, values),
        KindV::DeleteOfList { index, .. } => value_reaches(index, id, values),
        KindV::ShiftList { amount, .. } => value_reaches(amount, id, values),
        KindV::ReplaceItemOfList { index, value, .. } => value_reaches(index, id, values) || value_reaches(value, id, values),
        KindV::CallBlock { args, branches, .. } => values_reach(args, id, values) || branches_reach(branches, id, values),
        KindV::If { condition, body } => value_reaches(condition, id, values) || instrs_reach(body, id, values),
        KindV::IfElse { condition, then_body, else_body } => {
            value_reaches(condition, id, values) || instrs_reach(then_body, id, values) || instrs_reach(else_body, id, values)
        },
        KindV::Repeat { count, body } => value_reaches(count, id, values) || instrs_reach(body, id, values),
        KindV::Forever { body } => instrs_reach(body, id, values),
        KindV::While { condition, body } => value_reaches(condition, id, values) || instrs_reach(body, id, values),
        _ => false,
    }
}

// ---------------------------------------------------------------------
// Purging leaves no command call; scrubbing then leaves no call at all
// ---------------------------------------------------------------------

pub proof fn lemma_purged_value_clean(v: ValueV, id: Seq<char>)
    ensures
        !value_reaches(purged_value(v, id), id, false),
    decreases v,
{
    match v {
        ValueV::Op(_, args, saved) => {
            lemma_purged_values_clean(args, id);
            lemma_purged_value_clean(*saved, id);
        },
        ValueV::Call(_, args, branches, saved) => {
            lemma_purged_values_clean(args, id);
            lemma_purged_branches_clean(branches, id);
            lemma_purged_value_clean(*saved, id);
        },
        _ => {},
    }
}

proof fn lemma_purged_values_clean(s: Seq<ValueV>, id: Seq<char>)
    ensures
        !values_reach(purged_values(s, id), id, false),
    decreases s,
{
    broadcast use lemma_purged_values;

    if s.len() > 0 {
        let n = s.len() - 1;
        assert(purged_values(s, id).subrange(0, n) =~= purged_values(s.subrange(0, n), id));
        lemma_purged_values_clean(s.subrange(0, n), id);
        lemma_purged_value_clean(s[n], id);
    }
}

proof fn lemma_purged_branches_clean(s: Seq<Seq<InstructionV>>, id: Seq<char>)
    ensures
        !branches_reach(purged_branches(s, id), id, false),
    decreases s,
{
    broadcast use lemma_purged_branches;

    if s.len() > 0 {
        let n = s.len() - 1;
        assert(purged_branches(s, id).subrange(0, n) =~= purged_branches(s.subrange(0, n), id));
        lemma_purged_branches_clean(s.subrange(0, n), id);
        lemma_purged_instrs_clean(s[n], id);
    }
}

pub proof fn lemma_purged_instrs_clean(s: Seq<InstructionV>, id: Seq<char>)
    ensures
        !instrs_reach(purged_instrs(s, id), id, false),
    decreases s,
{
    if s.len() > 0 {
        let n = s.len() - 1;
        let x = s[n];
        let rest = purged_instrs(s.subrange(0, n), id);
        lemma_purged_instrs_clean(s.subrange(0, n), id);
        if !calls_block(x, id) {
            let y = InstructionV { id: x.id, kind: purged_kind(x.kind, id) };
            lemma_purged_kind_clean(x.kind, id);
            assert(!calls_block(y, id));
            let r = rest.push(y);
            assert(r.subrange(0, rest.len() as int) =~= rest);
            assert(r[rest.len() as int] == y);
        }
    }
}

proof fn lemma_purged_token_clean(t: TokenV, id: Seq<char>)
    ensures
        !token_reaches(purged_token(t, id), id, false),
    decreases t,
{
    match t {
        TokenV::Text(v) => lemma_purged_value_clean(v, id),
        TokenV::MoveMouse(x, y, _) => {
            lemma_purged_value_clean(x, id);
            lemma_purged_value_clean(y, id);
        },
        TokenV::Scroll(v) => lemma_purged_value_clean(v, id),
        _ => {},
    }
}

proof fn lemma_purged_kind_clean(k: KindV, id: Seq<char>)
    ensures
        !kind_reaches(purged_kind(k, id), id, false),
    decreases k,
{
    match k {
        KindV::Token(t) => lemma_purged_token_clean(t, id),
        KindV::Wait(v) => lemma_purged_value_clean(v, id),
        KindV::WhenBatteryDischargedTo(v) => lemma_purged_value_clean(v, id),
        KindV::WhenBatteryChargedTo(v) => lemma_purged_value_clean(v, id),
        KindV::Return(v) => lemma_purged_value_clean(v, id),
        KindV::SetVariable(_, v) => lemma_purged_value_clean(v, id),
        KindV::ChangeVariable(_, v) => lemma_purged_value_clean(v, id),
        KindV::AddToList { value, .. } => lemma_purged_value_clean(value, id),
        KindV::InsertIntoList { value, index, .. } => {
            lemma_purged_value_clean(value, id);
            lemma_purged_value_clean(index, id);
        },
        KindV::DeleteOfList { index, .. } => lemma_purged_value_clean(index, id),
        KindV::ShiftList { amount, .. } => lemma_purged_value_clean(amount, id),
        KindV::ReplaceItemOfList { index, value, .. } => {
            lemma_purged_value_clean(index, id);
            lemma_purged_value_clean(value, id);
        },
        KindV::CallBlock { args, branches, .. } => {
            lemma_purged_values_clean(args, id);
            lemma_purged_branches_clean(branches, id);
        },
        KindV::If { condition, body } => {
            lemma_purged_value_clean(condition, id);
            lemma_purged_instrs_clean(body, id);
        },
        KindV::IfElse { condition, then_body, else_body } => {
            lemma_purged_value_clean(condition, id);
            lemma_purged_instrs_clean(then_body, id);
            lemma_purged_instrs_clean(else_body, id);
        },
        KindV::Repeat { count, body } => {
            lemma_purged_value_clean(count, id);
            lemma_purged_instrs_clean(body, id);
        },
        KindV::Forever { body } => lemma_purged_instrs_clean(body, id),
        KindV::While { condition, body } => {
            lemma_purged_value_clean(condition, id);
            lemma_purged_instrs_clean(body, id);
        },
        _ => {},
    }
}

pub proof fn lemma_scrubbed_value_clean(v: ValueV, id: Seq<char>, b: bool)
    requires
        !value_reaches(v, id, false),
    ensures
        !value_reaches(rw_value(v, Edit::ScrubCalls(id), b), id, true),
    decreases v,
{
    match v {
        ValueV::Op(op, args, saved) => {
            lemma_scrubbed_values_clean(args, id, op.spec_takes_bool_operands());
            lemma_scrubbed_value_clean(*saved, id, b);
        },
        ValueV::Call(c, args, branches, saved) => {
            if c != id {
                lemma_scrubbed_values_clean(args, id, false);
                lemma_scrubbed_branches_clean(branches, id);
                lemma_scrubbed_value_clean(*saved, id, b);
            }
        },
        _ => {},
    }
}

proof fn lemma_scrubbed_values_clean(s: Seq<ValueV>, id: Seq<char>, b: bool)
    requires
        !values_reach(s, id, false),
    ensures
        !values_reach(rw_values(s, Edit::ScrubCalls(id), b), id, true),
    decreases s,
{
    broadcast use group_rewrite;

    if s.len() > 0 {
        let n = s.len() - 1;
        assert(rw_values(s, Edit::ScrubCalls(id), b).subrange(0, n) =~= rw_values(s.subrange(0, n), Edit::ScrubCalls(id), b));
        lemma_scrubbed_values_clean(s.subrange(0, n), id, b);
        lemma_scrubbed_value_clean(s[n], id, b);
    }
}

proof fn lemma_scrubbed_branches_clean(s: Seq<Seq<InstructionV>>, id: Seq<char>)
    requires
        !branches_reach(s, id, false),
    ensures
        !branches_reach(rw_branches(s, Edit::ScrubCalls(id)), id, true),
    decreases s,
{
    broadcast use group_rewrite;

    if s.len() > 0 {
        let n = s.len() - 1;
        assert(rw_branches(s, Edit::ScrubCalls(id)).subrange(0, n) =~= rw_branches(s.subrange(0, n), Edit::ScrubCalls(id)));
        lemma_scrubbed_branches_clean(s.subrange(0, n), id);
        lemma_scrubbed_instrs_clean(s[n], id);
    }
}

pub proof fn lemma_scrubbed_instrs_clean(s: Seq<InstructionV>, id: Seq<char>)
    requires
        !instrs_reach(s, id, false),
    ensures
        !instrs_reach(rw_instrs(s, Edit::ScrubCalls(id)), id, true),
    decreases s,
{
    broadcast use group_rewrite;

    if s.len() > 0 {
        let n = s.len() - 1;
        assert(rw_instrs(s, Edit::ScrubCalls(id)).subrange(0, n) =~= rw_instrs(s.subrange(0, n), Edit::ScrubCalls(id)));
        lemma_scrubbed_instrs_clean(s.subrange(0, n), id);
        lemma_scrubbed_kind_clean(s[n].kind, id);
    }
}

proof fn lemma_scrubbed_token_clean(t: TokenV, id: Seq<char>)
    requires
        !token_reaches(t, id, false),
    ensures
        !token_reaches(rw_token(t, Edit::ScrubCalls(id)), id, true),
    decreases t,
{
    match t {
        TokenV::Text(v) => lemma_scrubbed_value_clean(v, id, false),
        TokenV::MoveMouse(x, y, _) => {
            lemma_scrubbed_value_clean(x, id, false);
            lemma_scrubbed_value_clean(y, id, false);
        },
        TokenV::Scroll(v) => lemma_scrubbed_value_clean(v, id, false),
        _ => {},
    }
}

proof fn lemma_scrubbed_kind_clean(k: KindV, id: Seq<char>)
    requires
        !kind_reaches(k, id, false),
    ensures
        !kind_reaches(rw_kind(k, Edit::ScrubCalls(id)), id, true),
        (rw_kind(k, Edit::ScrubCalls(id)) is CallBlock) == (k is CallBlock),
        k is CallBlock ==> rw_kind(k, Edit::ScrubCalls(id))->CallBlock_block_id == k->CallBlock_block_id,
    decreases k,
{
    match k {
        KindV::Token(t) => lemma_scrubbed_token_clean(t, id),
        KindV::Wait(v) => lemma_scrubbed_value_clean(v, id, false),
        KindV::WhenBatteryDischargedTo(v) => lemma_scrubbed_value_clean(v, id, false),
        KindV::WhenBatteryChargedTo(v) => lemma_scrubbed_value_clean(v, id, false),
        KindV::Return(v) => lemma_scrubbed_value_clean(v, id, false),
        KindV::SetVariable(_, v) => lemma_scrubbed_value_clean(v, id, false),
        KindV::ChangeVariable(_, v) => lemma_scrubbed_value_clean(v, id, false),
        KindV::AddToList { value, .. } => lemma_scrubbed_value_clean(value, id, false),
        KindV::InsertIntoList { value, index, .. } => {
            lemma_scrubbed_value_clean(value, id, false);
            lemma_scrubbed_value_clean(index, id, false);
        },
        KindV::DeleteOfList { index, .. } => lemma_scrubbed_value_clean(index, id, false),
        KindV::ShiftList { amount, .. } => lemma_scrubbed_value_clean(amount, id, false),
        KindV::ReplaceItemOfList { index, value, .. } => {
            lemma_scrubbed_value_clean(index, id, false);
            lemma_scrubbed_value_clean(value, id, false);
        },
        KindV::CallBlock { args, branches, .. } => {
            lemma_scrubbed_values_clean(args, id, false);
            lemma_scrubbed_branches_clean(branches, id);
        },
        KindV::If { condition, body } => {
            lemma_scrubbed_value_clean(condition, id, true);
            lemma_scrubbed_instrs_clean(body, id);
        },
        KindV::IfElse { condition, then_body, else_body } => {
            lemma_scrubbed_value_clean(condition, id, true);
            lemma_scrubbed_instrs_clean(then_body, id);
            lemma_scrubbed_instrs_clean(else_body, id);
        },
        KindV::Repeat { count, body } => {
            lemma_scrubbed_value_clean(count, id, false);
            lemma_scrubbed_instrs_clean(body, id);
        },
        KindV::Forever { body } => lemma_scrubbed_instrs_clean(body, id),
        KindV::While { condition, body } => {
            lemma_scrubbed_value_clean(condition, id, true);
            lemma_scrubbed_instrs_clean(body, id);
        },
        _ => {},
    }
}

} // verus!
