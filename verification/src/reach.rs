//! What is found at every depth of a program, written out position by
//! position on its own rather than through the edits: the call sites of a
//! custom block, the `RunBranch` markers, and the instructions themselves.
//! The lemmas here relate the edits and walks to these.
use vstd::prelude::*;
use crate::edit::{group_rewrite, rebuilt_args, rw_branches, rw_instrs, rw_kind, rw_token, rw_value, rw_values, ArgSlot, Edit};
use crate::program::{InstructionV, KindV, TokenV, ValueV};
use crate::slots::{group_slot_edit, se_branches, se_instrs, se_kind, SlotEdit};
use crate::walk::{ids_in, ids_in_branches, ids_in_kind};

verus! {

// ---------------------------------------------------------------------
// Call sites of a custom block
// ---------------------------------------------------------------------

/// The argument lists of the calls of block `id` in `v`, in document
/// order. The arguments of such a call are not searched further; its
/// branches are when `deep` holds.
pub open spec fn value_calls(v: ValueV, id: Seq<char>, deep: bool) -> Seq<Seq<ValueV>>
    decreases v,
{
    match v {
        ValueV::Op(_, args, saved) => values_calls(args, id, deep) + value_calls(*saved, id, deep),
        ValueV::Call(c, args, branches, saved) => if c == id {
            seq![args] + (if deep { branches_calls(branches, id, deep) } else { Seq::empty() }) + value_calls(
                *saved,
                id,
                deep,
            )
        } else {
            values_calls(args, id, deep) + branches_calls(branches, id, deep) + value_calls(*saved, id, deep)
        },
        _ => Seq::empty(),
    }
}

pub open spec fn values_calls(s: Seq<ValueV>, id: Seq<char>, deep: bool) -> Seq<Seq<ValueV>>
    decreases s,
{
    if s.len() == 0 {
        Seq::empty()
    } else {
        values_calls(s.subrange(0, s.len() - 1), id, deep) + value_calls(s[s.len() - 1], id, deep)
    }
}

pub open spec fn branches_calls(s: Seq<Seq<InstructionV>>, id: Seq<char>, deep: bool) -> Seq<Seq<ValueV>>
    decreases s,
{
    if s.len() == 0 {
        Seq::empty()
    } else {
        branches_calls(s.subrange(0, s.len() - 1), id, deep) + instrs_calls(s[s.len() - 1], id, deep)
    }
}

/// The argument lists of the calls of block `id` (`CallBlock`
/// instructions and `Call` values) anywhere in an instruction list: in
/// every value field, operand and saved placeholder, every nested body and
/// every call branch (those of the calls of `id` themselves when `deep`
/// holds), in document order.
pub open spec fn instrs_calls(s: Seq<InstructionV>, id: Seq<char>, deep: bool) -> Seq<Seq<ValueV>>
    decreases s,
{
    if s.len() == 0 {
        Seq::empty()
    } else {
        instrs_calls(s.subrange(0, s.len() - 1), id, deep) + kind_calls(s[s.len() - 1].kind, id, deep)
    }
}

pub open spec fn token_calls(t: TokenV, id: Seq<char>, deep: bool) -> Seq<Seq<ValueV>>
    decreases t,
{
    match t {
        TokenV::Text(v) => value_calls(v, id, deep),
        TokenV::MoveMouse(x, y, _) => value_calls(x, id, deep) + value_calls(y, id, deep),
        TokenV::Scroll(v) => value_calls(v, id, deep),
        _ => Seq::empty(),
    }
}

pub open spec fn kind_calls(k: KindV, id: Seq<char>, deep: bool) -> Seq<Seq<ValueV>>
    decreases k,
{
    match k {
        KindV::Token(t) => token_calls(t, id, deep),
        KindV::Wait(v) => value_calls(v, id, deep),
        KindV::WhenBatteryDischargedTo(v) => value_calls(v, id, deep),
        KindV::WhenBatteryChargedTo(v) => value_calls(v, id, deep),
        KindV::Return(v) => value_calls(v, id, deep),
        KindV::SetVariable(_, v) => value_calls(v, id, deep),
        KindV::ChangeVariable(_, v) => value_calls(v, id, deep),
        KindV::AddToList { value, .. } => value_calls(value, id, deep),
        KindV::InsertIntoList { value, index, .. } => value_calls(value, id, deep) + value_calls(index, id, deep),
        KindV::DeleteOfList { index, .. } => value_calls(index, id, deep),
        KindV::ShiftList { amount, .. } => value_calls(amount, id, deep),
        KindV::ReplaceItemOfList { index, value, .. } => value_calls(index, id, deep) + value_calls(value, id, deep),
        KindV::CallBlock { block_id, args, branches } => if block_id == id {
            seq![args] + (if deep { branches_calls(branches, id, deep) } else { Seq::empty() })
        } else {
            values_calls(args, id, deep) + branches_calls(branches, id, deep)
        },
        KindV::If { condition, body } => value_calls(condition, id, deep) + instrs_calls(body, id, deep),
        KindV::IfElse { condition, then_body, else_body } => value_calls(condition, id, deep) + instrs_calls(
            then_body,
            id,
            deep,
        ) + instrs_calls(else_body, id, deep),
        KindV::Repeat { count, body } => value_calls(count, id, deep) + instrs_calls(body, id, deep),
        KindV::Forever { body } => instrs_calls(body, id, deep),
        KindV::While { condition, body } => value_calls(condition, id, deep) + instrs_calls(body, id, deep),
        _ => Seq::empty(),
    }
}

/// Each argument list realigned to `plan`, the arguments themselves
/// rebuilt first.
pub open spec fn rebuilt_calls(cs: Seq<Seq<ValueV>>, id: Seq<char>, plan: Seq<ArgSlot>) -> Seq<Seq<ValueV>> {
    Seq::new(cs.len(), |i: int| rebuilt_args(rw_values(cs[i], Edit::RebuildArgs(id, plan), false), plan))
}

proof fn lemma_rebuilt_concat(a: Seq<Seq<ValueV>>, b: Seq<Seq<ValueV>>, id: Seq<char>, plan: Seq<ArgSlot>)
    ensures
        rebuilt_calls(a + b, id, plan) == rebuilt_calls(a, id, plan) + rebuilt_calls(b, id, plan),
{
    assert(rebuilt_calls(a + b, id, plan) =~= rebuilt_calls(a, id, plan) + rebuilt_calls(b, id, plan));
}

proof fn lemma_rebuilt_empty(id: Seq<char>, plan: Seq<ArgSlot>)
    ensures
        rebuilt_calls(Seq::empty(), id, plan) == Seq::<Seq<ValueV>>::empty(),
{
    assert(rebuilt_calls(Seq::empty(), id, plan) =~= Seq::<Seq<ValueV>>::empty());
}

proof fn lemma_rebuilt_one(a: Seq<ValueV>, id: Seq<char>, plan: Seq<ArgSlot>)
    ensures
        rebuilt_calls(seq![a], id, plan) == seq![
            rebuilt_args(rw_values(a, Edit::RebuildArgs(id, plan), false), plan),
        ],
{
    assert(rebuilt_calls(seq![a], id, plan) =~= seq![
        rebuilt_args(rw_values(a, Edit::RebuildArgs(id, plan), false), plan),
    ]);
}

/// Rebuilding the calls of `id` rebuilds each of them where it stands.
pub proof fn lemma_calls_rebuilt_value(v: ValueV, id: Seq<char>, plan: Seq<ArgSlot>, deep: bool, b: bool)
    ensures
        value_calls(rw_value(v, Edit::RebuildArgs(id, plan), b), id, deep) == rebuilt_calls(
            value_calls(v, id, deep),
            id,
            plan,
        ),
    decreases v,
{
    match v {
        ValueV::Op(op, args, saved) => {
            lemma_calls_rebuilt_values(args, id, plan, deep, op.spec_takes_bool_operands());
            lemma_calls_rebuilt_value(*saved, id, plan, deep, b);
            lemma_rebuilt_concat(values_calls(args, id, deep), value_calls(*saved, id, deep), id, plan);
        },
        ValueV::Call(c, args, branches, saved) => {
            lemma_calls_rebuilt_values(args, id, plan, deep, false);
            lemma_calls_rebuilt_branches(branches, id, plan, deep);
            lemma_calls_rebuilt_value(*saved, id, plan, deep, b);
            let sc = value_calls(*saved, id, deep);
            if c == id {
                let bc = if deep { branches_calls(branches, id, deep) } else { Seq::empty() };
                lemma_rebuilt_empty(id, plan);
                lemma_rebuilt_one(args, id, plan);
                lemma_rebuilt_concat(seq![args], bc, id, plan);
                lemma_rebuilt_concat(seq![args] + bc, sc, id, plan);
            } else {
                let ac = values_calls(args, id, deep);
                let bc = branches_calls(branches, id, deep);
                lemma_rebuilt_concat(ac, bc, id, plan);
                lemma_rebuilt_concat(ac + bc, sc, id, plan);
            }
        },
        _ => lemma_rebuilt_empty(id, plan),
    }
}

proof fn lemma_calls_rebuilt_values(s: Seq<ValueV>, id: Seq<char>, plan: Seq<ArgSlot>, deep: bool, b: bool)
    ensures
        values_calls(rw_values(s, Edit::RebuildArgs(id, plan), b), id, deep) == rebuilt_calls(
            values_calls(s, id, deep),
            id,
            plan,
        ),
    decreases s,
{
    broadcast use group_rewrite;

    let e = Edit::RebuildArgs(id, plan);
    let r = rw_values(s, e, b);
    if s.len() == 0 {
        lemma_rebuilt_empty(id, plan);
    } else {
        let n = s.len() - 1;
        assert(r.subrange(0, n) =~= rw_values(s.subrange(0, n), e, b));
        assert(r[n] == rw_value(s[n], e, b));
        lemma_calls_rebuilt_values(s.subrange(0, n), id, plan, deep, b);
        lemma_calls_rebuilt_value(s[n], id, plan, deep, b);
        lemma_rebuilt_concat(values_calls(s.subrange(0, n), id, deep), value_calls(s[n], id, deep), id, plan);
    }
}

proof fn lemma_calls_rebuilt_branches(s: Seq<Seq<InstructionV>>, id: Seq<char>, plan: Seq<ArgSlot>, deep: bool)
    ensures
        branches_calls(rw_branches(s, Edit::RebuildArgs(id, plan)), id, deep) == rebuilt_calls(
            branches_calls(s, id, deep),
            id,
            plan,
        ),
    decreases s,
{
    broadcast use group_rewrite;

    let e = Edit::RebuildArgs(id, plan);
    let r = rw_branches(s, e);
    if s.len() == 0 {
        lemma_rebuilt_empty(id, plan);
    } else {
        let n = s.len() - 1;
        assert(r.subrange(0, n) =~= rw_branches(s.subrange(0, n), e));
        assert(r[n] == rw_instrs(s[n], e));
        lemma_calls_rebuilt_branches(s.subrange(0, n), id, plan, deep);
        lemma_calls_rebuilt_instrs(s[n], id, plan, deep);
        lemma_rebuilt_concat(branches_calls(s.subrange(0, n), id, deep), instrs_calls(s[n], id, deep), id, plan);
    }
}

/// Rebuilding the calls of `id` through an instruction list rebuilds every
/// one of them, at every depth, and nothing else changes their order.
pub proof fn lemma_calls_rebuilt_instrs(s: Seq<InstructionV>, id: Seq<char>, plan: Seq<ArgSlot>, deep: bool)
    ensures
        instrs_calls(rw_instrs(s, Edit::RebuildArgs(id, plan)), id, deep) == rebuilt_calls(
            instrs_calls(s, id, deep),
            id,
            plan,
        ),
    decreases s,
{
    broadcast use group_rewrite;

    let e = Edit::RebuildArgs(id, plan);
    let r = rw_instrs(s, e);
    if s.len() == 0 {
        lemma_rebuilt_empty(id, plan);
    } else {
        let n = s.len() - 1;
        assert(r.subrange(0, n) =~= rw_instrs(s.subrange(0, n), e));
        assert(r[n].kind == rw_kind(s[n].kind, e));
        lemma_calls_rebuilt_instrs(s.subrange(0, n), id, plan, deep);
        lemma_calls_rebuilt_kind(s[n].kind, id, plan, deep);
        lemma_rebuilt_concat(instrs_calls(s.subrange(0, n), id, deep), kind_calls(s[n].kind, id, deep), id, plan);
    }
}

pub proof fn lemma_calls_rebuilt_token(t: TokenV, id: Seq<char>, plan: Seq<ArgSlot>, deep: bool)
    ensures
        token_calls(rw_token(t, Edit::RebuildArgs(id, plan)), id, deep) == rebuilt_calls(
            token_calls(t, id, deep),
            id,
            plan,
        ),
    decreases t,
{
    match t {
        TokenV::Text(v) => lemma_calls_rebuilt_value(v, id, plan, deep, false),
        TokenV::MoveMouse(x, y, _) => {
            lemma_calls_rebuilt_value(x, id, plan, deep, false);
            lemma_calls_rebuilt_value(y, id, plan, deep, false);
            lemma_rebuilt_concat(value_calls(x, id, deep), value_calls(y, id, deep), id, plan);
        },
        TokenV::Scroll(v) => lemma_calls_rebuilt_value(v, id, plan, deep, false),
        _ => lemma_rebuilt_empty(id, plan),
    }
}

pub proof fn lemma_calls_rebuilt_kind(k: KindV, id: Seq<char>, plan: Seq<ArgSlot>, deep: bool)
    ensures
        kind_calls(rw_kind(k, Edit::RebuildArgs(id, plan)), id, deep) == rebuilt_calls(
            kind_calls(k, id, deep),
            id,
            plan,
        ),
    decreases k,
{
    match k {
        KindV::Token(t) => lemma_calls_rebuilt_token(t, id, plan, deep),
        KindV::Wait(v) => lemma_calls_rebuilt_value(v, id, plan, deep, false),
        KindV::WhenBatteryDischargedTo(v) => lemma_calls_rebuilt_value(v, id, plan, deep, false),
        KindV::WhenBatteryChargedTo(v) => lemma_calls_rebuilt_value(v, id, plan, deep, false),
        KindV::Return(v) => lemma_calls_rebuilt_value(v, id, plan, deep, false),
        KindV::SetVariable(_, v) => lemma_calls_rebuilt_value(v, id, plan, deep, false),
        KindV::ChangeVariable(_, v) => lemma_calls_rebuilt_value(v, id, plan, deep, false),
        KindV::AddToList { value, .. } => lemma_calls_rebuilt_value(value, id, plan, deep, false),
        KindV::InsertIntoList { value, index, .. } => {
            lemma_calls_rebuilt_value(value, id, plan, deep, false);
            lemma_calls_rebuilt_value(index, id, plan, deep, false);
            lemma_rebuilt_concat(value_calls(value, id, deep), value_calls(index, id, deep), id, plan);
        },
        KindV::DeleteOfList { index, .. } => lemma_calls_rebuilt_value(index, id, plan, deep, false),
        KindV::ShiftList { amount, .. } => lemma_calls_rebuilt_value(amount, id, plan, deep, false),
        KindV::ReplaceItemOfList { index, value, .. } => {
            lemma_calls_rebuilt_value(index, id, plan, deep, false);
            lemma_calls_rebuilt_value(value, id, plan, deep, false);
            lemma_rebuilt_concat(value_calls(index, id, deep), value_calls(value, id, deep), id, plan);
        },
        KindV::CallBlock { block_id, args, branches } => {
            lemma_calls_rebuilt_values(args, id, plan, deep, false);
            lemma_calls_rebuilt_branches(branches, id, plan, deep);
            if block_id == id {
                let bc = if deep { branches_calls(branches, id, deep) } else { Seq::empty() };
                lemma_rebuilt_empty(id, plan);
                lemma_rebuilt_one(args, id, plan);
                lemma_rebuilt_concat(seq![args], bc, id, plan);
            } else {
                lemma_rebuilt_concat(values_calls(args, id, deep), branches_calls(branches, id, deep), id, plan);
            }
        },
        KindV::If { condition, body } => {
            lemma_calls_rebuilt_value(condition, id, plan, deep, true);
            lemma_calls_rebuilt_instrs(body, id, plan, deep);
            lemma_rebuilt_concat(value_calls(condition, id, deep), instrs_calls(body, id, deep), id, plan);
        },
        KindV::IfElse { condition, then_body, else_body } => {
            lemma_calls_rebuilt_value(condition, id, plan, deep, true);
            lemma_calls_rebuilt_instrs(then_body, id, plan, deep);
            lemma_calls_rebuilt_instrs(else_body, id, plan, deep);
            let cc = value_calls(condition, id, deep);
            let tc = instrs_calls(then_body, id, deep);
            lemma_rebuilt_concat(cc, tc, id, plan);
            lemma_rebuilt_concat(cc + tc, instrs_calls(else_body, id, deep), id, plan);
        },
        KindV::Repeat { count, body } => {
            lemma_calls_rebuilt_value(count, id, plan, deep, false);
            lemma_calls_rebuilt_instrs(body, id, plan, deep);
            lemma_rebuilt_concat(value_calls(count, id, deep), instrs_calls(body, id, deep), id, plan);
        },
        KindV::Forever { body } => lemma_calls_rebuilt_instrs(body, id, plan, deep),
        KindV::While { condition, body } => {
            lemma_calls_rebuilt_value(condition, id, plan, deep, true);
            lemma_calls_rebuilt_instrs(body, id, plan, deep);
            lemma_rebuilt_concat(value_calls(condition, id, deep), instrs_calls(body, id, deep), id, plan);
        },
        _ => lemma_rebuilt_empty(id, plan),
    }
}

/// Realigning the branches of the calls of `id` leaves every call's
/// arguments where they were, when the branches of those calls are not
/// searched.
pub proof fn lemma_calls_kept_by_branch_realign(s: Seq<InstructionV>, id: Seq<char>, plan: Seq<Option<usize>>)
    ensures
        instrs_calls(se_instrs(s, SlotEdit::RebuildBranches(id, plan)), id, false) == instrs_calls(s, id, false),
    decreases s,
{
    broadcast use group_slot_edit;

    let e = SlotEdit::RebuildBranches(id, plan);
    let r = se_instrs(s, e);
    if s.len() > 0 {
        let n = s.len() - 1;
        assert(r.subrange(0, n) =~= se_instrs(s.subrange(0, n), e));
        assert(r[n].kind == se_kind(s[n].kind, e));
        lemma_calls_kept_by_branch_realign(s.subrange(0, n), id, plan);
        lemma_calls_kept_kind(s[n].kind, id, plan);
    }
}

proof fn lemma_calls_kept_branches(s: Seq<Seq<InstructionV>>, id: Seq<char>, plan: Seq<Option<usize>>)
    ensures
        branches_calls(se_branches(s, SlotEdit::RebuildBranches(id, plan)), id, false) == branches_calls(s, id, false),
    decreases s,
{
    broadcast use group_slot_edit;

    let e = SlotEdit::RebuildBranches(id, plan);
    let r = se_branches(s, e);
    if s.len() > 0 {
        let n = s.len() - 1;
        assert(r.subrange(0, n) =~= se_branches(s.subrange(0, n), e));
        assert(r[n] == se_instrs(s[n], e));
        lemma_calls_kept_branches(s.subrange(0, n), id, plan);
        lemma_calls_kept_by_branch_realign(s[n], id, plan);
    }
}

proof fn lemma_calls_kept_kind(k: KindV, id: Seq<char>, plan: Seq<Option<usize>>)
    ensures
        kind_calls(se_kind(k, SlotEdit::RebuildBranches(id, plan)), id, false) == kind_calls(k, id, false),
    decreases k,
{
    match k {
        KindV::CallBlock { block_id, args, branches } => {
            if block_id != id {
                lemma_calls_kept_branches(branches, id, plan);
            }
        },
        KindV::If { body, .. } => lemma_calls_kept_by_branch_realign(body, id, plan),
        KindV::IfElse { then_body, else_body, .. } => {
            lemma_calls_kept_by_branch_realign(then_body, id, plan);
            lemma_calls_kept_by_branch_realign(else_body, id, plan);
        },
        KindV::Repeat { body, .. } => lemma_calls_kept_by_branch_realign(body, id, plan),
        KindV::Forever { body } => lemma_calls_kept_by_branch_realign(body, id, plan),
        KindV::While { body, .. } => lemma_calls_kept_by_branch_realign(body, id, plan),
        _ => {},
    }
}

// ---------------------------------------------------------------------
// `RunBranch` markers
// ---------------------------------------------------------------------

/// Whether a `RunBranch(n)` marker stands anywhere in the list: at its top
/// level, in a nested body or in a branch of a `CallBlock`.
pub open spec fn instrs_run(s: Seq<InstructionV>, n: Seq<char>) -> bool
    decreases s,
{
    s.len() > 0 && (instrs_run(s.subrange(0, s.len() - 1), n) || kind_runs(s[s.len() - 1].kind, n))
}

pub open spec fn branches_run(s: Seq<Seq<InstructionV>>, n: Seq<char>) -> bool
    decreases s,
{
    s.len() > 0 && (branches_run(s.subrange(0, s.len() - 1), n) || instrs_run(s[s.len() - 1], n))
}

pub open spec fn kind_runs(k: KindV, n: Seq<char>) -> bool
    decreases k,
{
    match k {
        KindV::RunBranch(m) => m == n,
        KindV::CallBlock { branches, .. } => branches_run(branches, n),
        KindV::If { body, .. } => instrs_run(body, n),
        KindV::IfElse { then_body, else_body, .. } => instrs_run(then_body, n) || instrs_run(else_body, n),
        KindV::Repeat { body, .. } => instrs_run(body, n),
        KindV::Forever { body } => instrs_run(body, n),
        KindV::While { body, .. } => instrs_run(body, n),
        _ => false,
    }
}

/// After renaming branch `from` to `to`, a marker of `m` stands somewhere
/// exactly when one of `m` other than `from` stood there before, or `m` is
/// `to` and one of `from` did.
pub proof fn lemma_run_renamed(s: Seq<InstructionV>, from: Seq<char>, to: Seq<char>, m: Seq<char>)
    ensures
        instrs_run(se_instrs(s, SlotEdit::RenameBranch(from, to)), m) == ((m != from && instrs_run(s, m)) || (m
            == to && instrs_run(s, from))),
    decreases s,
{
    broadcast use group_slot_edit;

    let e = SlotEdit::RenameBranch(from, to);
    let r = se_instrs(s, e);
    if s.len() > 0 {
        let n = s.len() - 1;
        assert(r.subrange(0, n) =~= se_instrs(s.subrange(0, n), e));
        assert(r[n].kind == se_kind(s[n].kind, e));
        lemma_run_renamed(s.subrange(0, n), from, to, m);
        lemma_run_renamed_kind(s[n].kind, from, to, m);
    }
}

proof fn lemma_run_renamed_branches(s: Seq<Seq<InstructionV>>, from: Seq<char>, to: Seq<char>, m: Seq<char>)
    ensures
        branches_run(se_branches(s, SlotEdit::RenameBranch(from, to)), m) == ((m != from && branches_run(s, m))
            || (m == to && branches_run(s, from))),
    decreases s,
{
    broadcast use group_slot_edit;

    let e = SlotEdit::RenameBranch(from, to);
    let r = se_branches(s, e);
    if s.len() > 0 {
        let n = s.len() - 1;
        assert(r.subrange(0, n) =~= se_branches(s.subrange(0, n), e));
        assert(r[n] == se_instrs(s[n], e));
        lemma_run_renamed_branches(s.subrange(0, n), from, to, m);
        lemma_run_renamed(s[n], from, to, m);
    }
}

proof fn lemma_run_renamed_kind(k: KindV, from: Seq<char>, to: Seq<char>, m: Seq<char>)
    ensures
        kind_runs(se_kind(k, SlotEdit::RenameBranch(from, to)), m) == ((m != from && kind_runs(k, m)) || (m == to
            && kind_runs(k, from))),
    decreases k,
{
    match k {
        KindV::CallBlock { branches, .. } => lemma_run_renamed_branches(branches, from, to, m),
        KindV::If { body, .. } => lemma_run_renamed(body, from, to, m),
        KindV::IfElse { then_body, else_body, .. } => {
            lemma_run_renamed(then_body, from, to, m);
            lemma_run_renamed(else_body, from, to, m);
        },
        KindV::Repeat { body, .. } => lemma_run_renamed(body, from, to, m),
        KindV::Forever { body } => lemma_run_renamed(body, from, to, m),
        KindV::While { body, .. } => lemma_run_renamed(body, from, to, m),
        _ => {},
    }
}

// ---------------------------------------------------------------------
// Instructions
// ---------------------------------------------------------------------

/// Whether an instruction with id `x` stands anywhere in the list: at its
/// top level, in a nested body or in a branch of a `CallBlock`.
pub open spec fn instrs_hold(s: Seq<InstructionV>, x: Seq<char>) -> bool
    decreases s,
{
    s.len() > 0 && (instrs_hold(s.subrange(0, s.len() - 1), x) || s[s.len() - 1].id == x || kind_holds(
        s[s.len() - 1].kind,
        x,
    ))
}

pub open spec fn branches_hold(s: Seq<Seq<InstructionV>>, x: Seq<char>) -> bool
    decreases s,
{
    s.len() > 0 && (branches_hold(s.subrange(0, s.len() - 1), x) || instrs_hold(s[s.len() - 1], x))
}

pub open spec fn kind_holds(k: KindV, x: Seq<char>) -> bool
    decreases k,
{
    match k {
        KindV::CallBlock { branches, .. } => branches_hold(branches, x),
        KindV::If { body, .. } => instrs_hold(body, x),
        KindV::IfElse { then_body, else_body, .. } => instrs_hold(then_body, x) || instrs_hold(else_body, x),
        KindV::Repeat { body, .. } => instrs_hold(body, x),
        KindV::Forever { body } => instrs_hold(body, x),
        KindV::While { body, .. } => instrs_hold(body, x),
        _ => false,
    }
}

pub proof fn lemma_contains_concat<A>(a: Seq<A>, b: Seq<A>, x: A)
    ensures
        (a + b).contains(x) == (a.contains(x) || b.contains(x)),
{
    if (a + b).contains(x) {
        let i = choose|i: int| 0 <= i < (a + b).len() && (a + b)[i] == x;
        if i >= a.len() {
            assert(b[i - a.len()] == x);
        }
    }
    if a.contains(x) {
        let i = choose|i: int| 0 <= i < a.len() && a[i] == x;
        assert((a + b)[i] == x);
    }
    if b.contains(x) {
        let i = choose|i: int| 0 <= i < b.len() && b[i] == x;
        assert((a + b)[i + a.len()] == x);
    }
}

proof fn lemma_contains_empty<A>(x: A)
    ensures
        !Seq::<A>::empty().contains(x),
{
}

proof fn lemma_contains_one<A>(y: A, x: A)
    ensures
        seq![y].contains(x) == (y == x),
{
    if y == x {
        assert(seq![y][0] == x);
    }
}

/// The id walk collects the id of an instruction exactly when one with it
/// stands somewhere in the list.
pub proof fn lemma_ids_in_holds(s: Seq<InstructionV>, x: Seq<char>)
    ensures
        ids_in(s).contains(x) == instrs_hold(s, x),
    decreases s,
{
    if s.len() == 0 {
        lemma_contains_empty(x);
    } else {
        let n = s.len() - 1;
        let p = ids_in(s.subrange(0, n));
        let own = seq![s[n].id];
        let inner = ids_in_kind(s[n].kind);
        lemma_ids_in_holds(s.subrange(0, n), x);
        lemma_ids_kind_holds(s[n].kind, x);
        lemma_contains_one(s[n].id, x);
        lemma_contains_concat(p, own, x);
        lemma_contains_concat(p + own, inner, x);
    }
}

proof fn lemma_ids_branches_hold(s: Seq<Seq<InstructionV>>, x: Seq<char>)
    ensures
        ids_in_branches(s).contains(x) == branches_hold(s, x),
    decreases s,
{
    if s.len() == 0 {
        lemma_contains_empty(x);
    } else {
        let n = s.len() - 1;
        lemma_ids_branches_hold(s.subrange(0, n), x);
        lemma_ids_in_holds(s[n], x);
        lemma_contains_concat(ids_in_branches(s.subrange(0, n)), ids_in(s[n]), x);
    }
}

proof fn lemma_ids_kind_holds(k: KindV, x: Seq<char>)
    ensures
        ids_in_kind(k).contains(x) == kind_holds(k, x),
    decreases k,
{
    match k {
        KindV::CallBlock { branches, .. } => lemma_ids_branches_hold(branches, x),
        KindV::If { body, .. } => lemma_ids_in_holds(body, x),
        KindV::IfElse { then_body, else_body, .. } => {
            lemma_ids_in_holds(then_body, x);
            lemma_ids_in_holds(else_body, x);
            lemma_contains_concat(ids_in(then_body), ids_in(else_body), x);
        },
        KindV::Repeat { body, .. } => lemma_ids_in_holds(body, x),
        KindV::Forever { body } => lemma_ids_in_holds(body, x),
        KindV::While { body, .. } => lemma_ids_in_holds(body, x),
        _ => lemma_contains_empty(x),
    }
}

} // verus!
