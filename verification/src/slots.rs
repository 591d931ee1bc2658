//! Edits that walk the nested instruction lists of compound blocks (the
//! bodies of `If`/`IfElse`/`Repeat`/`Forever`/`While` and the branches of
//! `CallBlock`) without entering values: renaming `RunBranch` markers,
//! realigning the branches of call sites, and repairing the boolean
//! arguments of custom-block calls.
use vstd::prelude::*;
use crate::copy::duplicate_instrs;
use crate::edit::{rw_value, Edit};
use crate::program::{
    dummy_instruction, group_program_views, view_branches, view_instr, view_instrs, view_values, Instruction,
    InstructionKind, InstructionV, KindV, Value, ValueV,
};

verus! {

broadcast use group_program_views;

/// One edit applied through the nested lists of a program.
pub ghost enum SlotEdit {
    /// Renames `RunBranch` markers.
    RenameBranch(Seq<char>, Seq<char>),
    /// Realigns the branches of every call of a block: new branch `k`
    /// takes the old branch at `plan[k]`, or is empty.
    RebuildBranches(Seq<char>, Seq<Option<usize>>),
    /// Repairs call arguments whose declared input is boolean; the table
    /// maps a block id to the boolean flags of its inputs.
    RepairBoolArgs(Seq<(Seq<char>, Seq<bool>)>),
}

/// The value of the last entry keyed `key`.
pub open spec fn lookup_last<V>(entries: Seq<(Seq<char>, V)>, key: Seq<char>) -> Option<V>
    decreases entries.len(),
{
    if entries.len() == 0 {
        None
    } else if entries.last().0 == key {
        Some(entries.last().1)
    } else {
        lookup_last(entries.drop_last(), key)
    }
}

/// Branches realigned to `plan`.
pub open spec fn realigned_branches(bs: Seq<Seq<InstructionV>>, plan: Seq<Option<usize>>) -> Seq<Seq<InstructionV>> {
    Seq::new(
        plan.len(),
        |k: int|
            match plan[k] {
                Some(i) => if i < bs.len() { bs[i as int] } else { Seq::empty() },
                None => Seq::empty(),
            },
    )
}

/// Arguments whose input is flagged boolean, with their number leaves in
/// boolean position turned back into the blank boolean.
pub open spec fn repaired_args(args: Seq<ValueV>, expected: Seq<bool>) -> Seq<ValueV> {
    Seq::new(
        args.len(),
        |k: int|
            if k < expected.len() && expected[k] {
                rw_value(args[k], Edit::MigrateBools, true)
            } else {
                args[k]
            },
    )
}

pub open spec fn branch_name(n: Seq<char>, e: SlotEdit) -> Seq<char> {
    match e {
        SlotEdit::RenameBranch(from, to) => if n == from { to } else { n },
        _ => n,
    }
}

pub open spec fn se_call_args(block_id: Seq<char>, args: Seq<ValueV>, e: SlotEdit) -> Seq<ValueV> {
    match e {
        SlotEdit::RepairBoolArgs(table) => match lookup_last(table, block_id) {
            Some(expected) => repaired_args(args, expected),
            None => args,
        },
        _ => args,
    }
}

pub open spec fn se_call_branches(block_id: Seq<char>, bs: Seq<Seq<InstructionV>>, e: SlotEdit) -> Seq<
    Seq<InstructionV>,
> {
    match e {
        SlotEdit::RebuildBranches(target, plan) => if target == block_id {
            realigned_branches(bs, plan)
        } else {
            bs
        },
        _ => bs,
    }
}

pub open spec fn se_instrs(s: Seq<InstructionV>, e: SlotEdit) -> Seq<InstructionV>
    decreases s,
{
    Seq::new(s.len(), |i: int| if 0 <= i < s.len() { se_instr(s[i], e) } else { dummy_instruction() })
}

pub open spec fn se_instr(i: InstructionV, e: SlotEdit) -> InstructionV
    decreases i,
{
    InstructionV { id: i.id, kind: se_kind(i.kind, e) }
}

pub open spec fn se_branches(s: Seq<Seq<InstructionV>>, e: SlotEdit) -> Seq<Seq<InstructionV>>
    decreases s,
{
    Seq::new(s.len(), |i: int| if 0 <= i < s.len() { se_instrs(s[i], e) } else { Seq::empty() })
}

/// The instruction kind `k` after the edit `e`.
pub open spec fn se_kind(k: KindV, e: SlotEdit) -> KindV
    decreases k,
{
    match k {
        KindV::RunBranch(n) => KindV::RunBranch(branch_name(n, e)),
        KindV::CallBlock { block_id, args, branches } => KindV::CallBlock {
            block_id: block_id,
            args: se_call_args(block_id, args, e),
            branches: se_call_branches(block_id, se_branches(branches, e), e),
        },
        KindV::If { condition, body } => KindV::If { condition, body: se_instrs(body, e) },
        KindV::IfElse { condition, then_body, else_body } => KindV::IfElse {
            condition,
            then_body: se_instrs(then_body, e),
            else_body: se_instrs(else_body, e),
        },
        KindV::Repeat { count, body } => KindV::Repeat { count, body: se_instrs(body, e) },
        KindV::Forever { body } => KindV::Forever { body: se_instrs(body, e) },
        KindV::While { condition, body } => KindV::While { condition, body: se_instrs(body, e) },
        _ => k,
    }
}

pub broadcast proof fn lemma_se_instrs(s: Seq<InstructionV>, e: SlotEdit)
    ensures
        #[trigger] se_instrs(s, e).len() == s.len(),
        forall|i: int| 0 <= i < s.len() ==> se_instrs(s, e)[i] == se_instr(#[trigger] s[i], e),
{
}

pub broadcast proof fn lemma_se_branches(s: Seq<Seq<InstructionV>>, e: SlotEdit)
    ensures
        #[trigger] se_branches(s, e).len() == s.len(),
        forall|i: int| 0 <= i < s.len() ==> se_branches(s, e)[i] == se_instrs(#[trigger] s[i], e),
{
}

pub broadcast group group_slot_edit {
    lemma_se_instrs,
    lemma_se_branches,
}

/// The table entries as plain values.
pub open spec fn bool_entries(t: Seq<(String, Vec<bool>)>) -> Seq<(Seq<char>, Seq<bool>)> {
    Seq::new(t.len(), |i: int| (t[i].0@, t[i].1@))
}

/// The executable form of a `SlotEdit`.
pub enum SlotRewrite {
    RenameBranch { from: String, to: String },
    RebuildBranches { block_id: String, plan: Vec<Option<usize>> },
    RepairBoolArgs { table: Vec<(String, Vec<bool>)> },
}

impl View for SlotRewrite {
    type V = SlotEdit;

    open spec fn view(&self) -> SlotEdit {
        match self {
            SlotRewrite::RenameBranch { from, to } => SlotEdit::RenameBranch(from@, to@),
            SlotRewrite::RebuildBranches { block_id, plan } => SlotEdit::RebuildBranches(block_id@, plan@),
            SlotRewrite::RepairBoolArgs { table } => SlotEdit::RepairBoolArgs(bool_entries(table@)),
        }
    }
}

/// The position of the last entry keyed `key`.
fn find_last(table: &Vec<(String, Vec<bool>)>, key: &String) -> (r: Option<usize>)
    ensures
        r matches Some(j) ==> j < table@.len() && lookup_last(bool_entries(table@), key@) == Some(table@[j as int].1@),
        r is None ==> lookup_last(bool_entries(table@), key@) is None,
{
    let ghost entries = bool_entries(table@);
    let mut found: Option<usize> = None;
    let mut i: usize = 0;
    while i < table.len()
        invariant
            i <= table@.len(),
            entries == bool_entries(table@),
            found matches Some(j) ==> j < i && lookup_last(entries.take(i as int), key@) == Some(table@[j as int].1@),
            found is None ==> lookup_last(entries.take(i as int), key@) is None,
        decreases table.len() - i,
    {
        proof {
            assert(entries.take(i + 1).drop_last() =~= entries.take(i as int));
            assert(entries.take(i + 1).last() == entries[i as int]);
        }
        if table[i].0 == *key {
            found = Some(i);
        }
        i = i + 1;
    }
    assert(entries.take(table@.len() as int) =~= entries);
    found
}

/// Repairs the arguments flagged boolean in `expected`.
fn repair_args(args: &mut Vec<Value>, expected: &Vec<bool>)
    ensures
        view_values(final(args)@) == repaired_args(view_values(old(args)@), expected@),
{
    let ghost a0 = view_values(args@);
    let mut k: usize = 0;
    while k < args.len()
        invariant
            k <= args@.len(),
            args@.len() == a0.len(),
            a0 == view_values(old(args)@),
            forall|j: int| 0 <= j < k ==> #[trigger] view_values(args@)[j] == repaired_args(a0, expected@)[j],
            forall|j: int| k <= j < a0.len() ==> #[trigger] view_values(args@)[j] == a0[j],
        decreases args.len() - k,
    {
        if k < expected.len() && expected[k] {
            assert(view_values(args@)[k as int] == a0[k as int]);
            args[k].migrate_bool_slots(true);
        }
        k = k + 1;
    }
    assert(view_values(args@) =~= repaired_args(a0, expected@));
}

/// The branches realigned to `plan`, copying each branch carried over.
fn realign(bs: &Vec<Vec<Instruction>>, plan: &Vec<Option<usize>>) -> (r: Vec<Vec<Instruction>>)
    ensures
        view_branches(r@) == realigned_branches(view_branches(bs@), plan@),
{
    let mut out: Vec<Vec<Instruction>> = Vec::new();
    let mut k: usize = 0;
    while k < plan.len()
        invariant
            k <= plan@.len(),
            out@.len() == k,
            forall|j: int| 0 <= j < k ==> #[trigger] view_instrs(out@[j]@) == realigned_branches(view_branches(bs@), plan@)[j],
        decreases plan.len() - k,
    {
        let b = match plan[k] {
            Some(i) => if i < bs.len() {
                duplicate_instrs(&bs[i])
            } else {
                Vec::new()
            },
            None => Vec::new(),
        };
        out.push(b);
        k = k + 1;
    }
    assert(view_branches(out@) =~= realigned_branches(view_branches(bs@), plan@));
    out
}

pub(crate) fn slot_rewrite_instrs(vs: &mut Vec<Instruction>, r: &SlotRewrite)
    ensures
        view_instrs(final(vs)@) == se_instrs(view_instrs(old(vs)@), r@),
    decreases *old(vs), 0nat,
{
    let ghost v0 = vs@;
    let mut i: usize = 0;
    while i < vs.len()
        invariant
            vs@.len() == v0.len(),
            v0 == old(vs)@,
            i <= vs@.len(),
            forall|j: int| 0 <= j < i ==> #[trigger] view_instr(vs@[j]) == se_instr(view_instr(v0[j]), r@),
            forall|j: int| i <= j < vs@.len() ==> #[trigger] vs@[j] == v0[j],
        decreases vs.len() - i,
    {
        proof {
            assert(decreases_to!(*old(vs) => old(vs)@));
            assert(decreases_to!(old(vs)@ => v0[i as int]));
        }
        vs[i].kind.slot_rewrite(r);
        i = i + 1;
    }
    assert(view_instrs(vs@) =~= se_instrs(view_instrs(v0), r@));
}

fn slot_rewrite_branches(bs: &mut Vec<Vec<Instruction>>, r: &SlotRewrite)
    ensures
        view_branches(final(bs)@) == se_branches(view_branches(old(bs)@), r@),
    decreases *old(bs), 0nat,
{
    let ghost v0 = bs@;
    let mut i: usize = 0;
    while i < bs.len()
        invariant
            bs@.len() == v0.len(),
            v0 == old(bs)@,
            i <= bs@.len(),
            forall|k: int| 0 <= k < i ==> #[trigger] view_instrs(bs@[k]@) == se_instrs(view_instrs(v0[k]@), r@),
            forall|k: int| i <= k < bs@.len() ==> #[trigger] bs@[k] == v0[k],
        decreases bs.len() - i,
    {
        proof {
            assert(decreases_to!(*old(bs) => old(bs)@));
            assert(decreases_to!(old(bs)@ => v0[i as int]));
        }
        slot_rewrite_instrs(&mut bs[i], r);
        i = i + 1;
    }
    assert(view_branches(bs@) =~= se_branches(view_branches(v0), r@));
}

impl InstructionKind {
    pub(crate) fn slot_rewrite(&mut self, r: &SlotRewrite)
        ensures
            final(self)@ == se_kind(old(self)@, r@),
        decreases *old(self), 0nat,
    {
        match self {
            InstructionKind::RunBranch(name) => match r {
                SlotRewrite::RenameBranch { from, to } => {
                    if *name == *from {
                        *name = to.clone();
                    }
                },
                _ => {},
            },
            InstructionKind::CallBlock { block_id, args, branches } => {
                match r {
                    SlotRewrite::RepairBoolArgs { table } => match find_last(table, block_id) {
                        Some(j) => repair_args(args, &table[j].1),
                        None => {},
                    },
                    _ => {},
                }
                slot_rewrite_branches(branches, r);
                match r {
                    SlotRewrite::RebuildBranches { block_id: target, plan } => {
                        if *block_id == *target {
                            let fresh = realign(branches, plan);
                            *branches = fresh;
                        }
                    },
                    _ => {},
                }
            },
            InstructionKind::If { body, .. } => slot_rewrite_instrs(body, r),
            InstructionKind::IfElse { then_body, else_body, .. } => {
                slot_rewrite_instrs(then_body, r);
                slot_rewrite_instrs(else_body, r);
            },
            InstructionKind::Repeat { body, .. } => slot_rewrite_instrs(body, r),
            InstructionKind::Forever { body } => slot_rewrite_instrs(body, r),
            InstructionKind::While { body, .. } => slot_rewrite_instrs(body, r),
            _ => {},
        }
    }
}

} // verus!
