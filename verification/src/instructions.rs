//! The public operations on values, input tokens and instructions.
use vstd::prelude::*;
use crate::edit::{rw_instr, rw_kind, rw_token, rw_value, ArgSlot, Edit};
use crate::ids::{fresh_id, is_simple_uuid};
use crate::program::{group_program_views, lemma_view_branches_update, view_branches, view_instrs, InputToken, Instruction, InstructionKind, InstructionV, KindV, Value, ValueV};
use crate::rewrite::Rewrite;
use crate::text::owned;

use crate::reach::{kind_calls, lemma_calls_rebuilt_kind, lemma_calls_rebuilt_token, lemma_calls_rebuilt_value, rebuilt_calls, token_calls, value_calls};
verus! {

broadcast use group_program_views;

fn rename_rewrite_var(from: &str, to: &str) -> (r: Rewrite)
    ensures
        r@ == Edit::RenameVar(from@, to@),
{
    Rewrite::RenameVar { from: owned(from), to: owned(to) }
}

fn rename_rewrite_list(from: &str, to: &str) -> (r: Rewrite)
    ensures
        r@ == Edit::RenameList(from@, to@),
{
    Rewrite::RenameList { from: owned(from), to: owned(to) }
}

fn rename_rewrite_param(from: &str, to: &str) -> (r: Rewrite)
    ensures
        r@ == Edit::RenameParam(from@, to@),
{
    Rewrite::RenameParam { from: owned(from), to: owned(to) }
}

fn scrub_rewrite(block_id: &str) -> (r: Rewrite)
    ensures
        r@ == Edit::ScrubCalls(block_id@),
{
    Rewrite::ScrubCalls { block_id: owned(block_id) }
}

fn rebuild_rewrite(block_id: &str, plan: &Vec<ArgSlot>) -> (r: Rewrite)
    ensures
        r@ == Edit::RebuildArgs(block_id@, plan@),
{
    let mut p: Vec<ArgSlot> = Vec::new();
    let mut i: usize = 0;
    while i < plan.len()
        invariant
            i <= plan@.len(),
            p@ == plan@.take(i as int),
        decreases plan.len() - i,
    {
        p.push(plan[i]);
        assert(plan@.take(i + 1) =~= plan@.take(i as int).push(plan@[i as int]));
        i = i + 1;
    }
    assert(plan@.take(plan@.len() as int) =~= plan@);
    Rewrite::RebuildArgs { block_id: owned(block_id), plan: p }
}

impl Value {
    /// A number literal with the given `f64` bit pattern.
    pub fn number(bits: u64) -> (r: Value)
        ensures
            r@ == ValueV::Number(bits),
    {
        Value::Number { bits }
    }

    /// Renames every `Var` read of `from` to `to`.
    pub fn rename_var(&mut self, from: &str, to: &str)
        ensures
            final(self)@ == rw_value(old(self)@, Edit::RenameVar(from@, to@), false),
    {
        let r = rename_rewrite_var(from, to);
        self.rewrite(&r, false);
    }

    /// Renames every `List` reporter of `from` to `to`.
    pub fn rename_list(&mut self, from: &str, to: &str)
        ensures
            final(self)@ == rw_value(old(self)@, Edit::RenameList(from@, to@), false),
    {
        let r = rename_rewrite_list(from, to);
        self.rewrite(&r, false);
    }

    /// Renames every `Param` leaf reading `from` to `to`.
    pub fn rename_param(&mut self, from: &str, to: &str)
        ensures
            final(self)@ == rw_value(old(self)@, Edit::RenameParam(from@, to@), false),
    {
        let r = rename_rewrite_param(from, to);
        self.rewrite(&r, false);
    }

    /// Turns number leaves sitting in boolean slots back into the blank
    /// boolean; `expects_bool` tells whether this value itself sits in one.
    pub fn migrate_bool_slots(&mut self, expects_bool: bool)
        ensures
            final(self)@ == rw_value(old(self)@, Edit::MigrateBools, expects_bool),
    {
        self.rewrite(&Rewrite::MigrateBools, expects_bool);
    }

    /// Realigns the arguments of every call of `block_id` to `plan`.
    pub fn for_each_call_args_mut(&mut self, block_id: &str, plan: &Vec<ArgSlot>)
        ensures
            final(self)@ == rw_value(old(self)@, Edit::RebuildArgs(block_id@, plan@), false),
            value_calls(final(self)@, block_id@, true) == rebuilt_calls(value_calls(old(self)@, block_id@, true), block_id@, plan@),
    {
        proof {
            lemma_calls_rebuilt_value(old(self)@, block_id@, plan@, true, false);
        }
        let r = rebuild_rewrite(block_id, plan);
        self.rewrite(&r, false);
    }

    /// Replaces every call of `block_id` with a plain `0` leaf.
    pub fn scrub_block_calls(&mut self, block_id: &str)
        ensures
            final(self)@ == rw_value(old(self)@, Edit::ScrubCalls(block_id@), false),
    {
        let r = scrub_rewrite(block_id);
        self.rewrite(&r, false);
    }
}

impl InputToken {
    pub fn rename_var(&mut self, from: &str, to: &str)
        ensures
            final(self)@ == rw_token(old(self)@, Edit::RenameVar(from@, to@)),
    {
        let r = rename_rewrite_var(from, to);
        self.rewrite(&r);
    }

    pub fn rename_list(&mut self, from: &str, to: &str)
        ensures
            final(self)@ == rw_token(old(self)@, Edit::RenameList(from@, to@)),
    {
        let r = rename_rewrite_list(from, to);
        self.rewrite(&r);
    }

    pub fn rename_param(&mut self, from: &str, to: &str)
        ensures
            final(self)@ == rw_token(old(self)@, Edit::RenameParam(from@, to@)),
    {
        let r = rename_rewrite_param(from, to);
        self.rewrite(&r);
    }

    pub fn migrate_bool_slots(&mut self)
        ensures
            final(self)@ == rw_token(old(self)@, Edit::MigrateBools),
    {
        self.rewrite(&Rewrite::MigrateBools);
    }

    pub fn for_each_call_args_mut(&mut self, block_id: &str, plan: &Vec<ArgSlot>)
        ensures
            final(self)@ == rw_token(old(self)@, Edit::RebuildArgs(block_id@, plan@)),
            token_calls(final(self)@, block_id@, true) == rebuilt_calls(token_calls(old(self)@, block_id@, true), block_id@, plan@),
    {
        proof {
            lemma_calls_rebuilt_token(old(self)@, block_id@, plan@, true);
        }
        let r = rebuild_rewrite(block_id, plan);
        self.rewrite(&r);
    }

    pub fn scrub_block_calls(&mut self, block_id: &str)
        ensures
            final(self)@ == rw_token(old(self)@, Edit::ScrubCalls(block_id@)),
    {
        let r = scrub_rewrite(block_id);
        self.rewrite(&r);
    }
}

/// The header blocks: first in their strand, nothing stacks above them.
pub open spec fn is_header_kind(k: KindV) -> bool {
    match k {
        KindV::WhenRan | KindV::BlockHeader(_) | KindV::WhenBatteryDischargedTo(_)
        | KindV::WhenBatteryChargedTo(_) | KindV::WhenTime(_) | KindV::WhenPowerPluggedIn
        | KindV::WhenPowerUnplugged | KindV::WhenClipboardChanged => true,
        _ => false,
    }
}

/// The nested list at compound-instruction `slot`, if there is one.
pub open spec fn body_slot(k: KindV, slot: int) -> Option<Seq<InstructionV>> {
    match k {
        KindV::If { body, .. } => if slot == 0 { Some(body) } else { None },
        KindV::IfElse { then_body, else_body, .. } => if slot == 0 {
            Some(then_body)
        } else if slot == 1 {
            Some(else_body)
        } else {
            None
        },
        KindV::Repeat { body, .. } => if slot == 0 { Some(body) } else { None },
        KindV::Forever { body } => if slot == 0 { Some(body) } else { None },
        KindV::While { body, .. } => if slot == 0 { Some(body) } else { None },
        _ => None,
    }
}

/// Branch `i` of a `CallBlock`, if there is one.
pub open spec fn branch_slot(k: KindV, i: int) -> Option<Seq<InstructionV>> {
    match k {
        KindV::CallBlock { branches, .. } => if 0 <= i < branches.len() { Some(branches[i]) } else { None },
        _ => None,
    }
}

/// `k` with the list at `slot` replaced by `b` (where `body_slot` finds one).
pub open spec fn with_body_slot(k: KindV, slot: int, b: Seq<InstructionV>) -> KindV {
    match k {
        KindV::If { condition, body } => if slot == 0 { KindV::If { condition, body: b } } else { k },
        KindV::IfElse { condition, then_body, else_body } => if slot == 0 {
            KindV::IfElse { condition, then_body: b, else_body }
        } else if slot == 1 {
            KindV::IfElse { condition, then_body, else_body: b }
        } else {
            k
        },
        KindV::Repeat { count, body } => if slot == 0 { KindV::Repeat { count, body: b } } else { k },
        KindV::Forever { body } => if slot == 0 { KindV::Forever { body: b } } else { k },
        KindV::While { condition, body } => if slot == 0 { KindV::While { condition, body: b } } else { k },
        _ => k,
    }
}

/// `k` with `CallBlock` branch `i` replaced by `b` (where `branch_slot`
/// finds one).
pub open spec fn with_branch_slot(k: KindV, i: int, b: Seq<InstructionV>) -> KindV {
    match k {
        KindV::CallBlock { block_id, args, branches } => if 0 <= i < branches.len() {
            KindV::CallBlock { block_id, args, branches: branches.update(i, b) }
        } else {
            k
        },
        _ => k,
    }
}

fn branch_list_mut(branches: &mut Vec<Vec<Instruction>>, i: usize) -> (r: &mut Vec<Instruction>)
    requires
        i < old(branches)@.len(),
    ensures
        *r == old(branches)@[i as int],
        view_branches(final(branches)@) == view_branches(old(branches)@).update(i as int, view_instrs((*final(r))@)),
{
    let r = &mut branches[i];
    proof {
        lemma_view_branches_update(old(branches)@, i as int, *final(r));
    }
    r
}

impl InstructionKind {
    /// True for the header blocks (`WhenRan`, `BlockHeader` and the
    /// `When…` entry points).
    pub fn is_header(&self) -> (r: bool)
        ensures
            r == is_header_kind(self@),
    {
        match self {
            InstructionKind::WhenRan | InstructionKind::BlockHeader(_)
            | InstructionKind::WhenBatteryDischargedTo(_) | InstructionKind::WhenBatteryChargedTo(_)
            | InstructionKind::WhenTime(_) | InstructionKind::WhenPowerPluggedIn
            | InstructionKind::WhenPowerUnplugged | InstructionKind::WhenClipboardChanged => true,
            _ => false,
        }
    }

    /// Renames `Var` reads and the target of `SetVariable`/`ChangeVariable`.
    pub fn rename_var(&mut self, from: &str, to: &str)
        ensures
            final(self)@ == rw_kind(old(self)@, Edit::RenameVar(from@, to@)),
    {
        let r = rename_rewrite_var(from, to);
        self.rewrite(&r);
    }

    /// Renames list command targets and list reporters.
    pub fn rename_list(&mut self, from: &str, to: &str)
        ensures
            final(self)@ == rw_kind(old(self)@, Edit::RenameList(from@, to@)),
    {
        let r = rename_rewrite_list(from, to);
        self.rewrite(&r);
    }

    /// Repairs boolean slots that an older save left holding a number.
    pub fn migrate_bool_slots(&mut self)
        ensures
            final(self)@ == rw_kind(old(self)@, Edit::MigrateBools),
    {
        self.rewrite(&Rewrite::MigrateBools);
    }

    /// Renames every `Param` leaf reading `from` to `to`.
    pub fn rename_param(&mut self, from: &str, to: &str)
        ensures
            final(self)@ == rw_kind(old(self)@, Edit::RenameParam(from@, to@)),
    {
        let r = rename_rewrite_param(from, to);
        self.rewrite(&r);
    }

    /// Realigns the arguments of every `CallBlock`/`Call` of `block_id` to
    /// `plan`, wherever nested.
    pub fn for_each_call_args_mut(&mut self, block_id: &str, plan: &Vec<ArgSlot>)
        ensures
            final(self)@ == rw_kind(old(self)@, Edit::RebuildArgs(block_id@, plan@)),
            kind_calls(final(self)@, block_id@, true) == rebuilt_calls(kind_calls(old(self)@, block_id@, true), block_id@, plan@),
    {
        proof {
            lemma_calls_rebuilt_kind(old(self)@, block_id@, plan@, true);
        }
        let r = rebuild_rewrite(block_id, plan);
        self.rewrite(&r);
    }

    /// Replaces every `Call` value of `block_id` with a plain `0` leaf; a
    /// `CallBlock` of it is left for the caller to drop.
    pub fn scrub_block_calls(&mut self, block_id: &str)
        ensures
            final(self)@ == rw_kind(old(self)@, Edit::ScrubCalls(block_id@)),
    {
        let r = scrub_rewrite(block_id);
        self.rewrite(&r);
    }

    /// Read-only counterpart to `body_mut`.
    pub fn body(&self, slot: u8) -> (r: Option<&Vec<Instruction>>)
        ensures
            r matches Some(b) ==> body_slot(self@, slot as int) == Some(view_instrs(b@)),
            r is None <==> body_slot(self@, slot as int) is None,
    {
        match self {
            InstructionKind::If { body, .. } => if slot == 0 { Some(body) } else { None },
            InstructionKind::IfElse { then_body, else_body, .. } => if slot == 0 {
                Some(then_body)
            } else if slot == 1 {
                Some(else_body)
            } else {
                None
            },
            InstructionKind::Repeat { body, .. } => if slot == 0 { Some(body) } else { None },
            InstructionKind::Forever { body } => if slot == 0 { Some(body) } else { None },
            InstructionKind::While { body, .. } => if slot == 0 { Some(body) } else { None },
            _ => None,
        }
    }

    /// The nested instruction list at compound-instruction `slot`: `If`'s
    /// body (0), `IfElse`'s then/else bodies (0/1), the body of
    /// `Repeat`/`Forever`/`While` (0); `None` for anything else, including
    /// an out-of-range slot and a `CallBlock` (see `branch_mut`).
    pub fn body_mut(&mut self, slot: u8) -> (r: Option<&mut Vec<Instruction>>)
        ensures
            r matches Some(b) ==> body_slot(old(self)@, slot as int) == Some(view_instrs((*b)@)),
            r matches Some(b) ==> final(self)@ == with_body_slot(old(self)@, slot as int, view_instrs((*final(b))@)),
            r is None ==> body_slot(old(self)@, slot as int) is None,
            r is None ==> final(self)@ == old(self)@,
    {
        match self {
            InstructionKind::If { body, .. } => if slot == 0 { Some(body) } else { None },
            InstructionKind::IfElse { then_body, else_body, .. } => if slot == 0 {
                Some(then_body)
            } else if slot == 1 {
                Some(else_body)
            } else {
                None
            },
            InstructionKind::Repeat { body, .. } => if slot == 0 { Some(body) } else { None },
            InstructionKind::Forever { body } => if slot == 0 { Some(body) } else { None },
            InstructionKind::While { body, .. } => if slot == 0 { Some(body) } else { None },
            _ => None,
        }
    }

    /// Read-only counterpart to `branch_mut`.
    pub fn branch(&self, i: usize) -> (r: Option<&Vec<Instruction>>)
        ensures
            r matches Some(b) ==> branch_slot(self@, i as int) == Some(view_instrs(b@)),
            r is None <==> branch_slot(self@, i as int) is None,
    {
        match self {
            InstructionKind::CallBlock { branches, .. } => if i < branches.len() { Some(&branches[i]) } else { None },
            _ => None,
        }
    }

    /// Branch `i` of a `CallBlock`, the callback body handed to the custom
    /// block; `None` for any other instruction or an out-of-range `i`.
    /// `body_mut` addresses the bodies of the built-in compound blocks only.
    pub fn branch_mut(&mut self, i: usize) -> (r: Option<&mut Vec<Instruction>>)
        ensures
            r matches Some(b) ==> branch_slot(old(self)@, i as int) == Some(view_instrs((*b)@)),
            r matches Some(b) ==> final(self)@ == with_branch_slot(old(self)@, i as int, view_instrs((*final(b))@)),
            r is None ==> branch_slot(old(self)@, i as int) is None,
            r is None ==> final(self)@ == old(self)@,
    {
        match self {
            InstructionKind::CallBlock { branches, .. } => if i < branches.len() {
                Some(branch_list_mut(branches, i))
            } else {
                None
            },
            _ => None,
        }
    }
}

impl Instruction {
    /// A new instruction of `kind` with a fresh id.
    pub fn new(kind: InstructionKind) -> (r: Instruction)
        ensures
            r@.kind == kind@,
            is_simple_uuid(r@.id),
    {
        Instruction { id: fresh_id(), kind }
    }

    pub fn is_header(&self) -> (r: bool)
        ensures
            r == is_header_kind(self@.kind),
    {
        self.kind.is_header()
    }

    pub fn rename_var(&mut self, from: &str, to: &str)
        ensures
            final(self)@ == rw_instr(old(self)@, Edit::RenameVar(from@, to@)),
    {
        self.kind.rename_var(from, to)
    }

    pub fn rename_list(&mut self, from: &str, to: &str)
        ensures
            final(self)@ == rw_instr(old(self)@, Edit::RenameList(from@, to@)),
    {
        self.kind.rename_list(from, to)
    }

    pub fn migrate_bool_slots(&mut self)
        ensures
            final(self)@ == rw_instr(old(self)@, Edit::MigrateBools),
    {
        self.kind.migrate_bool_slots()
    }

    pub fn rename_param(&mut self, from: &str, to: &str)
        ensures
            final(self)@ == rw_instr(old(self)@, Edit::RenameParam(from@, to@)),
    {
        self.kind.rename_param(from, to)
    }

    pub fn for_each_call_args_mut(&mut self, block_id: &str, plan: &Vec<ArgSlot>)
        ensures
            final(self)@ == rw_instr(old(self)@, Edit::RebuildArgs(block_id@, plan@)),
            kind_calls(final(self)@.kind, block_id@, true) == rebuilt_calls(
                kind_calls(old(self)@.kind, block_id@, true),
                block_id@,
                plan@,
            ),
    {
        self.kind.for_each_call_args_mut(block_id, plan)
    }

    pub fn scrub_block_calls(&mut self, block_id: &str)
        ensures
            final(self)@ == rw_instr(old(self)@, Edit::ScrubCalls(block_id@)),
    {
        self.kind.scrub_block_calls(block_id)
    }

    pub fn body(&self, slot: u8) -> (r: Option<&Vec<Instruction>>)
        ensures
            r matches Some(b) ==> body_slot(self@.kind, slot as int) == Some(view_instrs(b@)),
            r is None <==> body_slot(self@.kind, slot as int) is None,
    {
        self.kind.body(slot)
    }

    pub fn body_mut(&mut self, slot: u8) -> (r: Option<&mut Vec<Instruction>>)
        ensures
            match r {
                Some(b) => {
                    &&& body_slot(old(self)@.kind, slot as int) == Some(view_instrs(b@))
                    &&& final(self)@ == InstructionV {
                        kind: with_body_slot(old(self)@.kind, slot as int, view_instrs(final(b)@)),
                        ..old(self)@
                    }
                },
                None => {
                    &&& body_slot(old(self)@.kind, slot as int) is None
                    &&& final(self)@ == old(self)@
                },
            },
    {
        self.kind.body_mut(slot)
    }
}

} // verus!
