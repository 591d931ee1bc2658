//! Custom block ("My Blocks") edits on a whole macro: defining a block,
//! renaming its inputs and branches, reconciling its call sites with a
//! changed prototype, and deleting it; and the pruning of comments whose
//! instruction is gone.
use vstd::prelude::*;
use crate::blocks::{BlockDef, BlockDefV, BlockPiece, BlockShape, InputValueType, PieceV};
use crate::edit::{rw_instrs, rw_value, ArgSlot, Edit};
use crate::editing::{heads_block, rw_block_bodies, rw_floating};
use crate::ids::{fresh_id, is_simple_uuid};
use crate::macros::{first_index_of, lemma_first_index_at, CommentV, FloatingV, Macro, MacroV, Strand, StrandV};
use crate::purge::{purge_instrs, purged_instrs, purged_value};
use crate::program::{group_program_views, Instruction, InstructionKind, InstructionV, KindV};
use crate::rewrite::{rewrite_instrs, Rewrite};
use crate::seqs::{elem_mut, retain_flagged, views};
use crate::slots::{se_instrs, slot_rewrite_instrs, SlotEdit, SlotRewrite};
use crate::text::{owned, str_eq};
use crate::walk::{collect_ids, ids_in};
use crate::reach::{instrs_calls, instrs_run, rebuilt_calls, value_calls};
use crate::laws::{attached_live, law_branch_rename_reaches_every_marker, law_prune_keeps_comments_on_existing_instructions, law_reconcile_rebuilds_every_call, law_remove_block_keeps_other_defs};

verus! {

broadcast use group_program_views;

/// The ids and value types of the `Input` pieces, in order.
pub open spec fn input_slots(p: Seq<PieceV>) -> Seq<(Seq<char>, InputValueType)>
    decreases p.len(),
{
    if p.len() == 0 {
        Seq::empty()
    } else {
        let rest = input_slots(p.drop_last());
        match p.last() {
            PieceV::Input { id, value_type, .. } => rest.push((id, value_type)),
            _ => rest,
        }
    }
}

/// The ids of the `Input` pieces, in order.
pub open spec fn input_piece_ids(p: Seq<PieceV>) -> Seq<Seq<char>> {
    Seq::new(input_slots(p).len(), |i: int| input_slots(p)[i].0)
}

/// The ids of the `Branch` pieces, in order.
pub open spec fn branch_piece_ids(p: Seq<PieceV>) -> Seq<Seq<char>>
    decreases p.len(),
{
    if p.len() == 0 {
        Seq::empty()
    } else {
        let rest = branch_piece_ids(p.drop_last());
        match p.last() {
            PieceV::Branch { id, .. } => rest.push(id),
            _ => rest,
        }
    }
}

pub open spec fn as_index(o: Option<int>) -> Option<usize> {
    match o {
        Some(i) => Some(i as usize),
        None => None,
    }
}

/// Where each argument of a call site comes from once the prototype
/// changes from `old_p` to `new_p`: the old argument of the input with the
/// same piece id, else a blank of the new input's type.
pub open spec fn arg_plan(old_p: Seq<PieceV>, new_p: Seq<PieceV>) -> Seq<ArgSlot> {
    Seq::new(
        input_slots(new_p).len(),
        |k: int|
            ArgSlot {
                source: as_index(first_index_of(input_piece_ids(old_p), input_slots(new_p)[k].0)),
                value_type: input_slots(new_p)[k].1,
            },
    )
}

/// Which old branch each branch of a call site takes once the prototype
/// changes from `old_p` to `new_p`.
pub open spec fn branch_plan(old_p: Seq<PieceV>, new_p: Seq<PieceV>) -> Seq<Option<usize>> {
    Seq::new(
        branch_piece_ids(new_p).len(),
        |k: int| as_index(first_index_of(branch_piece_ids(old_p), branch_piece_ids(new_p)[k])),
    )
}

/// The strands after `e` is applied to all their instructions.
pub open spec fn se_strands(s: Seq<StrandV>, e: SlotEdit) -> Seq<StrandV> {
    Seq::new(s.len(), |i: int| StrandV { instructions: se_instrs(s[i].instructions, e), ..s[i] })
}

/// The strands after `e` is applied to the body of custom block `block_id`.
pub open spec fn se_block_bodies(s: Seq<StrandV>, block_id: Seq<char>, e: SlotEdit) -> Seq<StrandV> {
    Seq::new(
        s.len(),
        |i: int|
            if heads_block(s[i], block_id) {
                StrandV { instructions: se_instrs(s[i].instructions, e), ..s[i] }
            } else {
                s[i]
            },
    )
}

/// The strands once call sites of `block_id` follow the plans: arguments
/// realigned everywhere, then branches.
pub open spec fn reconciled_strands(
    s: Seq<StrandV>,
    block_id: Seq<char>,
    args: Seq<ArgSlot>,
    branches: Seq<Option<usize>>,
) -> Seq<StrandV> {
    Seq::new(
        s.len(),
        |i: int|
            StrandV {
                instructions: se_instrs(
                    rw_instrs(s[i].instructions, Edit::RebuildArgs(block_id, args)),
                    SlotEdit::RebuildBranches(block_id, branches),
                ),
                ..s[i]
            },
    )
}

/// Whether an instruction is a command-position call of `block_id`.
pub open spec fn calls_block(i: InstructionV, block_id: Seq<char>) -> bool {
    i.kind matches KindV::CallBlock { block_id: id, .. } && id == block_id
}

/// A strand once block `block_id` is gone: every call of it dropped, at
/// every depth, and every value call of it scrubbed.
pub open spec fn without_block(s: StrandV, block_id: Seq<char>) -> StrandV {
    StrandV { instructions: rw_instrs(purged_instrs(s.instructions, block_id), Edit::ScrubCalls(block_id)), ..s }
}

/// The floating values once block `block_id` is gone.
pub open spec fn removed_floating(f: Seq<FloatingV>, block_id: Seq<char>) -> Seq<FloatingV> {
    Seq::new(
        f.len(),
        |i: int|
            FloatingV {
                value: rw_value(purged_value(f[i].value, block_id), Edit::ScrubCalls(block_id), false),
                ..f[i]
            },
    )
}

/// The definitions other than that of block `block_id`.
pub open spec fn kept_defs(defs: Seq<BlockDefV>, block_id: Seq<char>) -> Seq<BlockDefV> {
    defs.filter(|d: BlockDefV| d.id != block_id)
}

/// The strands once block `block_id` is gone: its body strand dropped and
/// every call of it removed.
pub open spec fn removed_strands(s: Seq<StrandV>, block_id: Seq<char>) -> Seq<StrandV> {
    let kept = s.filter(|t: StrandV| !heads_block(t, block_id));
    Seq::new(kept.len(), |i: int| without_block(kept[i], block_id))
}

/// The ids of every instruction at any depth, strand by strand.
pub open spec fn live_ids(s: Seq<StrandV>) -> Seq<Seq<char>>
    decreases s.len(),
{
    if s.len() == 0 {
        Seq::empty()
    } else {
        live_ids(s.drop_last()) + ids_in(s.last().instructions)
    }
}

/// Whether a comment survives: freestanding, or attached to a live id.
pub open spec fn is_kept_comment(c: CommentV, live: Seq<Seq<char>>) -> bool {
    match c.attached_to {
        Some(id) => live.contains(id),
        None => true,
    }
}

pub open spec fn pruned(cs: Seq<CommentV>, live: Seq<Seq<char>>) -> Seq<CommentV> {
    cs.filter(|c: CommentV| is_kept_comment(c, live))
}

/// The strand a new custom block's body lives in.
pub open spec fn is_block_strand(s: StrandV, block_id: Seq<char>, x: i32, y: i32) -> bool {
    &&& is_simple_uuid(s.id)
    &&& s.x == x
    &&& s.y == y
    &&& s.instructions.len() == 1
    &&& s.instructions[0].kind == KindV::BlockHeader(block_id)
    &&& is_simple_uuid(s.instructions[0].id)
}

pub open spec fn slot_views(r: Seq<(String, InputValueType)>) -> Seq<(Seq<char>, InputValueType)> {
    Seq::new(r.len(), |i: int| (r[i].0@, r[i].1))
}

pub(crate) fn input_slots_of(pieces: &[BlockPiece]) -> (r: Vec<(String, InputValueType)>)
    ensures
        slot_views(r@) == input_slots(views(pieces@)),
{
    let ghost p = views(pieces@);
    let mut out: Vec<(String, InputValueType)> = Vec::new();
    let mut i: usize = 0;
    while i < pieces.len()
        invariant
            i <= pieces@.len(),
            p == views(pieces@),
            slot_views(out@) == input_slots(p.take(i as int)),
        decreases pieces.len() - i,
    {
        proof {
            assert(p.take(i + 1).drop_last() =~= p.take(i as int));
        }
        match &pieces[i] {
            BlockPiece::Input { id, value_type, .. } => {
                out.push((id.clone(), *value_type));
            },
            _ => {},
        }
        assert(slot_views(out@) =~= input_slots(p.take(i + 1)));
        i = i + 1;
    }
    assert(p.take(pieces@.len() as int) =~= p);
    out
}

fn branch_ids_of(pieces: &[BlockPiece]) -> (r: Vec<String>)
    ensures
        views(r@) == branch_piece_ids(views(pieces@)),
{
    let ghost p = views(pieces@);
    let mut out: Vec<String> = Vec::new();
    let mut i: usize = 0;
    while i < pieces.len()
        invariant
            i <= pieces@.len(),
            p == views(pieces@),
            views(out@) == branch_piece_ids(p.take(i as int)),
        decreases pieces.len() - i,
    {
        proof {
            assert(p.take(i + 1).drop_last() =~= p.take(i as int));
        }
        match &pieces[i] {
            BlockPiece::Branch { id, .. } => {
                out.push(id.clone());
            },
            _ => {},
        }
        assert(views(out@) =~= branch_piece_ids(p.take(i + 1)));
        i = i + 1;
    }
    assert(p.take(pieces@.len() as int) =~= p);
    out
}

/// The first position of `id` in `ids`.
fn position(ids: &Vec<String>, id: &String) -> (r: Option<usize>)
    ensures
        r == as_index(first_index_of(views(ids@), id@)),
        r matches Some(i) ==> i < ids@.len(),
{
    let ghost v = views(ids@);
    let mut k: usize = 0;
    while k < ids.len()
        invariant
            k <= ids@.len(),
            v == views(ids@),
            forall|j: int| 0 <= j < k ==> v[j] != id@,
        decreases ids.len() - k,
    {
        if ids[k] == *id {
            proof {
                lemma_first_index_at(v, id@, k as int);
            }
            return Some(k);
        }
        k = k + 1;
    }
    proof {
        lemma_first_index_at(v, id@, k as int);
    }
    None
}

fn make_arg_plan(old_pieces: &[BlockPiece], new_pieces: &[BlockPiece]) -> (r: Vec<ArgSlot>)
    ensures
        r@ == arg_plan(views(old_pieces@), views(new_pieces@)),
{
    let olds = input_slots_of(old_pieces);
    let mut old_ids: Vec<String> = Vec::new();
    let mut i: usize = 0;
    while i < olds.len()
        invariant
            i <= olds@.len(),
            old_ids@.len() == i,
            forall|j: int| 0 <= j < i ==> #[trigger] old_ids@[j]@ == olds@[j].0@,
        decreases olds.len() - i,
    {
        old_ids.push(olds[i].0.clone());
        i = i + 1;
    }
    assert(views(old_ids@) =~= input_piece_ids(views(old_pieces@)));
    let news = input_slots_of(new_pieces);
    let mut plan: Vec<ArgSlot> = Vec::new();
    let mut k: usize = 0;
    while k < news.len()
        invariant
            k <= news@.len(),
            views(old_ids@) == input_piece_ids(views(old_pieces@)),
            slot_views(news@) == input_slots(views(new_pieces@)),
            plan@ == arg_plan(views(old_pieces@), views(new_pieces@)).take(k as int),
        decreases news.len() - k,
    {
        let source = position(&old_ids, &news[k].0);
        plan.push(ArgSlot { source, value_type: news[k].1 });
        assert(plan@ =~= arg_plan(views(old_pieces@), views(new_pieces@)).take(k + 1));
        k = k + 1;
    }
    assert(plan@ =~= arg_plan(views(old_pieces@), views(new_pieces@)));
    plan
}

fn make_branch_plan(old_pieces: &[BlockPiece], new_pieces: &[BlockPiece]) -> (r: Vec<Option<usize>>)
    ensures
        r@ == branch_plan(views(old_pieces@), views(new_pieces@)),
{
    let old_ids = branch_ids_of(old_pieces);
    let new_ids = branch_ids_of(new_pieces);
    let mut plan: Vec<Option<usize>> = Vec::new();
    let mut k: usize = 0;
    while k < new_ids.len()
        invariant
            k <= new_ids@.len(),
            views(old_ids@) == branch_piece_ids(views(old_pieces@)),
            views(new_ids@) == branch_piece_ids(views(new_pieces@)),
            plan@ == branch_plan(views(old_pieces@), views(new_pieces@)).take(k as int),
        decreases new_ids.len() - k,
    {
        let source = position(&old_ids, &new_ids[k]);
        plan.push(source);
        assert(plan@ =~= branch_plan(views(old_pieces@), views(new_pieces@)).take(k + 1));
        k = k + 1;
    }
    assert(plan@ =~= branch_plan(views(old_pieces@), views(new_pieces@)));
    plan
}

/// Whether the strand is the body of custom block `block_id`.
fn is_block_body(s: &Strand, block_id: &str) -> (r: bool)
    ensures
        r == heads_block(s@, block_id@),
{
    if s.instructions.len() == 0 {
        false
    } else {
        match &s.instructions[0].kind {
            InstructionKind::BlockHeader(id) => str_eq(id, block_id),
            _ => false,
        }
    }
}

/// Whether `ids` holds `id`.
fn holds(ids: &Vec<String>, id: &String) -> (r: bool)
    ensures
        r == views(ids@).contains(id@),
{
    let mut k: usize = 0;
    while k < ids.len()
        invariant
            k <= ids@.len(),
            forall|j: int| 0 <= j < k ==> views(ids@)[j] != id@,
        decreases ids.len() - k,
    {
        if ids[k] == *id {
            assert(views(ids@)[k as int] == id@);
            return true;
        }
        k = k + 1;
    }
    false
}

impl Macro {
    /// Applies `r` to the instructions of every strand.
    pub(crate) fn slot_rewrite_strands(&mut self, r: &SlotRewrite)
        ensures
            final(self)@ == (MacroV { strands: se_strands(old(self)@.strands, r@), ..old(self)@ }),
    {
        let ghost s0 = self@.strands;
        let mut k: usize = 0;
        while k < self.strands.len()
            invariant
                k <= self.strands@.len(),
                s0.len() == self.strands@.len(),
                s0 == old(self)@.strands,
                forall|j: int| 0 <= j < k ==> #[trigger] views(self.strands@)[j] == se_strands(s0, r@)[j],
                forall|j: int| k <= j < s0.len() ==> #[trigger] views(self.strands@)[j] == s0[j],
                self@ == (MacroV { strands: self@.strands, ..old(self)@ }),
            decreases self.strands.len() - k,
        {
            assert(views(self.strands@)[k as int] == s0[k as int]);
            let st = elem_mut(&mut self.strands, k);
            slot_rewrite_instrs(&mut st.instructions, r);
            k = k + 1;
        }
        assert(self@.strands =~= se_strands(s0, r@));
    }

    /// Defines a new custom block: appends its definition and creates its
    /// body strand, holding only its header, at `(x, y)`. Returns the new
    /// block's id.
    pub fn create_block(&mut self, pieces: Vec<BlockPiece>, shape: BlockShape, color: String, x: i32, y: i32) -> (r:
        String)
        ensures
            is_simple_uuid(r@),
            final(self)@.block_defs == old(self)@.block_defs.push(
                BlockDefV { id: r@, pieces: views(pieces@), shape: shape, color: color@ },
            ),
            final(self)@.strands.len() == old(self)@.strands.len() + 1,
            final(self)@.strands.drop_last() == old(self)@.strands,
            is_block_strand(final(self)@.strands.last(), r@, x, y),
            final(self)@ == (MacroV {
                strands: final(self)@.strands,
                block_defs: final(self)@.block_defs,
                ..old(self)@
            }),
    {
        let id = fresh_id();
        self.block_defs.push(BlockDef { id: id.clone(), pieces, shape, color });
        let mut instructions: Vec<Instruction> = Vec::new();
        instructions.push(Instruction::new(InstructionKind::BlockHeader(id.clone())));
        self.strands.push(Strand { id: fresh_id(), x, y, instructions });
        assert(views(self.strands@).drop_last() =~= views(old(self).strands@));
        assert(views(self.block_defs@) =~= views(old(self).block_defs@).push(
            BlockDefV { id: id@, pieces: views(pieces@), shape: shape, color: color@ },
        ));
        id
    }

    /// Renames every `Param` leaf reading `from` to `to` inside the body of
    /// block `block_id` only.
    pub fn rename_block_input_body(&mut self, block_id: &str, from: &str, to: &str)
        ensures
            final(self)@ == (MacroV {
                strands: rw_block_bodies(old(self)@.strands, block_id@, Edit::RenameParam(from@, to@)),
                ..old(self)@
            }),
    {
        let r = Rewrite::RenameParam { from: owned(from), to: owned(to) };
        let ghost s0 = self@.strands;
        let mut k: usize = 0;
        while k < self.strands.len()
            invariant
                k <= self.strands@.len(),
                s0.len() == self.strands@.len(),
                s0 == old(self)@.strands,
                r@ == Edit::RenameParam(from@, to@),
                forall|j: int| 0 <= j < k ==> #[trigger] views(self.strands@)[j] == rw_block_bodies(s0, block_id@, r@)[j],
                forall|j: int| k <= j < s0.len() ==> #[trigger] views(self.strands@)[j] == s0[j],
                self@ == (MacroV { strands: self@.strands, ..old(self)@ }),
            decreases self.strands.len() - k,
        {
            assert(views(self.strands@)[k as int] == s0[k as int]);
            if is_block_body(&self.strands[k], block_id) {
                let st = elem_mut(&mut self.strands, k);
                rewrite_instrs(&mut st.instructions, &r);
            }
            k = k + 1;
        }
        assert(self@.strands =~= rw_block_bodies(s0, block_id@, r@));
    }

    /// Renames the `RunBranch` markers reading `from` to `to` inside the
    /// body of block `block_id` only, at every depth.
    pub fn rename_block_branch_body(&mut self, block_id: &str, from: &str, to: &str)
        ensures
            final(self)@ == (MacroV {
                strands: se_block_bodies(old(self)@.strands, block_id@, SlotEdit::RenameBranch(from@, to@)),
                ..old(self)@
            }),
            final(self)@.strands.len() == old(self)@.strands.len(),
            forall|j: int, m: Seq<char>|
                0 <= j < old(self)@.strands.len() ==> #[trigger] instrs_run(final(self)@.strands[j].instructions, m)
                    == if heads_block(old(self)@.strands[j], block_id@) {
                    (m != from@ && instrs_run(old(self)@.strands[j].instructions, m)) || (m == to@ && instrs_run(
                        old(self)@.strands[j].instructions,
                        from@,
                    ))
                } else {
                    instrs_run(old(self)@.strands[j].instructions, m)
                },
    {
        proof {
            law_branch_rename_reaches_every_marker(old(self)@.strands, block_id@, from@, to@);
        }
        let r = SlotRewrite::RenameBranch { from: owned(from), to: owned(to) };
        let ghost s0 = self@.strands;
        let mut k: usize = 0;
        while k < self.strands.len()
            invariant
                k <= self.strands@.len(),
                s0.len() == self.strands@.len(),
                s0 == old(self)@.strands,
                r@ == SlotEdit::RenameBranch(from@, to@),
                forall|j: int| 0 <= j < k ==> #[trigger] views(self.strands@)[j] == se_block_bodies(s0, block_id@, r@)[j],
                forall|j: int| k <= j < s0.len() ==> #[trigger] views(self.strands@)[j] == s0[j],
                self@ == (MacroV { strands: self@.strands, ..old(self)@ }),
            decreases self.strands.len() - k,
        {
            assert(views(self.strands@)[k as int] == s0[k as int]);
            if is_block_body(&self.strands[k], block_id) {
                let st = elem_mut(&mut self.strands, k);
                slot_rewrite_instrs(&mut st.instructions, &r);
            }
            k = k + 1;
        }
        assert(self@.strands =~= se_block_bodies(s0, block_id@, r@));
    }

    /// Rebuilds every call site of block `block_id` to follow a prototype
    /// change from `old_pieces` to `new_pieces`: each input keeps the
    /// argument of the old input with the same piece id and a new input
    /// gets a blank of its type; branches are carried over by piece id the
    /// same way, a new branch starting empty.
    pub fn reconcile_block_call_args(&mut self, block_id: &str, old_pieces: &[BlockPiece], new_pieces: &[BlockPiece])
        ensures
            final(self)@ == (MacroV {
                strands: reconciled_strands(
                    old(self)@.strands,
                    block_id@,
                    arg_plan(views(old_pieces@), views(new_pieces@)),
                    branch_plan(views(old_pieces@), views(new_pieces@)),
                ),
                floating_values: rw_floating(
                    old(self)@.floating_values,
                    Edit::RebuildArgs(block_id@, arg_plan(views(old_pieces@), views(new_pieces@))),
                ),
                ..old(self)@
            }),
            final(self)@.strands.len() == old(self)@.strands.len(),
            final(self)@.floating_values.len() == old(self)@.floating_values.len(),
            forall|j: int|
                0 <= j < old(self)@.strands.len() ==> instrs_calls((#[trigger] final(self)@.strands[j]).instructions, block_id@, false)
                    == rebuilt_calls(
                    instrs_calls(old(self)@.strands[j].instructions, block_id@, false),
                    block_id@,
                    arg_plan(views(old_pieces@), views(new_pieces@)),
                ),
            forall|j: int|
                0 <= j < old(self)@.floating_values.len() ==> value_calls((#[trigger] final(self)@.floating_values[j]).value, block_id@, true)
                    == rebuilt_calls(
                    value_calls(old(self)@.floating_values[j].value, block_id@, true),
                    block_id@,
                    arg_plan(views(old_pieces@), views(new_pieces@)),
                ),
    {
        proof {
            law_reconcile_rebuilds_every_call(
                old(self)@.strands,
                old(self)@.floating_values,
                block_id@,
                arg_plan(views(old_pieces@), views(new_pieces@)),
                branch_plan(views(old_pieces@), views(new_pieces@)),
            );
        }
        let args = make_arg_plan(old_pieces, new_pieces);
        let branches = make_branch_plan(old_pieces, new_pieces);
        let rebuild = Rewrite::RebuildArgs { block_id: owned(block_id), plan: args };
        self.rewrite_strands(&rebuild);
        let realign = SlotRewrite::RebuildBranches { block_id: owned(block_id), plan: branches };
        self.slot_rewrite_strands(&realign);
        self.rewrite_floating(&rebuild);
        assert(self@.strands =~= reconciled_strands(
            old(self)@.strands,
            block_id@,
            arg_plan(views(old_pieces@), views(new_pieces@)),
            branch_plan(views(old_pieces@), views(new_pieces@)),
        ));
    }

    /// Drops every comment attached to an instruction that no longer
    /// exists.
    pub fn prune_orphaned_comments(&mut self)
        ensures
            final(self)@ == (MacroV { comments: pruned(old(self)@.comments, live_ids(old(self)@.strands)), ..old(self)@ }),
            forall|c: CommentV| #[trigger] old(self)@.comments.contains(c) ==> (final(self)@.comments.contains(c)
                == attached_live(c, old(self)@.strands)),
            forall|c: CommentV| #[trigger] final(self)@.comments.contains(c) ==> old(self)@.comments.contains(c),
    {
        proof {
            law_prune_keeps_comments_on_existing_instructions(old(self)@.comments, old(self)@.strands);
        }
        let mut live: Vec<String> = Vec::new();
        let mut k: usize = 0;
        while k < self.strands.len()
            invariant
                k <= self.strands@.len(),
                views(live@) == live_ids(self@.strands.take(k as int)),
            decreases self.strands.len() - k,
        {
            proof {
                assert(self@.strands.take(k + 1).drop_last() =~= self@.strands.take(k as int));
            }
            collect_ids(&self.strands[k].instructions, &mut live);
            k = k + 1;
        }
        assert(self@.strands.take(self@.strands.len() as int) =~= self@.strands);
        let ghost lv = views(live@);
        let mut keep: Vec<bool> = Vec::new();
        let mut i: usize = 0;
        while i < self.comments.len()
            invariant
                i <= self.comments@.len(),
                keep@.len() == i,
                lv == views(live@),
                forall|j: int| 0 <= j < i ==> keep@[j] == is_kept_comment(#[trigger] self.comments@[j]@, lv),
            decreases self.comments.len() - i,
        {
            let kept = match &self.comments[i].attached_to {
                Some(id) => holds(&live, id),
                None => true,
            };
            keep.push(kept);
            i = i + 1;
        }
        retain_flagged(&mut self.comments, &keep, Ghost(|c: CommentV| is_kept_comment(c, lv)));
    }

    /// Deletes custom block `block_id` entirely: its definition, its body
    /// strand, every call of it wherever nested, and every value call of it
    /// (collapsed to a plain `0`), so nothing is left dangling; then drops
    /// the comments left without an instruction.
    pub fn remove_block(&mut self, block_id: &str)
        ensures
            final(self)@ == (MacroV {
                block_defs: kept_defs(old(self)@.block_defs, block_id@),
                strands: removed_strands(old(self)@.strands, block_id@),
                floating_values: removed_floating(old(self)@.floating_values, block_id@),
                comments: pruned(old(self)@.comments, live_ids(removed_strands(old(self)@.strands, block_id@))),
                ..old(self)@
            }),
            forall|i: int|
                0 <= i < old(self)@.block_defs.len() && old(self)@.block_defs[i].id != block_id@
                    ==> final(self)@.block_defs.contains(#[trigger] old(self)@.block_defs[i]),
            forall|d: BlockDefV| #[trigger] final(self)@.block_defs.contains(d) ==> d.id != block_id@
                && old(self)@.block_defs.contains(d),
            forall|c: CommentV| #[trigger] old(self)@.comments.contains(c) ==> (final(self)@.comments.contains(c)
                == attached_live(c, final(self)@.strands)),
            forall|c: CommentV| #[trigger] final(self)@.comments.contains(c) ==> old(self)@.comments.contains(c),
    {
        proof {
            law_remove_block_keeps_other_defs(old(self)@.block_defs, block_id@);
            law_prune_keeps_comments_on_existing_instructions(
                old(self)@.comments,
                removed_strands(old(self)@.strands, block_id@),
            );
        }
        let mut keep: Vec<bool> = Vec::new();
        let mut i: usize = 0;
        while i < self.block_defs.len()
            invariant
                i <= self.block_defs@.len(),
                keep@.len() == i,
                forall|j: int| 0 <= j < i ==> keep@[j] == (#[trigger] self.block_defs@[j]@.id != block_id@),
            decreases self.block_defs.len() - i,
        {
            keep.push(!str_eq(&self.block_defs[i].id, block_id));
            i = i + 1;
        }
        retain_flagged(&mut self.block_defs, &keep, Ghost(|d: BlockDefV| d.id != block_id@));

        let mut keep: Vec<bool> = Vec::new();
        let mut i: usize = 0;
        while i < self.strands.len()
            invariant
                i <= self.strands@.len(),
                keep@.len() == i,
                forall|j: int| 0 <= j < i ==> keep@[j] == !heads_block(#[trigger] self.strands@[j]@, block_id@),
            decreases self.strands.len() - i,
        {
            keep.push(!is_block_body(&self.strands[i], block_id));
            i = i + 1;
        }
        retain_flagged(&mut self.strands, &keep, Ghost(|t: StrandV| !heads_block(t, block_id@)));

        let scrub = Rewrite::ScrubCalls { block_id: owned(block_id) };
        let ghost s1 = self@.strands;
        let ghost m1 = self@;
        let mut k: usize = 0;
        while k < self.strands.len()
            invariant
                k <= self.strands@.len(),
                s1.len() == self.strands@.len(),
                scrub@ == Edit::ScrubCalls(block_id@),
                forall|j: int| 0 <= j < k ==> #[trigger] views(self.strands@)[j] == without_block(s1[j], block_id@),
                forall|j: int| k <= j < s1.len() ==> #[trigger] views(self.strands@)[j] == s1[j],
                self@ == (MacroV { strands: self@.strands, ..m1 }),
            decreases self.strands.len() - k,
        {
            assert(views(self.strands@)[k as int] == s1[k as int]);
            let st = elem_mut(&mut self.strands, k);
            purge_instrs(&mut st.instructions, block_id);
            rewrite_instrs(&mut st.instructions, &scrub);
            k = k + 1;
        }
        assert(self@.strands =~= removed_strands(old(self)@.strands, block_id@));
        let ghost f0 = self@.floating_values;
        let ghost m2 = self@;
        let mut k: usize = 0;
        while k < self.floating_values.len()
            invariant
                k <= self.floating_values@.len(),
                f0.len() == self.floating_values@.len(),
                scrub@ == Edit::ScrubCalls(block_id@),
                forall|j: int| 0 <= j < k ==> #[trigger] views(self.floating_values@)[j] == removed_floating(f0, block_id@)[j],
                forall|j: int| k <= j < f0.len() ==> #[trigger] views(self.floating_values@)[j] == f0[j],
                self@ == (MacroV { floating_values: self@.floating_values, ..m2 }),
            decreases self.floating_values.len() - k,
        {
            assert(views(self.floating_values@)[k as int] == f0[k as int]);
            let fv = elem_mut(&mut self.floating_values, k);
            fv.value.purge(block_id);
            fv.value.rewrite(&scrub, false);
            k = k + 1;
        }
        assert(self@.floating_values =~= removed_floating(f0, block_id@));
        self.prune_orphaned_comments();
    }
}

} // verus!
