//! The upgrades a macro goes through when it is loaded from a save file:
//! the legacy formats, boolean slots poisoned by an old bug, block colours
//! and inline comments.
use vstd::prelude::*;
use crate::blocks::{default_block_color, default_color, normalize_block_color, normalized_color, BlockDefV, InputValueType};
use crate::copy::duplicate_instrs;
use crate::custom::{input_slots, input_slots_of, se_strands, slot_views};
use crate::edit::{rw_instrs, rw_kind, rw_branches, group_rewrite, Edit};
use crate::editing::{rw_floating, rw_strands};
use crate::ids::{fresh_id, is_simple_uuid};
use crate::macros::{first_index_of, lemma_first_index_at, lemma_first_index_of, starts_with_header, strand_ids, Comment, CommentV, FloatingValue, ListDef, Macro, MacroSettings, MacroV, Strand, StrandV, VariableDef, DEFAULT_SPEED_MULTIPLIER_BITS};
use crate::blocks::BlockDef;
use crate::program::{group_program_views, view_instrs, view_value, view_values, Instruction, InstructionKind, InstructionV, KindV, Op, Value, ValueV};
use crate::rewrite::Rewrite;
use crate::seqs::{elem_mut, views};
use crate::slots::{bool_entries, group_slot_edit, se_branches, se_call_branches, se_instrs, se_kind, SlotEdit, SlotRewrite};
use crate::text::str_eq;
use crate::walk::{extract_comments, strip_instrs, texts_in, texts_in_branches, texts_in_kind};

use crate::laws::law_legacy_load_starts_with_when_ran;
verus! {

broadcast use {group_program_views, group_rewrite, group_slot_edit};

// ---------------------------------------------------------------------
// Legacy waits
// ---------------------------------------------------------------------

/// Whether `v` is a number literal equal to zero (either sign).
pub open spec fn is_zero_number(v: ValueV) -> bool {
    v matches ValueV::Number(b) && (b == 0 || b == 0x8000_0000_0000_0000u64)
}

/// A legacy `[duration, randomness]` wait as a single value: the duration
/// alone when the randomness is zero, otherwise a random pick between
/// `duration - randomness` and `duration + randomness`.
pub open spec fn waited(duration: ValueV, randomness: ValueV) -> ValueV {
    if is_zero_number(randomness) {
        duration
    } else {
        ValueV::Op(
            Op::Random,
            seq![
                ValueV::Op(Op::Sub, seq![duration, randomness], Box::new(ValueV::Number(0))),
                ValueV::Op(Op::Add, seq![duration, randomness], Box::new(ValueV::Number(0))),
            ],
            Box::new(ValueV::Number(0)),
        )
    }
}

/// Folds a legacy `[duration, randomness]` wait into today's single value.
pub fn migrate_wait_duration(duration: Value, randomness: Value) -> (r: Value)
    ensures
        r@ == waited(duration@, randomness@),
{
    let zero = match &randomness {
        Value::Number { bits } => *bits == 0 || *bits == 0x8000_0000_0000_0000u64,
        _ => false,
    };
    if zero {
        return duration;
    }
    let ghost dv = duration@;
    let ghost rv = randomness@;
    let d2 = duration.duplicate();
    let r2 = randomness.duplicate();
    let mut low: Vec<Value> = Vec::new();
    low.push(d2);
    low.push(r2);
    assert(view_values(low@) =~= seq![dv, rv]);
    let mut high: Vec<Value> = Vec::new();
    high.push(duration);
    high.push(randomness);
    assert(view_values(high@) =~= seq![dv, rv]);
    let sub = Value::Op { op: Op::Sub, args: low, saved: Box::new(Value::Number { bits: 0 }) };
    let add = Value::Op { op: Op::Add, args: high, saved: Box::new(Value::Number { bits: 0 }) };
    let ghost sv = sub@;
    let ghost av = add@;
    let mut picks: Vec<Value> = Vec::new();
    picks.push(sub);
    picks.push(add);
    assert(view_values(picks@) =~= seq![sv, av]);
    let r = Value::Op { op: Op::Random, args: picks, saved: Box::new(Value::Number { bits: 0 }) };
    proof {
        let zv = view_value(Value::Number { bits: 0 });
        assert(zv == ValueV::Number(0));
        assert(sv == ValueV::Op(Op::Sub, seq![dv, rv], Box::new(ValueV::Number(0))));
        assert(av == ValueV::Op(Op::Add, seq![dv, rv], Box::new(ValueV::Number(0))));
        assert(!is_zero_number(rv));
        assert(r@ == waited(dv, rv));
    }
    r
}

// ---------------------------------------------------------------------
// Load-time upgrades of a macro
// ---------------------------------------------------------------------

/// The id of the implicit strand of the saves from before "When Ran"
/// blocks existed.
pub open spec fn legacy_root_id() -> Seq<char> {
    seq!['r', 'o', 'o', 't']
}

/// Whether the legacy root strand is present and lacks a header.
pub open spec fn root_needs_header(s: Seq<StrandV>) -> bool {
    first_index_of(strand_ids(s), legacy_root_id()) matches Some(i) && !starts_with_header(s[i])
}

/// The strands once the legacy root strand gains a `WhenRan` header with
/// id `hid`.
pub open spec fn root_upgraded(s: Seq<StrandV>, hid: Seq<char>) -> Seq<StrandV> {
    match first_index_of(strand_ids(s), legacy_root_id()) {
        Some(i) => if starts_with_header(s[i]) {
            s
        } else {
            s.update(
                i,
                StrandV {
                    instructions: seq![InstructionV { id: hid, kind: KindV::WhenRan }] + s[i].instructions,
                    ..s[i]
                },
            )
        },
        None => s,
    }
}

/// The boolean flags of the inputs of a prototype.
pub open spec fn bool_flags(p: Seq<crate::blocks::PieceV>) -> Seq<bool> {
    Seq::new(input_slots(p).len(), |k: int| input_slots(p)[k].1 == InputValueType::Bool)
}

/// Block id to input flags, one entry per definition.
pub open spec fn bool_table(defs: Seq<BlockDefV>) -> Seq<(Seq<char>, Seq<bool>)> {
    Seq::new(defs.len(), |i: int| (defs[i].id, bool_flags(defs[i].pieces)))
}

/// The definitions with every colour normalized, an invalid one replaced
/// by the default accent.
pub open spec fn colors_normalized(defs: Seq<BlockDefV>) -> Seq<BlockDefV> {
    Seq::new(
        defs.len(),
        |i: int|
            BlockDefV {
                color: match normalized_color(defs[i].color) {
                    Some(c) => c,
                    None => default_color(),
                },
                ..defs[i]
            },
    )
}

/// The macro once boolean slots, custom-block boolean arguments, floating
/// values and block colours are repaired.
pub open spec fn bools_migrated(m: MacroV) -> MacroV {
    MacroV {
        strands: se_strands(rw_strands(m.strands, Edit::MigrateBools), SlotEdit::RepairBoolArgs(bool_table(m.block_defs))),
        floating_values: rw_floating(m.floating_values, Edit::MigrateBools),
        block_defs: colors_normalized(m.block_defs),
        ..m
    }
}

/// The freestanding comments a strand's inline comments become (ids left
/// blank): parked right of the strand, one under the other.
pub open spec fn strand_notes(s: StrandV) -> Seq<CommentV> {
    Seq::new(
        texts_in(s.instructions).len(),
        |i: int|
            CommentV {
                id: Seq::empty(),
                x: (s.x + 40) as i32,
                y: (s.y + 40 + 30 * i) as i32,
                text: texts_in(s.instructions)[i],
                collapsed: false,
                attached_to: None,
            },
    )
}

pub open spec fn legacy_notes(s: Seq<StrandV>) -> Seq<CommentV>
    decreases s.len(),
{
    if s.len() == 0 {
        Seq::empty()
    } else {
        legacy_notes(s.drop_last()) + strand_notes(s.last())
    }
}

/// Whether the positions of a strand's migrated comments fit in `i32`.
pub open spec fn notes_fit_strand(s: StrandV) -> bool {
    let n = texts_in(s.instructions).len();
    n == 0 || (s.x + 40 <= i32::MAX && 30 * (n - 1) <= i32::MAX && s.y + 40 + 30 * (n - 1) <= i32::MAX)
}

pub open spec fn notes_fit(s: Seq<StrandV>) -> bool {
    forall|j: int| 0 <= j < s.len() ==> notes_fit_strand(#[trigger] s[j])
}

/// `after` is `before` followed by `notes`, each with a fresh id.
pub open spec fn notes_appended(before: Seq<CommentV>, after: Seq<CommentV>, notes: Seq<CommentV>) -> bool {
    &&& after.len() == before.len() + notes.len()
    &&& after.subrange(0, before.len() as int) == before
    &&& forall|k: int|
        0 <= k < notes.len() ==> {
            &&& #[trigger] after[before.len() + k] == CommentV { id: after[before.len() + k].id, ..notes[k] }
            &&& is_simple_uuid(after[before.len() + k].id)
        }
}

pub open spec fn strip_strands(s: Seq<StrandV>) -> Seq<StrandV> {
    Seq::new(s.len(), |j: int| StrandV { instructions: strip_instrs(s[j].instructions), ..s[j] })
}

/// `after` is `before` with every inline comment moved out of the strands
/// into freestanding comments.
pub open spec fn legacy_migrated(before: MacroV, after: MacroV) -> bool {
    &&& after == MacroV { strands: strip_strands(before.strands), comments: after.comments, ..before }
    &&& notes_appended(before.comments, after.comments, legacy_notes(before.strands))
}

// ---------------------------------------------------------------------
// Comment texts survive the boolean repairs
// ---------------------------------------------------------------------

proof fn lemma_texts_rw(s: Seq<InstructionV>, e: Edit)
    ensures
        texts_in(rw_instrs(s, e)) == texts_in(s),
    decreases s,
{
    if s.len() > 0 {
        let n = s.len() - 1;
        let r = rw_instrs(s, e);
        assert(r.subrange(0, n) =~= rw_instrs(s.subrange(0, n), e));
        lemma_texts_rw(s.subrange(0, n), e);
        lemma_texts_rw_kind(s[n].kind, e);
    }
}

proof fn lemma_texts_rw_kind(k: KindV, e: Edit)
    ensures
        texts_in_kind(rw_kind(k, e)) == texts_in_kind(k),
        (rw_kind(k, e) is Comment) == (k is Comment),
        k matches KindV::Comment(t) ==> rw_kind(k, e) == k,
    decreases k,
{
    match k {
        KindV::If { body, .. } => lemma_texts_rw(body, e),
        KindV::IfElse { then_body, else_body, .. } => {
            lemma_texts_rw(then_body, e);
            lemma_texts_rw(else_body, e);
        },
        KindV::Repeat { body, .. } => lemma_texts_rw(body, e),
        KindV::Forever { body } => lemma_texts_rw(body, e),
        KindV::While { body, .. } => lemma_texts_rw(body, e),
        KindV::CallBlock { branches, .. } => lemma_texts_rw_branches(branches, e),
        _ => {},
    }
}

proof fn lemma_texts_rw_branches(bs: Seq<Seq<InstructionV>>, e: Edit)
    ensures
        texts_in_branches(rw_branches(bs, e)) == texts_in_branches(bs),
    decreases bs,
{
    if bs.len() > 0 {
        let n = bs.len() - 1;
        assert(rw_branches(bs, e).subrange(0, n) =~= rw_branches(bs.subrange(0, n), e));
        lemma_texts_rw_branches(bs.subrange(0, n), e);
        lemma_texts_rw(bs[n], e);
    }
}

proof fn lemma_texts_se(s: Seq<InstructionV>, e: SlotEdit)
    requires
        e is RepairBoolArgs,
    ensures
        texts_in(se_instrs(s, e)) == texts_in(s),
    decreases s,
{
    if s.len() > 0 {
        let n = s.len() - 1;
        let r = se_instrs(s, e);
        assert(r.subrange(0, n) =~= se_instrs(s.subrange(0, n), e));
        lemma_texts_se(s.subrange(0, n), e);
        lemma_texts_se_kind(s[n].kind, e);
    }
}

proof fn lemma_texts_se_kind(k: KindV, e: SlotEdit)
    requires
        e is RepairBoolArgs,
    ensures
        texts_in_kind(se_kind(k, e)) == texts_in_kind(k),
        (se_kind(k, e) is Comment) == (k is Comment),
        k matches KindV::Comment(t) ==> se_kind(k, e) == k,
    decreases k,
{
    match k {
        KindV::If { body, .. } => lemma_texts_se(body, e),
        KindV::IfElse { then_body, else_body, .. } => {
            lemma_texts_se(then_body, e);
            lemma_texts_se(else_body, e);
        },
        KindV::Repeat { body, .. } => lemma_texts_se(body, e),
        KindV::Forever { body } => lemma_texts_se(body, e),
        KindV::While { body, .. } => lemma_texts_se(body, e),
        KindV::CallBlock { block_id, branches, .. } => {
            assert(se_call_branches(block_id, se_branches(branches, e), e) == se_branches(branches, e));
            lemma_texts_se_branches(branches, e);
        },
        _ => {},
    }
}

proof fn lemma_texts_se_branches(bs: Seq<Seq<InstructionV>>, e: SlotEdit)
    requires
        e is RepairBoolArgs,
    ensures
        texts_in_branches(se_branches(bs, e)) == texts_in_branches(bs),
    decreases bs,
{
    if bs.len() > 0 {
        let n = bs.len() - 1;
        assert(se_branches(bs, e).subrange(0, n) =~= se_branches(bs.subrange(0, n), e));
        lemma_texts_se_branches(bs.subrange(0, n), e);
        lemma_texts_se(bs[n], e);
    }
}

/// A leading header instruction holds no comment text.
proof fn lemma_texts_prepend_header(hid: Seq<char>, s: Seq<InstructionV>)
    ensures
        texts_in(seq![InstructionV { id: hid, kind: KindV::WhenRan }] + s) == texts_in(s),
    decreases s.len(),
{
    let h = seq![InstructionV { id: hid, kind: KindV::WhenRan }];
    if s.len() == 0 {
        assert(h + s =~= h);
        assert(h.subrange(0, 0) =~= Seq::<InstructionV>::empty());
        assert(texts_in(Seq::<InstructionV>::empty()) == Seq::<Seq<char>>::empty());
        assert(texts_in_kind(KindV::WhenRan) == Seq::<Seq<char>>::empty());
        assert(texts_in(h) =~= Seq::<Seq<char>>::empty());
    } else {
        let n = s.len() - 1;
        assert((h + s).subrange(0, (h + s).len() - 1) =~= h + s.subrange(0, n));
        assert((h + s)[(h + s).len() - 1] == s[n]);
        lemma_texts_prepend_header(hid, s.subrange(0, n));
    }
}

proof fn lemma_fit_migrated(m: MacroV)
    requires
        notes_fit(m.strands),
    ensures
        notes_fit(bools_migrated(m).strands),
{
    let t = SlotEdit::RepairBoolArgs(bool_table(m.block_defs));
    let s1 = bools_migrated(m).strands;
    assert forall|j: int| 0 <= j < s1.len() implies notes_fit_strand(#[trigger] s1[j]) by {
        lemma_texts_rw(m.strands[j].instructions, Edit::MigrateBools);
        lemma_texts_se(rw_instrs(m.strands[j].instructions, Edit::MigrateBools), t);
        assert(notes_fit_strand(m.strands[j]));
    }
}

proof fn lemma_fit_root(s: Seq<StrandV>, hid: Seq<char>)
    requires
        notes_fit(s),
    ensures
        notes_fit(root_upgraded(s, hid)),
{
    let u = root_upgraded(s, hid);
    lemma_first_index_of(strand_ids(s), legacy_root_id());
    assert forall|j: int| 0 <= j < u.len() implies notes_fit_strand(#[trigger] u[j]) by {
        assert(notes_fit_strand(s[j]));
        lemma_texts_prepend_header(hid, s[j].instructions);
    }
}

/// One more freestanding comment after the ones already appended.
proof fn lemma_notes_push(before: Seq<CommentV>, after: Seq<CommentV>, notes: Seq<CommentV>, c: CommentV, n: CommentV)
    requires
        notes_appended(before, after, notes),
        c == (CommentV { id: c.id, ..n }),
        is_simple_uuid(c.id),
    ensures
        notes_appended(before, after.push(c), notes.push(n)),
{
    let a2 = after.push(c);
    let n2 = notes.push(n);
    assert(a2.subrange(0, before.len() as int) =~= after.subrange(0, before.len() as int));
    assert forall|k: int| 0 <= k < n2.len() implies {
        &&& #[trigger] a2[before.len() + k] == CommentV { id: a2[before.len() + k].id, ..n2[k] }
        &&& is_simple_uuid(a2[before.len() + k].id)
    } by {
        if k < notes.len() {
            assert(a2[before.len() + k] == after[before.len() + k]);
        }
    }
}

fn bool_flags_of(pieces: &Vec<crate::blocks::BlockPiece>) -> (r: Vec<bool>)
    ensures
        r@ == bool_flags(views(pieces@)),
{
    let slots = input_slots_of(pieces.as_slice());
    let mut flags: Vec<bool> = Vec::new();
    let mut k: usize = 0;
    while k < slots.len()
        invariant
            k <= slots@.len(),
            flags@.len() == k,
            slot_views(slots@) == input_slots(views(pieces@)),
            forall|j: int| 0 <= j < k ==> #[trigger] flags@[j] == (slots@[j].1 == InputValueType::Bool),
        decreases slots.len() - k,
    {
        flags.push(slots[k].1 == InputValueType::Bool);
        k = k + 1;
    }
    assert(flags@ =~= bool_flags(views(pieces@)));
    flags
}

/// Appending two runs of comments appends their concatenation.
proof fn lemma_notes_concat(a: Seq<CommentV>, b: Seq<CommentV>, c: Seq<CommentV>, p: Seq<CommentV>, q: Seq<CommentV>)
    requires
        notes_appended(a, b, p),
        notes_appended(b, c, q),
    ensures
        notes_appended(a, c, p + q),
{
    assert(c.subrange(0, a.len() as int) =~= b.subrange(0, a.len() as int)) by {
        assert forall|k: int| 0 <= k < a.len() implies c[k] == b[k] by {
            assert(c.subrange(0, b.len() as int)[k] == c[k]);
        }
    }
    assert forall|k: int| 0 <= k < (p + q).len() implies {
        &&& #[trigger] c[a.len() + k] == CommentV { id: c[a.len() + k].id, ..(p + q)[k] }
        &&& is_simple_uuid(c[a.len() + k].id)
    } by {
        if k < p.len() {
            assert(c.subrange(0, b.len() as int)[a.len() + k] == c[a.len() + k]);
            assert(b[a.len() + k] == CommentV { id: b[a.len() + k].id, ..p[k] });
        } else {
            assert(c[b.len() + (k - p.len())] == CommentV { id: c[b.len() + (k - p.len())].id, ..q[k - p.len()] });
        }
    }
}

/// Appends one freestanding comment per text, parked right of the strand
/// at `(x, y)`.
fn park_notes(comments: &mut Vec<Comment>, x: i32, y: i32, texts: &Vec<String>, Ghost(s): Ghost<StrandV>)
    requires
        s.x == x,
        s.y == y,
        views(texts@) == texts_in(s.instructions),
        notes_fit_strand(s),
    ensures
        notes_appended(views(old(comments)@), views(final(comments)@), strand_notes(s)),
{
    let ghost c0 = views(comments@);
    let ghost notes = strand_notes(s);
    assert(c0.subrange(0, c0.len() as int) =~= c0);
    assert(notes.take(0) =~= Seq::<CommentV>::empty());
    let mut i: usize = 0;
    while i < texts.len()
        invariant
            i <= texts@.len(),
            views(texts@) == texts_in(s.instructions),
            notes == strand_notes(s),
            s.x == x,
            s.y == y,
            notes_fit_strand(s),
            c0 == views(old(comments)@),
            notes_appended(c0, views(comments@), notes.take(i as int)),
        decreases texts.len() - i,
    {
        assert(texts@.len() == views(texts@).len());
        let row: i32 = i as i32;
        let c = Comment {
            id: fresh_id(),
            x: x + 40,
            y: y + 40 + row * 30,
            text: texts[i].clone(),
            collapsed: false,
            attached_to: None,
        };
        proof {
            assert(views(texts@)[i as int] == texts@[i as int]@);
            lemma_notes_push(c0, views(comments@), notes.take(i as int), c@, notes[i as int]);
            assert(notes.take(i + 1) =~= notes.take(i as int).push(notes[i as int]));
            assert(views(comments@.push(c)) =~= views(comments@).push(c@));
        }
        comments.push(c);
        i = i + 1;
    }
    assert(notes.take(texts@.len() as int) =~= notes);
}

impl Macro {
    /// Moves every inline `Comment` instruction (at every depth) out of the
    /// strands, re-homing each as a freestanding
    /// comment parked right of its strand.
    pub fn migrate_legacy_comments(&mut self)
        requires
            notes_fit(old(self)@.strands),
        ensures
            legacy_migrated(old(self)@, final(self)@),
    {
        let ghost s0 = self@.strands;
        let ghost c0 = self@.comments;
        assert(c0.subrange(0, c0.len() as int) =~= c0);
        assert(s0.take(0) =~= Seq::<StrandV>::empty());
        let mut k: usize = 0;
        while k < self.strands.len()
            invariant
                k <= self.strands@.len(),
                s0.len() == self.strands@.len(),
                s0 == old(self)@.strands,
                c0 == old(self)@.comments,
                notes_fit(s0),
                forall|j: int| 0 <= j < k ==> #[trigger] views(self.strands@)[j] == strip_strands(s0)[j],
                forall|j: int| k <= j < s0.len() ==> #[trigger] views(self.strands@)[j] == s0[j],
                notes_appended(c0, self@.comments, legacy_notes(s0.take(k as int))),
                self@ == (MacroV { strands: self@.strands, comments: self@.comments, ..old(self)@ }),
            decreases self.strands.len() - k,
        {
            assert(views(self.strands@)[k as int] == s0[k as int]);
            proof {
                assert(s0.take(k + 1).drop_last() =~= s0.take(k as int));
                assert(notes_fit_strand(s0[k as int]));
            }
            let x = self.strands[k].x;
            let y = self.strands[k].y;
            let mut texts: Vec<String> = Vec::new();
            let st = elem_mut(&mut self.strands, k);
            extract_comments(&mut st.instructions, &mut texts);
            assert(views(texts@) =~= texts_in(s0[k as int].instructions));
            let ghost before = self@.comments;
            park_notes(&mut self.comments, x, y, &texts, Ghost(s0[k as int]));
            proof {
                lemma_notes_concat(c0, before, self@.comments, legacy_notes(s0.take(k as int)), strand_notes(s0[k as int]));
            }
            k = k + 1;
        }
        assert(s0.take(s0.len() as int) =~= s0);
        assert(self@.strands =~= strip_strands(s0));
    }

    /// Repairs the arguments of custom-block calls whose declared input is
    /// boolean; the flags of a block come from the last definition with
    /// its id.
    pub fn migrate_custom_block_bool_args(&mut self)
        ensures
            final(self)@ == (MacroV {
                strands: se_strands(old(self)@.strands, SlotEdit::RepairBoolArgs(bool_table(old(self)@.block_defs))),
                ..old(self)@
            }),
    {
        let mut table: Vec<(String, Vec<bool>)> = Vec::new();
        let mut i: usize = 0;
        while i < self.block_defs.len()
            invariant
                i <= self.block_defs@.len(),
                table@.len() == i,
                forall|j: int| 0 <= j < i ==> #[trigger] bool_entries(table@)[j] == bool_table(self@.block_defs)[j],
            decreases self.block_defs.len() - i,
        {
            let flags = bool_flags_of(&self.block_defs[i].pieces);
            let ghost t0 = table@;
            table.push((self.block_defs[i].id.clone(), flags));
            assert forall|j: int| 0 <= j < i implies #[trigger] bool_entries(table@)[j] == bool_table(self@.block_defs)[j] by {
                assert(table@[j] == t0[j]);
                assert(bool_entries(t0)[j] == bool_table(self@.block_defs)[j]);
            }
            assert(bool_entries(table@)[i as int] == bool_table(self@.block_defs)[i as int]);
            i = i + 1;
        }
        assert(bool_entries(table@) =~= bool_table(self@.block_defs));
        let r = SlotRewrite::RepairBoolArgs { table };
        self.slot_rewrite_strands(&r);
    }

    /// Normalizes every block colour, falling back to the default accent.
    fn normalize_colors(&mut self)
        ensures
            final(self)@ == (MacroV { block_defs: colors_normalized(old(self)@.block_defs), ..old(self)@ }),
    {
        let ghost d0 = self@.block_defs;
        let mut k: usize = 0;
        while k < self.block_defs.len()
            invariant
                k <= self.block_defs@.len(),
                d0.len() == self.block_defs@.len(),
                d0 == old(self)@.block_defs,
                forall|j: int| 0 <= j < k ==> #[trigger] views(self.block_defs@)[j] == colors_normalized(d0)[j],
                forall|j: int| k <= j < d0.len() ==> #[trigger] views(self.block_defs@)[j] == d0[j],
                self@ == (MacroV { block_defs: self@.block_defs, ..old(self)@ }),
            decreases self.block_defs.len() - k,
        {
            assert(views(self.block_defs@)[k as int] == d0[k as int]);
            let color = match normalize_block_color(self.block_defs[k].color.as_str()) {
                Some(c) => c,
                None => default_block_color(),
            };
            elem_mut(&mut self.block_defs, k).color = color;
            k = k + 1;
        }
        assert(self@.block_defs =~= colors_normalized(d0));
    }

    /// Boolean-slot, custom-argument, floating-value and colour repairs.
    fn migrate_on_load(&mut self)
        ensures
            final(self)@ == bools_migrated(old(self)@),
    {
        self.rewrite_strands(&Rewrite::MigrateBools);
        self.migrate_custom_block_bool_args();
        self.rewrite_floating(&Rewrite::MigrateBools);
        self.normalize_colors();
    }
}

/// Gives the legacy root strand a `WhenRan` header if it lacks one; the
/// header's id is returned.
fn upgrade_root(strands: &mut Vec<Strand>) -> (hid: Ghost<Seq<char>>)
    ensures
        views(final(strands)@) == root_upgraded(views(old(strands)@), hid@),
        root_needs_header(views(old(strands)@)) ==> is_simple_uuid(hid@),
{
    let ghost ids = strand_ids(views(strands@));
    proof {
        reveal_strlit("root");
    }
    let mut k: usize = 0;
    while k < strands.len()
        invariant
            k <= strands@.len(),
            ids == strand_ids(views(strands@)),
            *strands == *old(strands),
            forall|j: int| 0 <= j < k ==> ids[j] != legacy_root_id(),
        decreases strands.len() - k,
    {
        proof {
            reveal_strlit("root");
            assert("root"@ =~= legacy_root_id());
        }
        if str_eq(&strands[k].id, "root") {
            proof {
                lemma_first_index_at(ids, legacy_root_id(), k as int);
            }
            if !strands[k].starts_with_when_ran() {
                let header = Instruction::new(InstructionKind::WhenRan);
                let ghost hid = header@.id;
                let st = elem_mut(strands, k);
                let ghost before = view_instrs(st.instructions@);
                st.instructions.insert(0, header);
                proof {
                    assert(view_instrs(st.instructions@) =~= seq![InstructionV { id: hid, kind: KindV::WhenRan }] + before);
                }
                return Ghost(hid);
            }
            return Ghost(Seq::empty());
        }
        k = k + 1;
    }
    proof {
        lemma_first_index_at(ids, legacy_root_id(), k as int);
    }
    Ghost(Seq::empty())
}

/// A macro as read from a save file, before the load-time upgrades.
pub enum SavedMacro {
    /// The current multi-strand format.
    Current {
        id: String,
        name: String,
        description: String,
        strands: Vec<Strand>,
        recording_target: Option<String>,
        speed_multiplier_bits: u64,
        floating_values: Vec<FloatingValue>,
        comments: Vec<Comment>,
        variables: Vec<VariableDef>,
        lists: Vec<ListDef>,
        block_defs: Vec<BlockDef>,
        settings: MacroSettings,
    },
    /// The oldest format: one flat instruction list, run when the macro ran.
    Legacy { id: String, name: String, description: String, code: Vec<Instruction> },
}

pub ghost enum SavedV {
    Current(MacroV),
    Legacy { id: Seq<char>, name: Seq<char>, description: Seq<char>, code: Seq<InstructionV> },
}

impl View for SavedMacro {
    type V = SavedV;

    open spec fn view(&self) -> SavedV {
        match self {
            SavedMacro::Current {
                id,
                name,
                description,
                strands,
                recording_target,
                speed_multiplier_bits,
                floating_values,
                comments,
                variables,
                lists,
                block_defs,
                settings,
            } => SavedV::Current(
                MacroV {
                    id: id@,
                    name: name@,
                    description: description@,
                    strands: views(strands@),
                    recording_target: crate::program::opt_str_view(*recording_target),
                    speed_multiplier_bits: *speed_multiplier_bits,
                    floating_values: views(floating_values@),
                    comments: views(comments@),
                    variables: views(variables@),
                    lists: views(lists@),
                    block_defs: views(block_defs@),
                    settings: *settings,
                },
            ),
            SavedMacro::Legacy { id, name, description, code } => SavedV::Legacy {
                id: id@,
                name: name@,
                description: description@,
                code: view_instrs(code@),
            },
        }
    }
}

/// The macro a legacy save becomes before the repairs: one strand (id
/// `sid`) holding a `WhenRan` header (id `hid`) and then the code.
pub open spec fn legacy_base(
    id: Seq<char>,
    name: Seq<char>,
    description: Seq<char>,
    code: Seq<InstructionV>,
    sid: Seq<char>,
    hid: Seq<char>,
) -> MacroV {
    MacroV {
        id,
        name,
        description,
        strands: seq![
            StrandV {
                id: sid,
                x: 0,
                y: 0,
                instructions: seq![InstructionV { id: hid, kind: KindV::WhenRan }] + code,
            },
        ],
        recording_target: None,
        speed_multiplier_bits: DEFAULT_SPEED_MULTIPLIER_BITS,
        floating_values: Seq::empty(),
        comments: Seq::empty(),
        variables: Seq::empty(),
        lists: Seq::empty(),
        block_defs: Seq::empty(),
        settings: MacroSettings { always_listen: false },
    }
}

/// Whether every migrated comment of the save lands at a position that
/// fits in `i32`.
pub open spec fn saved_fits(s: SavedV) -> bool {
    match s {
        SavedV::Current(m) => notes_fit(m.strands),
        SavedV::Legacy { code, .. } => notes_fit_strand(
            StrandV { id: Seq::empty(), x: 0, y: 0, instructions: code },
        ),
    }
}

/// Whether `r` is what loading the save `s` gives, whatever fresh ids the
/// load drew.
pub open spec fn loaded_from(s: SavedV, r: MacroV) -> bool {
    match s {
        SavedV::Current(m) => exists|hid: Seq<char>|
            #![trigger root_upgraded(m.strands, hid)]
            {
                &&& root_needs_header(m.strands) ==> is_simple_uuid(hid)
                &&& legacy_migrated(bools_migrated(MacroV { strands: root_upgraded(m.strands, hid), ..m }), r)
            },
        SavedV::Legacy { id, name, description, code } => exists|sid: Seq<char>, hid: Seq<char>|
            {
                &&& is_simple_uuid(sid)
                &&& is_simple_uuid(hid)
                &&& legacy_migrated(bools_migrated(legacy_base(id, name, description, code, sid, hid)), r)
            },
    }
}

/// The number of inline comments `migrate_legacy_comments` would move out
/// of `code`.
fn comment_count(code: &Vec<Instruction>) -> (r: usize)
    ensures
        r == texts_in(view_instrs(code@)).len(),
{
    let mut copy = duplicate_instrs(code);
    let mut texts: Vec<String> = Vec::new();
    extract_comments(&mut copy, &mut texts);
    texts.len()
}

fn strand_fits(x: i32, y: i32, code: &Vec<Instruction>) -> (r: bool)
    ensures
        r == notes_fit_strand(StrandV { id: Seq::empty(), x, y, instructions: view_instrs(code@) }),
{
    let n = comment_count(code);
    if n == 0 {
        return true;
    }
    let rows: i128 = 30 * (n as i128 - 1);
    let top: i128 = i32::MAX as i128;
    (x as i128) + 40 <= top && rows <= top && y as i128 + 40 + rows <= top
}

impl SavedMacro {
    /// Whether every inline comment of this save can be re-homed at a
    /// position that fits in `i32`, as loading requires.
    pub fn legacy_comments_fit(&self) -> (r: bool)
        ensures
            r == saved_fits(self@),
    {
        match self {
            SavedMacro::Current { strands, .. } => {
                assert(saved_fits(self@) == notes_fit(views(strands@)));
                let mut k: usize = 0;
                while k < strands.len()
                    invariant
                        k <= strands@.len(),
                        saved_fits(self@) == notes_fit(views(strands@)),
                        forall|j: int| 0 <= j < k ==> notes_fit_strand(#[trigger] views(strands@)[j]),
                    decreases strands.len() - k,
                {
                    let fits = strand_fits(strands[k].x, strands[k].y, &strands[k].instructions);
                    assert(fits == notes_fit_strand(views(strands@)[k as int]));
                    if !fits {
                        assert(!notes_fit(views(strands@)));
                        return false;
                    }
                    k = k + 1;
                }
                true
            },
            SavedMacro::Legacy { code, .. } => strand_fits(0, 0, code),
        }
    }
}

proof fn lemma_current_loaded(m: MacroV, hid: Seq<char>, r: MacroV)
    requires
        root_needs_header(m.strands) ==> is_simple_uuid(hid),
        legacy_migrated(bools_migrated(MacroV { strands: root_upgraded(m.strands, hid), ..m }), r),
    ensures
        loaded_from(SavedV::Current(m), r),
{
}

proof fn lemma_legacy_loaded(
    id: Seq<char>,
    name: Seq<char>,
    description: Seq<char>,
    code: Seq<InstructionV>,
    sid: Seq<char>,
    hid: Seq<char>,
    r: MacroV,
)
    requires
        is_simple_uuid(sid),
        is_simple_uuid(hid),
        legacy_migrated(bools_migrated(legacy_base(id, name, description, code, sid, hid)), r),
    ensures
        loaded_from(SavedV::Legacy { id, name, description, code }, r),
{
}

/// The repairs and the comment migration, on a macro already in the
/// current shape.
fn finish_load(mac: Macro) -> (r: Macro)
    requires
        notes_fit(bools_migrated(mac@).strands),
    ensures
        legacy_migrated(bools_migrated(mac@), r@),
{
    let mut mac = mac;
    mac.migrate_on_load();
    mac.migrate_legacy_comments();
    mac
}

impl Macro {
    /// Builds a macro from a save, applying the load-time upgrades: a
    /// legacy flat save becomes one `WhenRan` strand, a legacy root strand
    /// gains its `WhenRan` header, poisoned boolean slots and custom-block
    /// boolean arguments are repaired, block colours are normalized, and
    /// inline comments become freestanding ones.
    pub fn from_saved(saved: SavedMacro) -> (r: Macro)
        requires
            saved_fits(saved@),
        ensures
            loaded_from(saved@, r@),
            saved@ is Legacy ==> r@.strands.len() == 1 && r@.strands[0].instructions.len() > 0
                && r@.strands[0].instructions[0].kind == KindV::WhenRan && is_simple_uuid(r@.strands[0].instructions[0].id)
                && r@.strands[0].instructions.drop_first() == strip_instrs(
                se_instrs(
                    rw_instrs(saved@->code, Edit::MigrateBools),
                    SlotEdit::RepairBoolArgs(bool_table(Seq::empty())),
                ),
            ),
    {
        let ghost sv = saved@;
        match saved {
            SavedMacro::Current {
                id,
                name,
                description,
                strands,
                recording_target,
                speed_multiplier_bits,
                floating_values,
                comments,
                variables,
                lists,
                block_defs,
                settings,
            } => {
                let ghost m = sv->Current_0;
                let mut strands = strands;
                let Ghost(hid) = upgrade_root(&mut strands);
                let mac = Macro {
                    id,
                    name,
                    description,
                    strands,
                    recording_target,
                    speed_multiplier_bits,
                    floating_values,
                    comments,
                    variables,
                    lists,
                    block_defs,
                    settings,
                };
                let ghost base = MacroV { strands: root_upgraded(m.strands, hid), ..m };
                assert(mac@ == base);
                proof {
                    lemma_fit_root(m.strands, hid);
                    lemma_fit_migrated(base);
                }
                let r = finish_load(mac);
                proof {
                    lemma_current_loaded(m, hid, r@);
                }
                r
            },
            SavedMacro::Legacy { id, name, description, code } => {
                let mut code = code;
                let ghost c0 = view_instrs(code@);
                let header = Instruction::new(InstructionKind::WhenRan);
                let ghost hid = header@.id;
                code.insert(0, header);
                assert(view_instrs(code@) =~= seq![InstructionV { id: hid, kind: KindV::WhenRan }] + c0);
                let strand = Strand { id: fresh_id(), x: 0, y: 0, instructions: code };
                let ghost sid = strand@.id;
                let mut strands: Vec<Strand> = Vec::new();
                strands.push(strand);
                let mac = Macro {
                    id,
                    name,
                    description,
                    strands,
                    recording_target: None,
                    speed_multiplier_bits: DEFAULT_SPEED_MULTIPLIER_BITS,
                    floating_values: Vec::new(),
                    comments: Vec::new(),
                    variables: Vec::new(),
                    lists: Vec::new(),
                    block_defs: Vec::new(),
                    settings: MacroSettings { always_listen: false },
                };
                let ghost base = legacy_base(sv->Legacy_id, sv->Legacy_name, sv->Legacy_description, c0, sid, hid);
                proof {
                    assert(views(mac.strands@) =~= base.strands);
                    assert(views(mac.floating_values@) =~= base.floating_values);
                    assert(views(mac.comments@) =~= base.comments);
                    assert(views(mac.variables@) =~= base.variables);
                    assert(views(mac.lists@) =~= base.lists);
                    assert(views(mac.block_defs@) =~= base.block_defs);
                    assert(mac@ == base);
                    lemma_texts_prepend_header(hid, c0);
                    assert(notes_fit_strand(base.strands[0]));
                    lemma_fit_migrated(base);
                }
                let r = finish_load(mac);
                proof {
                    lemma_legacy_loaded(sv->Legacy_id, sv->Legacy_name, sv->Legacy_description, c0, sid, hid, r@);
                    law_legacy_load_starts_with_when_ran(sv, r@);
                }
                r
            },
        }
    }
}

} // verus!
