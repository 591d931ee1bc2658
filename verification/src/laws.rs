//! Properties of the library that span several operations or calls.
use vstd::prelude::*;
use crate::blocks::{is_hex_color, normalized_color};
use crate::text::{ascii_upper, ascii_uppercased, is_ascii_hexdigit, is_whitespace, trimmed};
use crate::blocks::PieceV;
use crate::custom::{live_ids, reconciled_strands, se_block_bodies, arg_plan, branch_piece_ids, branch_plan, input_piece_ids, input_slots, is_kept_comment, kept_defs, pruned, removed_floating, removed_strands};
use crate::edit::{blank_value, rebuilt_args};
use crate::slots::realigned_branches;
use crate::editing::{heads_block, list_names, list_renamed, rw_block_bodies, rw_floating, rw_strands, variable_names, variable_renamed};
use crate::macros::FloatingV;
use crate::names::{instrs_refer, kind_refers, lemma_rename_back_instrs, lemma_rename_back_kind, lemma_rename_back_value, lemma_renamed_instrs, lemma_renamed_value, rename_edit, value_refers, NameKind};
use crate::purge::{instrs_reach, lemma_purged_instrs_clean, lemma_purged_value_clean, lemma_scrubbed_instrs_clean, lemma_scrubbed_value_clean, purged_instrs, purged_value, value_reaches};
use crate::edit::{group_rewrite, rw_branches, rw_instrs, rw_kind, rw_token, rw_value, rw_values, Edit};
use crate::editing::{lemma_first_when_ran_range, recording_index};
use crate::instructions::{body_slot, branch_slot, with_body_slot, with_branch_slot};
use crate::load::{bool_table, bools_migrated, legacy_base, legacy_migrated, legacy_notes, loaded_from, root_upgraded, strand_notes, strip_strands, SavedV};
use crate::reach::{instrs_calls, instrs_hold, instrs_run, lemma_calls_kept_by_branch_realign, lemma_calls_rebuilt_instrs, lemma_calls_rebuilt_value, lemma_contains_concat, lemma_ids_in_holds, lemma_run_renamed, rebuilt_calls, value_calls};
use crate::slots::{se_instrs, SlotEdit};
use crate::ids::is_simple_uuid;
use crate::blocks::BlockDefV;
use crate::edit::ArgSlot;
use crate::macros::{first_index_of, lemma_first_index_at, lemma_first_index_of, strand_ids, MacroV, StrandV};
use crate::program::{Instruction, InstructionV, KindV, TokenV, ValueV};
use crate::seqs::lemma_filter_push;
use crate::walk::{ids_in, strip_branches, strip_instrs, strip_kind, texts_in, texts_in_branches, texts_in_kind};
use crate::watch::{fires, seen_before, seen_now, watched_strands, FingerprintV, SeenV};
use crate::equality::{erase_instr, nan_free_kind};
use crate::macros::CommentV;
use vstd::std_specs::cmp::PartialEqSpec;

verus! {

broadcast use {group_rewrite, vstd::seq_lib::group_filter_ensures};

// ---------------------------------------------------------------------
// Equality
// ---------------------------------------------------------------------

/// Instructions compare by what they do, not by identity: two instructions
/// with the same kind are equal whatever their ids, unless a number in it
/// is a NaN, which equals nothing.
pub proof fn law_instruction_equality_ignores_ids(a: Instruction, b: Instruction)
    requires
        a@.kind == b@.kind,
        nan_free_kind(a@.kind),
    ensures
        a.eq_spec(&b),
{
    assert(erase_instr(a@) == erase_instr(b@));
}

// ---------------------------------------------------------------------
// Legacy comments
// ---------------------------------------------------------------------

proof fn lemma_texts_branches_empty(bs: Seq<Seq<InstructionV>>)
    requires
        texts_in_branches(bs) == Seq::<Seq<char>>::empty(),
    ensures
        forall|i: int| 0 <= i < bs.len() ==> texts_in(#[trigger] bs[i]) == Seq::<Seq<char>>::empty(),
    decreases bs.len(),
{
    if bs.len() > 0 {
        let m = bs.len() - 1;
        let rest = texts_in_branches(bs.subrange(0, m));
        assert(rest.len() + texts_in(bs[m]).len() == 0);
        assert(rest =~= Seq::<Seq<char>>::empty());
        assert(texts_in(bs[m]) =~= Seq::<Seq<char>>::empty());
        lemma_texts_branches_empty(bs.subrange(0, m));
        assert forall|i: int| 0 <= i < bs.len() implies texts_in(#[trigger] bs[i]) == Seq::<Seq<char>>::empty() by {
            if i < m {
                assert(bs.subrange(0, m)[i] == bs[i]);
            }
        }
    }
}

/// Without comment texts there is nothing to strip.
proof fn lemma_strip_noop(s: Seq<InstructionV>)
    requires
        texts_in(s) == Seq::<Seq<char>>::empty(),
    ensures
        strip_instrs(s) == s,
    decreases s,
{
    if s.len() > 0 {
        let n = s.len() - 1;
        let x = s[n];
        let rest = texts_in(s.subrange(0, n));
        let own = match x.kind {
            KindV::Comment(t) => seq![t],
            _ => Seq::empty(),
        };
        assert(rest.len() + texts_in_kind(x.kind).len() + own.len() == 0);
        assert(rest =~= Seq::<Seq<char>>::empty());
        assert(texts_in_kind(x.kind) =~= Seq::<Seq<char>>::empty());
        lemma_strip_noop(s.subrange(0, n));
        lemma_strip_kind_noop(x.kind);
        assert(!(x.kind is Comment));
        assert(s.subrange(0, n).push(x) =~= s);
    }
}

proof fn lemma_strip_kind_noop(k: KindV)
    requires
        texts_in_kind(k) == Seq::<Seq<char>>::empty(),
    ensures
        strip_kind(k) == k,
    decreases k,
{
    match k {
        KindV::If { body, .. } => lemma_strip_noop(body),
        KindV::IfElse { then_body, else_body, .. } => {
            assert(texts_in(then_body).len() + texts_in(else_body).len() == 0);
            assert(texts_in(then_body) =~= Seq::<Seq<char>>::empty());
            assert(texts_in(else_body) =~= Seq::<Seq<char>>::empty());
            lemma_strip_noop(then_body);
            lemma_strip_noop(else_body);
        },
        KindV::Repeat { body, .. } => lemma_strip_noop(body),
        KindV::Forever { body } => lemma_strip_noop(body),
        KindV::While { body, .. } => lemma_strip_noop(body),
        KindV::CallBlock { branches, .. } => {
            lemma_texts_branches_empty(branches);
            assert forall|i: int| 0 <= i < branches.len() implies #[trigger] strip_branches(branches)[i] == branches[i] by {
                lemma_strip_noop(branches[i]);
            }
            assert(strip_branches(branches) =~= branches);
        },
        _ => {},
    }
}

/// Stripping leaves no comment text behind.
proof fn lemma_strip_clears(s: Seq<InstructionV>)
    ensures
        texts_in(strip_instrs(s)) == Seq::<Seq<char>>::empty(),
    decreases s,
{
    if s.len() == 0 {
        assert(strip_instrs(s) == Seq::<InstructionV>::empty());
    } else {
        let n = s.len() - 1;
        let x = s[n];
        lemma_strip_clears(s.subrange(0, n));
        let rest = strip_instrs(s.subrange(0, n));
        match x.kind {
            KindV::Comment(_) => {},
            _ => {
                let y = InstructionV { id: x.id, kind: strip_kind(x.kind) };
                lemma_strip_kind_clears(x.kind);
                assert(rest.push(y).subrange(0, rest.len() as int) =~= rest);
                assert(rest.push(y)[rest.len() as int] == y);
                assert(!(y.kind is Comment)) by {
                    lemma_strip_kind_shape(x.kind);
                }
                assert(texts_in(rest.push(y)) =~= Seq::<Seq<char>>::empty());
            },
        }
    }
}

proof fn lemma_strip_kind_shape(k: KindV)
    requires
        !(k is Comment),
    ensures
        !(strip_kind(k) is Comment),
{
}

proof fn lemma_strip_kind_clears(k: KindV)
    ensures
        texts_in_kind(strip_kind(k)) == Seq::<Seq<char>>::empty(),
    decreases k,
{
    match k {
        KindV::If { body, .. } => lemma_strip_clears(body),
        KindV::IfElse { then_body, else_body, .. } => {
            lemma_strip_clears(then_body);
            lemma_strip_clears(else_body);
            assert(texts_in_kind(strip_kind(k)) =~= Seq::<Seq<char>>::empty());
        },
        KindV::Repeat { body, .. } => lemma_strip_clears(body),
        KindV::Forever { body } => lemma_strip_clears(body),
        KindV::While { body, .. } => lemma_strip_clears(body),
        KindV::CallBlock { branches, .. } => lemma_strip_branches_clear(branches),
        _ => {},
    }
}

proof fn lemma_strip_branches_clear(bs: Seq<Seq<InstructionV>>)
    ensures
        texts_in_branches(strip_branches(bs)) == Seq::<Seq<char>>::empty(),
    decreases bs,
{
    if bs.len() > 0 {
        let n = bs.len() - 1;
        assert(strip_branches(bs).subrange(0, n) =~= strip_branches(bs.subrange(0, n)));
        lemma_strip_branches_clear(bs.subrange(0, n));
        lemma_strip_clears(bs[n]);
        assert(texts_in_branches(strip_branches(bs)) =~= Seq::<Seq<char>>::empty());
    }
}

proof fn lemma_no_notes(s: Seq<StrandV>)
    requires
        forall|j: int| 0 <= j < s.len() ==> texts_in(#[trigger] s[j].instructions) == Seq::<Seq<char>>::empty(),
    ensures
        legacy_notes(s) == Seq::<CommentV>::empty(),
    decreases s.len(),
{
    if s.len() > 0 {
        lemma_no_notes(s.drop_last());
        assert(texts_in(s[s.len() - 1].instructions) == Seq::<Seq<char>>::empty());
        assert(strand_notes(s.last()) =~= Seq::<CommentV>::empty());
        assert(legacy_notes(s) =~= Seq::<CommentV>::empty());
    }
}

/// Moving inline comments out is a no-op on a macro that has none left.
pub proof fn law_legacy_comments_noop_without_comments(before: MacroV, after: MacroV)
    requires
        forall|j: int|
            0 <= j < before.strands.len() ==> texts_in(#[trigger] before.strands[j].instructions) == Seq::<
                Seq<char>,
            >::empty(),
        legacy_migrated(before, after),
    ensures
        after == before,
{
    lemma_no_notes(before.strands);
    assert forall|j: int| 0 <= j < before.strands.len() implies #[trigger] strip_strands(before.strands)[j]
        == before.strands[j] by {
        lemma_strip_noop(before.strands[j].instructions);
    }
    assert(strip_strands(before.strands) =~= before.strands);
    assert(after.comments.subrange(0, before.comments.len() as int) =~= after.comments);
}

/// Moving inline comments out is idempotent: a second pass changes nothing.
pub proof fn law_legacy_comments_idempotent(before: MacroV, once: MacroV, twice: MacroV)
    requires
        legacy_migrated(before, once),
        legacy_migrated(once, twice),
    ensures
        twice == once,
{
    assert forall|j: int| 0 <= j < once.strands.len() implies texts_in(#[trigger] once.strands[j].instructions)
        == Seq::<Seq<char>>::empty() by {
        lemma_strip_clears(before.strands[j].instructions);
    }
    law_legacy_comments_noop_without_comments(once, twice);
}

// ---------------------------------------------------------------------
// Orphaned comments
// ---------------------------------------------------------------------

proof fn lemma_filter_idempotent<A>(s: Seq<A>, p: spec_fn(A) -> bool)
    ensures
        s.filter(p).filter(p) == s.filter(p),
    decreases s.len(),
{
    if s.len() > 0 {
        let t = s.drop_last();
        let e = s.last();
        lemma_filter_idempotent(t, p);
        assert(t.push(e) =~= s);
        lemma_filter_push(t, p, e);
        if p(e) {
            lemma_filter_push(t.filter(p), p, e);
        }
    }
}

/// After pruning, every comment is freestanding or attached to a live
/// instruction; every such comment is kept; and pruning again changes
/// nothing.
pub proof fn law_pruned_comments_are_live(cs: Seq<CommentV>, live: Seq<Seq<char>>)
    ensures
        forall|i: int| 0 <= i < pruned(cs, live).len() ==> is_kept_comment(#[trigger] pruned(cs, live)[i], live),
        forall|i: int| 0 <= i < cs.len() && is_kept_comment(cs[i], live) ==> #[trigger] pruned(cs, live).contains(cs[i]),
        pruned(pruned(cs, live), live) == pruned(cs, live),
{
    lemma_filter_idempotent(cs, |c: CommentV| is_kept_comment(c, live));
}

// ---------------------------------------------------------------------
// Boolean-slot repair
// ---------------------------------------------------------------------

/// Repairing boolean slots twice is the same as once.
pub proof fn law_bool_repair_idempotent(v: ValueV, in_bool: bool)
    ensures
        rw_value(rw_value(v, Edit::MigrateBools, in_bool), Edit::MigrateBools, in_bool) == rw_value(
            v,
            Edit::MigrateBools,
            in_bool,
        ),
    decreases v,
{
    match v {
        ValueV::Op(op, args, saved) => {
            lemma_bool_repair_values(args, op.spec_takes_bool_operands());
            law_bool_repair_idempotent(*saved, in_bool);
        },
        ValueV::Call(id, args, branches, saved) => {
            lemma_bool_repair_values(args, false);
            lemma_bool_repair_branches(branches);
            law_bool_repair_idempotent(*saved, in_bool);
        },
        _ => {},
    }
}

proof fn lemma_bool_repair_values(s: Seq<ValueV>, b: bool)
    ensures
        rw_values(rw_values(s, Edit::MigrateBools, b), Edit::MigrateBools, b) == rw_values(s, Edit::MigrateBools, b),
    decreases s,
{
    assert forall|i: int| 0 <= i < s.len() implies #[trigger] rw_values(rw_values(s, Edit::MigrateBools, b), Edit::MigrateBools, b)[i]
        == rw_values(s, Edit::MigrateBools, b)[i] by {
        law_bool_repair_idempotent(s[i], b);
    }
    assert(rw_values(rw_values(s, Edit::MigrateBools, b), Edit::MigrateBools, b) =~= rw_values(s, Edit::MigrateBools, b));
}

proof fn lemma_bool_repair_branches(s: Seq<Seq<InstructionV>>)
    ensures
        rw_branches(rw_branches(s, Edit::MigrateBools), Edit::MigrateBools) == rw_branches(s, Edit::MigrateBools),
    decreases s,
{
    assert forall|i: int| 0 <= i < s.len() implies #[trigger] rw_branches(rw_branches(s, Edit::MigrateBools), Edit::MigrateBools)[i]
        == rw_branches(s, Edit::MigrateBools)[i] by {
        law_bool_repair_instrs_idempotent(s[i]);
    }
    assert(rw_branches(rw_branches(s, Edit::MigrateBools), Edit::MigrateBools) =~= rw_branches(s, Edit::MigrateBools));
}

/// Repairing the boolean slots of an instruction list twice is the same
/// as once.
pub proof fn law_bool_repair_instrs_idempotent(s: Seq<InstructionV>)
    ensures
        rw_instrs(rw_instrs(s, Edit::MigrateBools), Edit::MigrateBools) == rw_instrs(s, Edit::MigrateBools),
    decreases s,
{
    assert forall|i: int| 0 <= i < s.len() implies #[trigger] rw_instrs(rw_instrs(s, Edit::MigrateBools), Edit::MigrateBools)[i]
        == rw_instrs(s, Edit::MigrateBools)[i] by {
        lemma_bool_repair_kind(s[i].kind);
    }
    assert(rw_instrs(rw_instrs(s, Edit::MigrateBools), Edit::MigrateBools) =~= rw_instrs(s, Edit::MigrateBools));
}

proof fn lemma_bool_repair_token(t: TokenV)
    ensures
        rw_token(rw_token(t, Edit::MigrateBools), Edit::MigrateBools) == rw_token(t, Edit::MigrateBools),
    decreases t,
{
    match t {
        TokenV::Text(v) => law_bool_repair_idempotent(v, false),
        TokenV::MoveMouse(x, y, _) => {
            law_bool_repair_idempotent(x, false);
            law_bool_repair_idempotent(y, false);
        },
        TokenV::Scroll(v) => law_bool_repair_idempotent(v, false),
        _ => {},
    }
}

proof fn lemma_bool_repair_kind(k: KindV)
    ensures
        rw_kind(rw_kind(k, Edit::MigrateBools), Edit::MigrateBools) == rw_kind(k, Edit::MigrateBools),
    decreases k,
{
    match k {
        KindV::Token(t) => lemma_bool_repair_token(t),
        KindV::Wait(v) => law_bool_repair_idempotent(v, false),
        KindV::WhenBatteryDischargedTo(v) => law_bool_repair_idempotent(v, false),
        KindV::WhenBatteryChargedTo(v) => law_bool_repair_idempotent(v, false),
        KindV::Return(v) => law_bool_repair_idempotent(v, false),
        KindV::SetVariable(_, v) => law_bool_repair_idempotent(v, false),
        KindV::ChangeVariable(_, v) => law_bool_repair_idempotent(v, false),
        KindV::AddToList { value, .. } => law_bool_repair_idempotent(value, false),
        KindV::InsertIntoList { value, index, .. } => {
            law_bool_repair_idempotent(value, false);
            law_bool_repair_idempotent(index, false);
        },
        KindV::DeleteOfList { index, .. } => law_bool_repair_idempotent(index, false),
        KindV::ShiftList { amount, .. } => law_bool_repair_idempotent(amount, false),
        KindV::ReplaceItemOfList { index, value, .. } => {
            law_bool_repair_idempotent(index, false);
            law_bool_repair_idempotent(value, false);
        },
        KindV::CallBlock { args, branches, .. } => {
            lemma_bool_repair_values(args, false);
            lemma_bool_repair_branches(branches);
        },
        KindV::If { condition, body } => {
            law_bool_repair_idempotent(condition, true);
            law_bool_repair_instrs_idempotent(body);
        },
        KindV::IfElse { condition, then_body, else_body } => {
            law_bool_repair_idempotent(condition, true);
            law_bool_repair_instrs_idempotent(then_body);
            law_bool_repair_instrs_idempotent(else_body);
        },
        KindV::Repeat { count, body } => {
            law_bool_repair_idempotent(count, false);
            law_bool_repair_instrs_idempotent(body);
        },
        KindV::Forever { body } => law_bool_repair_instrs_idempotent(body),
        KindV::While { condition, body } => {
            law_bool_repair_idempotent(condition, true);
            law_bool_repair_instrs_idempotent(body);
        },
        _ => {},
    }
}

// ---------------------------------------------------------------------
// Legacy root strand
// ---------------------------------------------------------------------

/// The legacy root strand gains its `WhenRan` header only once: upgrading
/// an upgraded list of strands changes nothing.
pub proof fn law_root_upgrade_once(s: Seq<StrandV>, h1: Seq<char>, h2: Seq<char>)
    ensures
        root_upgraded(root_upgraded(s, h1), h2) == root_upgraded(s, h1),
{
    let u = root_upgraded(s, h1);
    lemma_first_index_of(strand_ids(s), seq!['r', 'o', 'o', 't']);
    assert(strand_ids(u) =~= strand_ids(s));
}

// ---------------------------------------------------------------------
// Nested-list addressing
// ---------------------------------------------------------------------

/// What `body_mut` writes at a slot is what `body` then reads there, and
/// writing back what was read changes nothing.
pub proof fn law_body_slot_round_trip(k: KindV, slot: int, b: Seq<InstructionV>)
    requires
        body_slot(k, slot) is Some,
    ensures
        body_slot(with_body_slot(k, slot, b), slot) == Some(b),
        with_body_slot(k, slot, body_slot(k, slot)->0) == k,
{
}

/// What `branch_mut` writes into a branch is what `branch` then reads
/// there, and writing back what was read changes nothing.
pub proof fn law_branch_slot_round_trip(k: KindV, i: int, b: Seq<InstructionV>)
    requires
        branch_slot(k, i) is Some,
    ensures
        branch_slot(with_branch_slot(k, i, b), i) == Some(b),
        with_branch_slot(k, i, branch_slot(k, i)->0) == k,
{
    match k {
        KindV::CallBlock { branches, .. } => {
            assert(branches.update(i, branches[i]) =~= branches);
        },
        _ => {},
    }
}

// ---------------------------------------------------------------------
// Colours
// ---------------------------------------------------------------------

/// A normalized colour is a `#RRGGBB` value that normalizes to itself.
pub proof fn law_normalized_color_is_canonical(c: Seq<char>)
    requires
        normalized_color(c) is Some,
    ensures
        is_hex_color(normalized_color(c)->0),
        normalized_color(normalized_color(c)->0) == normalized_color(c),
{
    let t = trimmed(c);
    let u = ascii_uppercased(t);
    assert forall|i: int| 1 <= i < 7 implies is_ascii_hexdigit(#[trigger] u[i]) by {
        lemma_upper_hexdigit(t[i]);
    }
    assert(u[0] == '#');
    assert(!is_whitespace(u[0]));
    lemma_upper_hexdigit(t[6]);
    assert(!is_whitespace(u[6]));
    assert(u.last() == u[6]);
    assert(trimmed(u) == u);
    assert forall|i: int| 0 <= i < 7 implies #[trigger] ascii_uppercased(u)[i] == u[i] by {
        if i > 0 {
            lemma_upper_hexdigit(t[i]);
        }
    }
    assert(ascii_uppercased(u) =~= u);
}

proof fn lemma_upper_hexdigit(c: char)
    requires
        is_ascii_hexdigit(c),
    ensures
        is_ascii_hexdigit(ascii_upper(c)),
        ascii_upper(ascii_upper(c)) == ascii_upper(c),
        !is_whitespace(ascii_upper(c)),
{
    if 'a' <= c && c <= 'f' {
        let d = ((c as u32) - 32) as char;
        assert(65 <= d as u32 <= 70);
    }
}

// ---------------------------------------------------------------------
// Recording target
// ---------------------------------------------------------------------

/// Every macro with a strand has a recording target, one of its strands;
/// only an empty macro has none.
pub proof fn law_recording_target_exists(m: MacroV)
    ensures
        (recording_index(m) is Some) == (m.strands.len() > 0),
        recording_index(m) matches Some(i) ==> 0 <= i < m.strands.len(),
{
    if let Some(id) = m.recording_target {
        lemma_first_index_of(strand_ids(m.strands), id);
    }
    lemma_first_when_ran_range(m.strands);
}

// ---------------------------------------------------------------------
// Clipboard watcher
// ---------------------------------------------------------------------

/// The first poll only records a baseline: with nothing seen before, no
/// strand fires.
pub proof fn law_first_poll_never_fires(ms: Seq<MacroV>, selected: Option<Seq<char>>, current: FingerprintV)
    ensures
        watched_strands(ms, selected).filter(|p: (int, int)| fires(ms, Seq::empty(), current, p)).len() == 0,
{
    let w = watched_strands(ms, selected);
    let f = |p: (int, int)| fires(ms, Seq::empty(), current, p);
    assert(w.all(|x: (int, int)| !f(x)));
    w.lemma_all_neg_filter_empty(f);
}

proof fn lemma_seen_all_current(seen: Seq<SeenV>, current: FingerprintV, m: Seq<char>, s: Seq<char>)
    requires
        forall|i: int| 0 <= i < seen.len() ==> (#[trigger] seen[i]).fingerprint == current,
    ensures
        seen_before(seen, m, s) matches Some(f) ==> f == current,
    decreases seen.len(),
{
    if seen.len() > 0 {
        assert forall|i: int| 0 <= i < seen.drop_first().len() implies (#[trigger] seen.drop_first()[i]).fingerprint
            == current by {
            assert(seen.drop_first()[i] == seen[i + 1]);
        }
        lemma_seen_all_current(seen.drop_first(), current, m, s);
    }
}

/// With the clipboard unchanged since the previous poll, no strand fires,
/// whatever the macros are by then.
pub proof fn law_unchanged_clipboard_never_fires(
    ms: Seq<MacroV>,
    selected: Option<Seq<char>>,
    current: FingerprintV,
    ms2: Seq<MacroV>,
    selected2: Option<Seq<char>>,
)
    ensures
        ({
            let w = watched_strands(ms, selected);
            let next = Seq::new(w.len(), |k: int| seen_now(ms, current, w[k]));
            watched_strands(ms2, selected2).filter(|p: (int, int)| fires(ms2, next, current, p)).len() == 0
        }),
{
    let w = watched_strands(ms, selected);
    let next = Seq::new(w.len(), |k: int| seen_now(ms, current, w[k]));
    let w2 = watched_strands(ms2, selected2);
    let f = |p: (int, int)| fires(ms2, next, current, p);
    assert forall|i: int| 0 <= i < w2.len() implies !f(#[trigger] w2[i]) by {
        lemma_seen_all_current(next, current, ms2[w2[i].0].id, ms2[w2[i].0].strands[w2[i].1].id);
    }
    assert(w2.all(|x: (int, int)| !f(x)));
    w2.lemma_all_neg_filter_empty(f);
}

// ---------------------------------------------------------------------
// Deleting a custom block
// ---------------------------------------------------------------------

/// Deleting a custom block leaves nothing dangling: no definition keeps
/// its id, and no strand or floating value left holds a call of it,
/// command or value, at any position the whole-tree edits visit.
pub proof fn law_removed_block_leaves_nothing_dangling(m: MacroV, id: Seq<char>)
    ensures
        forall|i: int| 0 <= i < kept_defs(m.block_defs, id).len() ==> (#[trigger] kept_defs(m.block_defs, id)[i]).id != id,
        forall|i: int|
            0 <= i < removed_strands(m.strands, id).len() ==> !instrs_reach(
                (#[trigger] removed_strands(m.strands, id)[i]).instructions,
                id,
                true,
            ),
        forall|i: int|
            0 <= i < removed_floating(m.floating_values, id).len() ==> !value_reaches(
                (#[trigger] removed_floating(m.floating_values, id)[i]).value,
                id,
                true,
            ),
{
    let kept = m.strands.filter(|t: StrandV| !heads_block(t, id));
    assert forall|i: int| 0 <= i < removed_strands(m.strands, id).len() implies !instrs_reach(
        (#[trigger] removed_strands(m.strands, id)[i]).instructions,
        id,
        true,
    ) by {
        lemma_purged_instrs_clean(kept[i].instructions, id);
        lemma_scrubbed_instrs_clean(purged_instrs(kept[i].instructions, id), id);
    }
    assert forall|i: int| 0 <= i < removed_floating(m.floating_values, id).len() implies !value_reaches(
        (#[trigger] removed_floating(m.floating_values, id)[i]).value,
        id,
        true,
    ) by {
        lemma_purged_value_clean(m.floating_values[i].value, id);
        lemma_scrubbed_value_clean(purged_value(m.floating_values[i].value, id), id, false);
    }
}

// ---------------------------------------------------------------------
// Reconciling call sites
// ---------------------------------------------------------------------

pub open spec fn all_distinct(ids: Seq<Seq<char>>) -> bool {
    forall|i: int, j: int| 0 <= i < j < ids.len() ==> ids[i] != ids[j]
}

/// Identity survives a rename: when a prototype change keeps the same
/// input ids in the same order, every call site keeps its arguments.
pub proof fn law_reconcile_keeps_renamed_inputs(old_p: Seq<PieceV>, new_p: Seq<PieceV>, args: Seq<ValueV>)
    requires
        input_piece_ids(old_p) == input_piece_ids(new_p),
        all_distinct(input_piece_ids(old_p)),
        args.len() == input_piece_ids(old_p).len(),
        args.len() <= usize::MAX,
    ensures
        rebuilt_args(args, arg_plan(old_p, new_p)) == args,
{
    let ids = input_piece_ids(old_p);
    assert forall|k: int| 0 <= k < args.len() implies #[trigger] rebuilt_args(args, arg_plan(old_p, new_p))[k] == args[k] by {
        assert(input_slots(new_p)[k].0 == input_piece_ids(new_p)[k]);
        lemma_first_index_at(ids, ids[k], k);
    }
    assert(rebuilt_args(args, arg_plan(old_p, new_p)) =~= args);
}

/// Arguments follow their input's piece id: after reconciling, a call site
/// has one argument per input of the new prototype; an input whose id the
/// old prototype had takes the argument of the first old input with that
/// id, and a new input gets the blank of its type.
pub proof fn law_reconcile_carries_arguments_by_input_id(old_p: Seq<PieceV>, new_p: Seq<PieceV>, args: Seq<ValueV>)
    requires
        args.len() == input_piece_ids(old_p).len(),
        args.len() <= usize::MAX,
    ensures
        rebuilt_args(args, arg_plan(old_p, new_p)).len() == input_slots(new_p).len(),
        forall|k: int, i: int|
            0 <= k < input_slots(new_p).len() && 0 <= i < args.len() && input_piece_ids(old_p)[i] == input_slots(new_p)[k].0
                && (forall|j: int| 0 <= j < i ==> input_piece_ids(old_p)[j] != input_slots(new_p)[k].0) ==> #[trigger] rebuilt_args(
                args,
                arg_plan(old_p, new_p),
            )[k] == #[trigger] args[i],
        forall|k: int|
            0 <= k < input_slots(new_p).len() && (forall|i: int| 0 <= i < args.len() ==> input_piece_ids(old_p)[i] != input_slots(new_p)[k].0)
                ==> #[trigger] rebuilt_args(args, arg_plan(old_p, new_p))[k] == blank_value(input_slots(new_p)[k].1),
{
    let ids = input_piece_ids(old_p);
    assert forall|k: int, i: int|
        0 <= k < input_slots(new_p).len() && 0 <= i < args.len() && ids[i] == input_slots(new_p)[k].0 && (forall|j: int|
            0 <= j < i ==> ids[j] != input_slots(new_p)[k].0) implies #[trigger] rebuilt_args(args, arg_plan(old_p, new_p))[k]
        == #[trigger] args[i] by {
        lemma_first_index_at(ids, input_slots(new_p)[k].0, i);
    }
    assert forall|k: int|
        0 <= k < input_slots(new_p).len() && (forall|i: int| 0 <= i < args.len() ==> ids[i] != input_slots(new_p)[k].0)
            implies #[trigger] rebuilt_args(args, arg_plan(old_p, new_p))[k] == blank_value(input_slots(new_p)[k].1) by {
        lemma_first_index_at(ids, input_slots(new_p)[k].0, ids.len() as int);
    }
}

/// The same for branches: with the same branch ids in the same order,
/// every call site keeps its branches.
pub proof fn law_reconcile_keeps_renamed_branches(
    old_p: Seq<PieceV>,
    new_p: Seq<PieceV>,
    bs: Seq<Seq<InstructionV>>,
)
    requires
        branch_piece_ids(old_p) == branch_piece_ids(new_p),
        all_distinct(branch_piece_ids(old_p)),
        bs.len() == branch_piece_ids(old_p).len(),
        bs.len() <= usize::MAX,
    ensures
        realigned_branches(bs, branch_plan(old_p, new_p)) == bs,
{
    let ids = branch_piece_ids(old_p);
    assert forall|k: int| 0 <= k < bs.len() implies #[trigger] realigned_branches(bs, branch_plan(old_p, new_p))[k] == bs[k] by {
        lemma_first_index_at(ids, ids[k], k);
    }
    assert(realigned_branches(bs, branch_plan(old_p, new_p)) =~= bs);
}

// ---------------------------------------------------------------------
// Renames
// ---------------------------------------------------------------------

/// A rename reaches every reference: after renaming the variable or list
/// `from` to another name throughout a macro, no strand and no floating
/// value refers to `from` at any position the rename visits.
pub proof fn law_rename_leaves_no_reference(
    s: Seq<StrandV>,
    f: Seq<FloatingV>,
    k: NameKind,
    from: Seq<char>,
    to: Seq<char>,
)
    requires
        from != to,
    ensures
        forall|i: int|
            0 <= i < rw_strands(s, rename_edit(k, from, to)).len() ==> !instrs_refer(
                (#[trigger] rw_strands(s, rename_edit(k, from, to))[i]).instructions,
                k,
                from,
            ),
        forall|i: int|
            0 <= i < rw_floating(f, rename_edit(k, from, to)).len() ==> !value_refers(
                (#[trigger] rw_floating(f, rename_edit(k, from, to))[i]).value,
                k,
                from,
            ),
{
    assert forall|i: int| 0 <= i < rw_strands(s, rename_edit(k, from, to)).len() implies !instrs_refer(
        (#[trigger] rw_strands(s, rename_edit(k, from, to))[i]).instructions,
        k,
        from,
    ) by {
        lemma_renamed_instrs(s[i].instructions, k, from, to);
    }
    assert forall|i: int| 0 <= i < rw_floating(f, rename_edit(k, from, to)).len() implies !value_refers(
        (#[trigger] rw_floating(f, rename_edit(k, from, to))[i]).value,
        k,
        from,
    ) by {
        lemma_renamed_value(f[i].value, k, from, to, false);
    }
}

/// Renaming an input of a custom block reaches every reading of it in the
/// block's own body.
pub proof fn law_input_rename_reaches_the_body(s: Seq<StrandV>, block_id: Seq<char>, from: Seq<char>, to: Seq<char>)
    requires
        from != to,
    ensures
        forall|i: int|
            0 <= i < s.len() && heads_block(s[i], block_id) ==> !instrs_refer(
                (#[trigger] rw_block_bodies(s, block_id, rename_edit(NameKind::Input, from, to))[i]).instructions,
                NameKind::Input,
                from,
            ),
{
    assert forall|i: int| 0 <= i < s.len() && heads_block(s[i], block_id) implies !instrs_refer(
        (#[trigger] rw_block_bodies(s, block_id, rename_edit(NameKind::Input, from, to))[i]).instructions,
        NameKind::Input,
        from,
    ) by {
        lemma_renamed_instrs(s[i].instructions, NameKind::Input, from, to);
    }
}

/// Renaming a variable, list or block input and then renaming it back
/// restores an instruction kind that did not already use the new name:
/// `rename_var`, `rename_list` and `rename_param` undo one another.
pub proof fn law_rename_round_trip(i: KindV, k: NameKind, from: Seq<char>, to: Seq<char>)
    requires
        !kind_refers(i, k, to),
    ensures
        rw_kind(rw_kind(i, rename_edit(k, from, to)), rename_edit(k, to, from)) == i,
{
    lemma_rename_back_kind(i, k, from, to);
}

/// Whether a strand or floating value of `m` refers to the name `n` of
/// kind `k`.
pub open spec fn macro_refers(m: MacroV, k: NameKind, n: Seq<char>) -> bool {
    ||| exists|i: int| 0 <= i < m.strands.len() && instrs_refer(#[trigger] m.strands[i].instructions, k, n)
    ||| exists|i: int| 0 <= i < m.floating_values.len() && value_refers(#[trigger] m.floating_values[i].value, k, n)
}

proof fn lemma_rename_back_macro(m: MacroV, k: NameKind, from: Seq<char>, to: Seq<char>)
    requires
        !macro_refers(m, k, to),
    ensures
        rw_strands(rw_strands(m.strands, rename_edit(k, from, to)), rename_edit(k, to, from)) == m.strands,
        rw_floating(rw_floating(m.floating_values, rename_edit(k, from, to)), rename_edit(k, to, from))
            == m.floating_values,
{
    let e1 = rename_edit(k, from, to);
    let e2 = rename_edit(k, to, from);
    let s = m.strands;
    let f = m.floating_values;
    assert forall|i: int| 0 <= i < s.len() implies #[trigger] rw_strands(rw_strands(s, e1), e2)[i] == s[i] by {
        assert(!instrs_refer(s[i].instructions, k, to));
        lemma_rename_back_instrs(s[i].instructions, k, from, to);
    }
    assert(rw_strands(rw_strands(s, e1), e2) =~= s);
    assert forall|i: int| 0 <= i < f.len() implies #[trigger] rw_floating(rw_floating(f, e1), e2)[i] == f[i] by {
        assert(!value_refers(f[i].value, k, to));
        lemma_rename_back_value(f[i].value, k, from, to, false);
    }
    assert(rw_floating(rw_floating(f, e1), e2) =~= f);
}

/// Renaming a variable and then renaming it back restores the macro, when
/// the new name was neither declared nor used.
pub proof fn law_rename_variable_round_trip(m: MacroV, from: Seq<char>, to: Seq<char>)
    requires
        first_index_of(variable_names(m.variables), to) is None,
        !macro_refers(m, NameKind::Variable, to),
    ensures
        variable_renamed(variable_renamed(m, from, to), to, from) == m,
{
    let names = variable_names(m.variables);
    lemma_first_index_of(names, from);
    lemma_first_index_of(names, to);
    if let Some(i) = first_index_of(names, from) {
        let m1 = variable_renamed(m, from, to);
        let names1 = variable_names(m1.variables);
        assert(names1 =~= names.update(i, to));
        lemma_first_index_at(names1, to, i);
        lemma_rename_back_macro(m, NameKind::Variable, from, to);
        let m2 = variable_renamed(m1, to, from);
        assert(m2.variables =~= m.variables);
        assert(m2.strands == m.strands);
        assert(m2.floating_values == m.floating_values);
    }
}

/// Renaming a list and then renaming it back restores the macro, when the
/// new name was neither declared nor used.
pub proof fn law_rename_list_round_trip(m: MacroV, from: Seq<char>, to: Seq<char>)
    requires
        first_index_of(list_names(m.lists), to) is None,
        !macro_refers(m, NameKind::List, to),
    ensures
        list_renamed(list_renamed(m, from, to), to, from) == m,
{
    let names = list_names(m.lists);
    lemma_first_index_of(names, from);
    lemma_first_index_of(names, to);
    if let Some(i) = first_index_of(names, from) {
        let m1 = list_renamed(m, from, to);
        let names1 = list_names(m1.lists);
        assert(names1 =~= names.update(i, to));
        lemma_first_index_at(names1, to, i);
        lemma_rename_back_macro(m, NameKind::List, from, to);
        let m2 = list_renamed(m1, to, from);
        assert(m2.lists =~= m.lists);
        assert(m2.strands == m.strands);
        assert(m2.floating_values == m.floating_values);
    }
}

// ---------------------------------------------------------------------
// Custom blocks: call sites, branch markers, definitions, comments
// ---------------------------------------------------------------------

/// Rebuilding the arguments of the calls of a block reaches every call of
/// it at every depth (value fields, operands, nested bodies, call
/// branches): the calls afterwards, in document order, are the calls
/// before, each realigned to the plan, so each has as many arguments as
/// the plan has slots.
pub proof fn law_rebuild_reaches_every_call(s: Seq<InstructionV>, v: ValueV, id: Seq<char>, plan: Seq<ArgSlot>)
    ensures
        instrs_calls(rw_instrs(s, Edit::RebuildArgs(id, plan)), id, true) == rebuilt_calls(
            instrs_calls(s, id, true),
            id,
            plan,
        ),
        value_calls(rw_value(v, Edit::RebuildArgs(id, plan), false), id, true) == rebuilt_calls(
            value_calls(v, id, true),
            id,
            plan,
        ),
        forall|k: int|
            0 <= k < instrs_calls(rw_instrs(s, Edit::RebuildArgs(id, plan)), id, true).len() ==> (
            #[trigger] instrs_calls(rw_instrs(s, Edit::RebuildArgs(id, plan)), id, true)[k]).len() == plan.len(),
{
    lemma_calls_rebuilt_instrs(s, id, plan, true);
    lemma_calls_rebuilt_value(v, id, plan, true, false);
}

/// Reconciling the call sites of a block with its changed prototype (as
/// `reconcile_block_call_args` does, with `arg_plan` and `branch_plan`)
/// rebuilds the arguments of every call of it in every strand, at every
/// depth outside the branches of those calls, in place; each then has as
/// many arguments as the plan has slots.
pub proof fn law_reconcile_rebuilds_every_call(
    s: Seq<StrandV>,
    f: Seq<FloatingV>,
    id: Seq<char>,
    plan: Seq<ArgSlot>,
    branches: Seq<Option<usize>>,
)
    ensures
        forall|j: int|
            0 <= j < s.len() ==> instrs_calls((#[trigger] reconciled_strands(s, id, plan, branches)[j]).instructions, id, false)
                == rebuilt_calls(instrs_calls(s[j].instructions, id, false), id, plan),
        forall|j: int, k: int|
            0 <= j < s.len() && 0 <= k < instrs_calls(reconciled_strands(s, id, plan, branches)[j].instructions, id, false).len()
                ==> (#[trigger] instrs_calls(reconciled_strands(s, id, plan, branches)[j].instructions, id, false)[k]).len()
                == plan.len(),
        forall|j: int|
            0 <= j < f.len() ==> value_calls((#[trigger] rw_floating(f, Edit::RebuildArgs(id, plan))[j]).value, id, true)
                == rebuilt_calls(value_calls(f[j].value, id, true), id, plan),
{
    assert forall|j: int| 0 <= j < s.len() implies instrs_calls((#[trigger] reconciled_strands(s, id, plan, branches)[j]).instructions, id, false)
        == rebuilt_calls(instrs_calls(s[j].instructions, id, false), id, plan) by {
        let rebuilt = rw_instrs(s[j].instructions, Edit::RebuildArgs(id, plan));
        lemma_calls_rebuilt_instrs(s[j].instructions, id, plan, false);
        lemma_calls_kept_by_branch_realign(rebuilt, id, branches);
    }
    assert forall|j: int| 0 <= j < f.len() implies value_calls((#[trigger] rw_floating(f, Edit::RebuildArgs(id, plan))[j]).value, id, true)
        == rebuilt_calls(value_calls(f[j].value, id, true), id, plan) by {
        lemma_calls_rebuilt_value(f[j].value, id, plan, true, false);
    }
}

/// Deleting a block keeps every other definition and only those.
pub proof fn law_remove_block_keeps_other_defs(defs: Seq<BlockDefV>, id: Seq<char>)
    ensures
        forall|i: int| 0 <= i < defs.len() && defs[i].id != id ==> kept_defs(defs, id).contains(#[trigger] defs[i]),
        forall|d: BlockDefV| #[trigger] kept_defs(defs, id).contains(d) ==> d.id != id && defs.contains(d),
{
    let p = |d: BlockDefV| d.id != id;
    assert(kept_defs(defs, id) == defs.filter(p));
    assert forall|i: int| 0 <= i < defs.len() && defs[i].id != id implies kept_defs(defs, id).contains(#[trigger] defs[i]) by {
        defs.lemma_filter_contains(p, i);
    }
    assert forall|d: BlockDefV| #[trigger] kept_defs(defs, id).contains(d) implies d.id != id && defs.contains(d) by {
        let k = choose|k: int| 0 <= k < defs.filter(p).len() && defs.filter(p)[k] == d;
        defs.lemma_filter_pred(p, k);
        defs.lemma_filter_contains_rev(p, d);
    }
}

/// Renaming a branch inside a block's body reaches every marker of the
/// body at every depth: afterwards a body strand runs `m` exactly where it
/// ran `m` (other than `from`) before, or `m` is `to` and it ran `from`;
/// no marker of `from` is left once `from` and `to` differ. Other strands
/// keep their markers.
pub proof fn law_branch_rename_reaches_every_marker(s: Seq<StrandV>, id: Seq<char>, from: Seq<char>, to: Seq<char>)
    ensures
        forall|j: int, m: Seq<char>|
            0 <= j < s.len() ==> #[trigger] instrs_run(se_block_bodies(s, id, SlotEdit::RenameBranch(from, to))[j].instructions, m) == if heads_block(
                s[j],
                id,
            ) {
                (m != from && instrs_run(s[j].instructions, m)) || (m == to && instrs_run(s[j].instructions, from))
            } else {
                instrs_run(s[j].instructions, m)
            },
        from != to ==> forall|j: int|
            0 <= j < s.len() && heads_block(s[j], id) ==> !instrs_run(
                #[trigger] se_block_bodies(s, id, SlotEdit::RenameBranch(from, to))[j].instructions,
                from,
            ),
{
    assert forall|j: int, m: Seq<char>|
        0 <= j < s.len() implies #[trigger] instrs_run(se_block_bodies(s, id, SlotEdit::RenameBranch(from, to))[j].instructions, m) == if heads_block(
            s[j],
            id,
        ) {
            (m != from && instrs_run(s[j].instructions, m)) || (m == to && instrs_run(s[j].instructions, from))
        } else {
            instrs_run(s[j].instructions, m)
        } by {
        lemma_run_renamed(s[j].instructions, from, to, m);
    }
    if from != to {
        assert forall|j: int| 0 <= j < s.len() && heads_block(s[j], id) implies !instrs_run(
            #[trigger] se_block_bodies(s, id, SlotEdit::RenameBranch(from, to))[j].instructions,
            from,
        ) by {
            lemma_run_renamed(s[j].instructions, from, to, from);
        }
    }
}

/// Whether the comment is freestanding or its instruction stands somewhere
/// in the strands.
pub open spec fn attached_live(c: CommentV, s: Seq<StrandV>) -> bool {
    match c.attached_to {
        Some(x) => exists|j: int| 0 <= j < s.len() && instrs_hold(#[trigger] s[j].instructions, x),
        None => true,
    }
}

proof fn lemma_live_ids_hold(s: Seq<StrandV>, x: Seq<char>)
    ensures
        live_ids(s).contains(x) == exists|j: int| 0 <= j < s.len() && instrs_hold(#[trigger] s[j].instructions, x),
    decreases s.len(),
{
    if s.len() == 0 {
        assert(!Seq::<Seq<char>>::empty().contains(x));
    } else {
        let n = s.len() - 1;
        lemma_live_ids_hold(s.drop_last(), x);
        lemma_ids_in_holds(s.last().instructions, x);
        lemma_contains_concat(live_ids(s.drop_last()), ids_in(s.last().instructions), x);
        if exists|j: int| 0 <= j < s.len() && instrs_hold(#[trigger] s[j].instructions, x) {
            let j = choose|j: int| 0 <= j < s.len() && instrs_hold(#[trigger] s[j].instructions, x);
            if j < n {
                assert(s.drop_last()[j] == s[j]);
            }
        }
        if exists|j: int| 0 <= j < s.drop_last().len() && instrs_hold(#[trigger] s.drop_last()[j].instructions, x) {
            let j = choose|j: int| 0 <= j < s.drop_last().len() && instrs_hold(#[trigger] s.drop_last()[j].instructions, x);
            assert(s.drop_last()[j] == s[j]);
        }
    }
}

/// Pruning keeps exactly the comments that are freestanding or attached to
/// an instruction that still stands somewhere in the strands, at any depth.
pub proof fn law_prune_keeps_comments_on_existing_instructions(cs: Seq<CommentV>, s: Seq<StrandV>)
    ensures
        forall|c: CommentV| cs.contains(c) ==> (#[trigger] pruned(cs, live_ids(s)).contains(c) == attached_live(c, s)),
        forall|c: CommentV| #[trigger] pruned(cs, live_ids(s)).contains(c) ==> cs.contains(c),
{
    let live = live_ids(s);
    let p = |c: CommentV| is_kept_comment(c, live);
    assert(pruned(cs, live) == cs.filter(p));
    assert forall|c: CommentV| cs.contains(c) implies (#[trigger] pruned(cs, live_ids(s)).contains(c) == attached_live(c, s)) by {
        if let Some(x) = c.attached_to {
            lemma_live_ids_hold(s, x);
        }
        let i = choose|i: int| 0 <= i < cs.len() && cs[i] == c;
        if attached_live(c, s) {
            cs.lemma_filter_contains(p, i);
        }
        if pruned(cs, live).contains(c) {
            let k = choose|k: int| 0 <= k < cs.filter(p).len() && cs.filter(p)[k] == c;
            cs.lemma_filter_pred(p, k);
        }
    }
    assert forall|c: CommentV| #[trigger] pruned(cs, live_ids(s)).contains(c) implies cs.contains(c) by {
        cs.lemma_filter_contains_rev(p, c);
    }
}

// ---------------------------------------------------------------------
// Loading a legacy save
// ---------------------------------------------------------------------

/// The first instruction survives stripping when it is not a comment.
proof fn lemma_strip_keeps_first(s: Seq<InstructionV>)
    requires
        s.len() > 0,
        !(s[0].kind is Comment),
    ensures
        strip_instrs(s).len() > 0,
        strip_instrs(s)[0] == (InstructionV { id: s[0].id, kind: strip_kind(s[0].kind) }),
    decreases s.len(),
{
    let n = s.len() - 1;
    let p = s.subrange(0, n);
    if n == 0 {
        assert(p =~= Seq::<InstructionV>::empty());
        assert(strip_instrs(p) == Seq::<InstructionV>::empty());
    } else {
        assert(p[0] == s[0]);
        lemma_strip_keeps_first(p);
    }
}

/// Stripping comments keeps a leading header and strips the rest.
proof fn lemma_strip_after_header(h: InstructionV, t: Seq<InstructionV>)
    requires
        h.kind == KindV::WhenRan,
    ensures
        strip_instrs(seq![h] + t) == seq![h] + strip_instrs(t),
    decreases t.len(),
{
    let u = seq![h] + t;
    if t.len() == 0 {
        assert(u =~= seq![h]);
        assert(u.subrange(0, 0) =~= Seq::<InstructionV>::empty());
        assert(strip_instrs(Seq::<InstructionV>::empty()) == Seq::<InstructionV>::empty());
        assert(u[0] == h);
        assert(strip_kind(h.kind) == h.kind);
        assert(InstructionV { id: h.id, kind: strip_kind(h.kind) } == h);
        assert(strip_instrs(u) == strip_instrs(u.subrange(0, 0)).push(h));
        assert(strip_instrs(t) == Seq::<InstructionV>::empty());
        assert(strip_instrs(u) =~= seq![h] + strip_instrs(t));
    } else {
        let n = t.len() - 1;
        assert(u.subrange(0, u.len() - 1) =~= seq![h] + t.subrange(0, n));
        assert(u[u.len() - 1] == t[n]);
        lemma_strip_after_header(h, t.subrange(0, n));
        let y = InstructionV { id: t[n].id, kind: strip_kind(t[n].kind) };
        assert((seq![h] + strip_instrs(t.subrange(0, n))).push(y) =~= seq![h] + strip_instrs(t.subrange(0, n)).push(y));
    }
}

/// Loading a legacy flat save gives one strand that starts with a fresh
/// `WhenRan` header followed by the old code, its boolean slots repaired
/// and its inline comments moved out, in order: the old code becomes the
/// body of an entry point.
pub proof fn law_legacy_load_starts_with_when_ran(s: SavedV, r: MacroV)
    requires
        s is Legacy,
        loaded_from(s, r),
    ensures
        r.strands.len() == 1,
        r.strands[0].instructions.len() > 0,
        r.strands[0].instructions[0].kind == KindV::WhenRan,
        is_simple_uuid(r.strands[0].instructions[0].id),
        r.strands[0].instructions.drop_first() == strip_instrs(
            se_instrs(rw_instrs(s->code, Edit::MigrateBools), SlotEdit::RepairBoolArgs(bool_table(Seq::empty()))),
        ),
{
    broadcast use crate::slots::group_slot_edit;

    if let SavedV::Legacy { id, name, description, code } = s {
        let (sid, hid) = choose|sid: Seq<char>, hid: Seq<char>|
            {
                &&& is_simple_uuid(sid)
                &&& is_simple_uuid(hid)
                &&& legacy_migrated(bools_migrated(legacy_base(id, name, description, code, sid, hid)), r)
            };
        let base = legacy_base(id, name, description, code, sid, hid);
        let b = bools_migrated(base);
        let h = InstructionV { id: hid, kind: KindV::WhenRan };
        let ins = seq![h] + code;
        assert(base.strands[0].instructions == ins);
        let e = SlotEdit::RepairBoolArgs(bool_table(Seq::empty()));
        assert(base.block_defs == Seq::<BlockDefV>::empty());
        let rest = se_instrs(rw_instrs(code, Edit::MigrateBools), e);
        let x = b.strands[0].instructions;
        assert(x == se_instrs(rw_instrs(ins, Edit::MigrateBools), e));
        assert(x =~= seq![h] + rest) by {
            assert forall|i: int| 0 <= i < x.len() implies x[i] == (seq![h] + rest)[i] by {
                if i > 0 {
                    assert(ins[i] == code[i - 1]);
                }
            }
        }
        lemma_strip_after_header(h, rest);
        assert(r.strands[0].instructions == strip_instrs(x));
        assert((seq![h] + strip_instrs(rest)).drop_first() =~= strip_instrs(rest));
    }
}

} // verus!
