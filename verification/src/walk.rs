//! Walks over every nested list of compound blocks and custom-block
//! branches: collecting the ids of every reachable instruction, and
//! pulling inline `Comment` instructions out of a program.
use vstd::prelude::*;
use crate::program::{group_program_views, view_branches, view_instrs, Instruction, InstructionKind, InstructionV, KindV};
use crate::seqs::views;

verus! {

broadcast use group_program_views;

/// Ids of the instructions of `s` and of everything nested in them, in
/// walk order.
pub open spec fn ids_in(s: Seq<InstructionV>) -> Seq<Seq<char>>
    decreases s,
{
    if s.len() == 0 {
        Seq::empty()
    } else {
        ids_in(s.subrange(0, s.len() - 1)) + seq![s[s.len() - 1].id] + ids_in_kind(s[s.len() - 1].kind)
    }
}

pub open spec fn ids_in_kind(k: KindV) -> Seq<Seq<char>>
    decreases k,
{
    match k {
        KindV::If { body, .. } => ids_in(body),
        KindV::IfElse { then_body, else_body, .. } => ids_in(then_body) + ids_in(else_body),
        KindV::Repeat { body, .. } => ids_in(body),
        KindV::Forever { body } => ids_in(body),
        KindV::While { body, .. } => ids_in(body),
        KindV::CallBlock { branches, .. } => ids_in_branches(branches),
        _ => Seq::empty(),
    }
}

/// Ids reachable from the branches, branch by branch.
pub open spec fn ids_in_branches(bs: Seq<Seq<InstructionV>>) -> Seq<Seq<char>>
    decreases bs,
{
    if bs.len() == 0 {
        Seq::empty()
    } else {
        ids_in_branches(bs.subrange(0, bs.len() - 1)) + ids_in(bs[bs.len() - 1])
    }
}

/// `s` with every `Comment` instruction removed, at every depth.
pub open spec fn strip_instrs(s: Seq<InstructionV>) -> Seq<InstructionV>
    decreases s,
{
    if s.len() == 0 {
        Seq::empty()
    } else {
        let rest = strip_instrs(s.subrange(0, s.len() - 1));
        let x = s[s.len() - 1];
        match x.kind {
            KindV::Comment(_) => rest,
            _ => rest.push(InstructionV { id: x.id, kind: strip_kind(x.kind) }),
        }
    }
}

pub open spec fn strip_kind(k: KindV) -> KindV
    decreases k,
{
    match k {
        KindV::If { condition, body } => KindV::If { condition, body: strip_instrs(body) },
        KindV::IfElse { condition, then_body, else_body } => KindV::IfElse {
            condition,
            then_body: strip_instrs(then_body),
            else_body: strip_instrs(else_body),
        },
        KindV::Repeat { count, body } => KindV::Repeat { count, body: strip_instrs(body) },
        KindV::Forever { body } => KindV::Forever { body: strip_instrs(body) },
        KindV::While { condition, body } => KindV::While { condition, body: strip_instrs(body) },
        KindV::CallBlock { block_id, args, branches } => KindV::CallBlock {
            block_id,
            args,
            branches: strip_branches(branches),
        },
        _ => k,
    }
}

/// Every branch stripped.
pub open spec fn strip_branches(bs: Seq<Seq<InstructionV>>) -> Seq<Seq<InstructionV>>
    decreases bs,
{
    Seq::new(bs.len(), |i: int| if 0 <= i < bs.len() { strip_instrs(bs[i]) } else { Seq::empty() })
}

/// The texts of the `Comment` instructions `strip_instrs` removes, in
/// walk order.
pub open spec fn texts_in(s: Seq<InstructionV>) -> Seq<Seq<char>>
    decreases s,
{
    if s.len() == 0 {
        Seq::empty()
    } else {
        let x = s[s.len() - 1];
        let own = match x.kind {
            KindV::Comment(t) => seq![t],
            _ => Seq::empty(),
        };
        texts_in(s.subrange(0, s.len() - 1)) + texts_in_kind(x.kind) + own
    }
}

pub open spec fn texts_in_kind(k: KindV) -> Seq<Seq<char>>
    decreases k,
{
    match k {
        KindV::If { body, .. } => texts_in(body),
        KindV::IfElse { then_body, else_body, .. } => texts_in(then_body) + texts_in(else_body),
        KindV::Repeat { body, .. } => texts_in(body),
        KindV::Forever { body } => texts_in(body),
        KindV::While { body, .. } => texts_in(body),
        KindV::CallBlock { branches, .. } => texts_in_branches(branches),
        _ => Seq::empty(),
    }
}

pub open spec fn texts_in_branches(bs: Seq<Seq<InstructionV>>) -> Seq<Seq<char>>
    decreases bs,
{
    if bs.len() == 0 {
        Seq::empty()
    } else {
        texts_in_branches(bs.subrange(0, bs.len() - 1)) + texts_in(bs[bs.len() - 1])
    }
}

/// Appends the ids of `list` and of everything nested in it.
pub(crate) fn collect_ids(list: &Vec<Instruction>, out: &mut Vec<String>)
    ensures
        views(final(out)@) == views(old(out)@) + ids_in(view_instrs(list@)),
    decreases *list, 0nat,
{
    let ghost l = view_instrs(list@);
    let ghost o0 = views(out@);
    let mut i: usize = 0;
    while i < list.len()
        invariant
            i <= list@.len(),
            l == view_instrs(list@),
            views(out@) == o0 + ids_in(l.subrange(0, i as int)),
        decreases list.len() - i,
    {
        proof {
            assert(decreases_to!(*list => list@));
            assert(decreases_to!(list@ => list@[i as int]));
            assert(l.subrange(0, i + 1).subrange(0, i as int) =~= l.subrange(0, i as int));
        }
        out.push(list[i].id.clone());
        proof {
            assert(views(out@) =~= o0 + ids_in(l.subrange(0, i as int)) + seq![l[i as int].id]);
        }
        collect_kind_ids(&list[i].kind, out);
        proof {
            assert(views(out@) =~= o0 + ids_in(l.subrange(0, i + 1)));
        }
        i = i + 1;
    }
    assert(l.subrange(0, l.len() as int) =~= l);
}

fn collect_kind_ids(k: &InstructionKind, out: &mut Vec<String>)
    ensures
        views(final(out)@) == views(old(out)@) + ids_in_kind(k@),
    decreases *k, 0nat,
{
    let ghost o0 = views(out@);
    match k {
        InstructionKind::If { body, .. } => collect_ids(body, out),
        InstructionKind::IfElse { then_body, else_body, .. } => {
            collect_ids(then_body, out);
            collect_ids(else_body, out);
            assert(views(out@) =~= o0 + ids_in_kind(k@));
        },
        InstructionKind::Repeat { body, .. } => collect_ids(body, out),
        InstructionKind::Forever { body } => collect_ids(body, out),
        InstructionKind::While { body, .. } => collect_ids(body, out),
        InstructionKind::CallBlock { branches, .. } => collect_branch_ids(branches, out),
        _ => {
            assert(views(out@) =~= o0 + ids_in_kind(k@));
        },
    }
}

/// Removes every `Comment` instruction from `list`, at every depth,
/// appending their texts to `out`.
pub(crate) fn extract_comments(list: &mut Vec<Instruction>, out: &mut Vec<String>)
    ensures
        view_instrs(final(list)@) == strip_instrs(view_instrs(old(list)@)),
        views(final(out)@) == views(old(out)@) + texts_in(view_instrs(old(list)@)),
    decreases *old(list), 0nat,
{
    let ghost l = view_instrs(list@);
    let ghost v0 = list@;
    let ghost o0 = views(out@);
    let mut src: Vec<Instruction> = Vec::new();
    std::mem::swap(&mut src, list);
    let n = src.len();
    let mut kept: Vec<Instruction> = Vec::new();
    let mut i: usize = 0;
    while i < n
        invariant
            n == v0.len(),
            v0 == old(list)@,
            l == view_instrs(v0),
            i <= n,
            src@ == v0.subrange(i as int, n as int),
            view_instrs(kept@) == strip_instrs(l.subrange(0, i as int)),
            views(out@) == o0 + texts_in(l.subrange(0, i as int)),
        decreases n - i,
    {
        let mut ins = src.remove(0);
        proof {
            assert(ins == v0[i as int]);
            assert(decreases_to!(*old(list) => old(list)@));
            assert(decreases_to!(old(list)@ => v0[i as int]));
            assert(src@ =~= v0.subrange(i + 1, n as int));
            lemma_strip_step(l, i as int);
        }
        extract_kind_comments(&mut ins.kind, out);
        let ghost o2 = views(out@);
        let is_comment = match &ins.kind {
            InstructionKind::Comment(text) => {
                out.push(text.clone());
                assert(views(out@) =~= o2 + seq![text@]);
                true
            },
            _ => {
                assert(views(out@) =~= o2 + Seq::empty());
                false
            },
        };
        if !is_comment {
            kept.push(ins);
        }
        proof {
            assert(views(out@) =~= o0 + texts_in(l.subrange(0, i + 1)));
        }
        i = i + 1;
    }
    assert(l.subrange(0, n as int) =~= l);
    *list = kept;
}

fn collect_branch_ids(bs: &Vec<Vec<Instruction>>, out: &mut Vec<String>)
    ensures
        views(final(out)@) == views(old(out)@) + ids_in_branches(view_branches(bs@)),
    decreases *bs, 0nat,
{
    let ghost o0 = views(out@);
    let ghost b = view_branches(bs@);
    let mut i: usize = 0;
    while i < bs.len()
        invariant
            i <= bs@.len(),
            b == view_branches(bs@),
            views(out@) == o0 + ids_in_branches(b.subrange(0, i as int)),
        decreases bs.len() - i,
    {
        proof {
            assert(decreases_to!(*bs => bs@));
            assert(decreases_to!(bs@ => bs@[i as int]));
            assert(b.subrange(0, i + 1).subrange(0, i as int) =~= b.subrange(0, i as int));
        }
        collect_ids(&bs[i], out);
        proof {
            assert(views(out@) =~= o0 + ids_in_branches(b.subrange(0, i + 1)));
        }
        i = i + 1;
    }
    assert(b.subrange(0, b.len() as int) =~= b);
}

fn extract_branch_comments(bs: &mut Vec<Vec<Instruction>>, out: &mut Vec<String>)
    ensures
        view_branches(final(bs)@) == strip_branches(view_branches(old(bs)@)),
        views(final(out)@) == views(old(out)@) + texts_in_branches(view_branches(old(bs)@)),
    decreases *old(bs), 0nat,
{
    let ghost o0 = views(out@);
    let ghost b0 = bs@;
    let ghost b = view_branches(bs@);
    let mut i: usize = 0;
    while i < bs.len()
        invariant
            i <= bs@.len(),
            bs@.len() == b0.len(),
            b0 == old(bs)@,
            b == view_branches(b0),
            forall|j: int| 0 <= j < i ==> #[trigger] view_instrs(bs@[j]@) == strip_branches(b)[j],
            forall|j: int| i <= j < bs@.len() ==> #[trigger] bs@[j] == b0[j],
            views(out@) == o0 + texts_in_branches(b.subrange(0, i as int)),
        decreases bs.len() - i,
    {
        proof {
            assert(decreases_to!(*old(bs) => old(bs)@));
            assert(decreases_to!(old(bs)@ => b0[i as int]));
            assert(b.subrange(0, i + 1).subrange(0, i as int) =~= b.subrange(0, i as int));
        }
        extract_comments(&mut bs[i], out);
        proof {
            assert(views(out@) =~= o0 + texts_in_branches(b.subrange(0, i + 1)));
        }
        i = i + 1;
    }
    assert(b.subrange(0, b.len() as int) =~= b);
    assert(view_branches(bs@) =~= strip_branches(b));
}

/// One more instruction in the stripped prefix.
proof fn lemma_strip_step(l: Seq<InstructionV>, i: int)
    requires
        0 <= i < l.len(),
    ensures
        strip_instrs(l.subrange(0, i + 1)) == (match l[i].kind {
            KindV::Comment(_) => strip_instrs(l.subrange(0, i)),
            _ => strip_instrs(l.subrange(0, i)).push(InstructionV { id: l[i].id, kind: strip_kind(l[i].kind) }),
        }),
        texts_in(l.subrange(0, i + 1)) == texts_in(l.subrange(0, i)) + texts_in_kind(l[i].kind) + (match l[i].kind {
            KindV::Comment(t) => seq![t],
            _ => Seq::empty(),
        }),
{
    assert(l.subrange(0, i + 1).subrange(0, i) =~= l.subrange(0, i));
    assert(l.subrange(0, i + 1)[i] == l[i]);
}

fn extract_kind_comments(k: &mut InstructionKind, out: &mut Vec<String>)
    ensures
        final(k)@ == strip_kind(old(k)@),
        views(final(out)@) == views(old(out)@) + texts_in_kind(old(k)@),
    decreases *old(k), 0nat,
{
    let ghost o0 = views(out@);
    match k {
        InstructionKind::If { body, .. } => extract_comments(body, out),
        InstructionKind::IfElse { then_body, else_body, .. } => {
            extract_comments(then_body, out);
            extract_comments(else_body, out);
            assert(views(out@) =~= o0 + texts_in_kind(old(k)@));
        },
        InstructionKind::Repeat { body, .. } => extract_comments(body, out),
        InstructionKind::Forever { body } => extract_comments(body, out),
        InstructionKind::While { body, .. } => extract_comments(body, out),
        InstructionKind::CallBlock { branches, .. } => extract_branch_comments(branches, out),
        _ => {
            assert(views(out@) =~= o0 + texts_in_kind(old(k)@));
        },
    }
}

} // verus!
