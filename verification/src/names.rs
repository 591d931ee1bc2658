//! References to variables, lists and block inputs by name, at the
//! positions the whole-tree edits visit; the fact that a rename leaves
//! none to the old name; and that renaming back undoes a rename to a name
//! that was not in use.
use vstd::prelude::*;
use crate::edit::{group_rewrite, rw_branches, rw_instrs, rw_kind, rw_token, rw_value, rw_values, Edit};
use crate::program::{InstructionV, KindV, TokenV, ValueV};

verus! {

/// What a name refers to.
pub ghost enum NameKind {
    Variable,
    List,
    Input,
}

/// The edit that renames `from` to `to` among the names of kind `k`.
pub open spec fn rename_edit(k: NameKind, from: Seq<char>, to: Seq<char>) -> Edit {
    match k {
        NameKind::Variable => Edit::RenameVar(from, to),
        NameKind::List => Edit::RenameList(from, to),
        NameKind::Input => Edit::RenameParam(from, to),
    }
}

/// Whether `v` refers to the name `n` of kind `k`.
pub open spec fn value_refers(v: ValueV, k: NameKind, n: Seq<char>) -> bool
    decreases v,
{
    match v {
        ValueV::Var(m) => k == NameKind::Variable && m == n,
        ValueV::List(m) => k == NameKind::List && m == n,
        ValueV::Param(m) => k == NameKind::Input && m == n,
        ValueV::Op(_, args, saved) => values_refer(args, k, n) || value_refers(*saved, k, n),
        ValueV::Call(_, args, branches, saved) => {
            values_refer(args, k, n) || branches_refer(branches, k, n) || value_refers(*saved, k, n)
        },
        _ => false,
    }
}

pub open spec fn values_refer(s: Seq<ValueV>, k: NameKind, n: Seq<char>) -> bool
    decreases s,
{
    s.len() > 0 && (values_refer(s.subrange(0, s.len() - 1), k, n) || value_refers(s[s.len() - 1], k, n))
}

pub open spec fn branches_refer(s: Seq<Seq<InstructionV>>, k: NameKind, n: Seq<char>) -> bool
    decreases s,
{
    s.len() > 0 && (branches_refer(s.subrange(0, s.len() - 1), k, n) || instrs_refer(s[s.len() - 1], k, n))
}

/// Whether an instruction list refers to the name `n` of kind `k`, at any
/// position the whole-tree edits visit.
pub open spec fn instrs_refer(s: Seq<InstructionV>, k: NameKind, n: Seq<char>) -> bool
    decreases s,
{
    s.len() > 0 && (instrs_refer(s.subrange(0, s.len() - 1), k, n) || kind_refers(s[s.len() - 1].kind, k, n))
}

pub open spec fn token_refers(t: TokenV, k: NameKind, n: Seq<char>) -> bool
    decreases t,
{
    match t {
        TokenV::Text(v) => value_refers(v, k, n),
        TokenV::MoveMouse(x, y, _) => value_refers(x, k, n) || value_refers(y, k, n),
        TokenV::Scroll(v) => value_refers(v, k, n),
        _ => false,
    }
}

pub open spec fn kind_refers(i: KindV, k: NameKind, n: Seq<char>) -> bool
    decreases i,
{
    let var = |m: Seq<char>| k == NameKind::Variable && m == n;
    let list = |m: Seq<char>| k == NameKind::List && m == n;
    match i {
        KindV::Token(t) => token_refers(t, k, n),
        KindV::Wait(v) => value_refers(v, k, n),
        KindV::WhenBatteryDischargedTo(v) => value_refers(v, k, n),
        KindV::WhenBatteryChargedTo(v) => value_refers(v, k, n),
        KindV::Return(v) => value_refers(v, k, n),
        KindV::SetVariable(m, v) => var(m) || value_refers(v, k, n),
        KindV::ChangeVariable(m, v) => var(m) || value_refers(v, k, n),
        KindV::AddToList { value, name } => value_refers(value, k, n) || list(name),
        KindV::InsertIntoList { value, index, name } => {
            value_refers(value, k, n) || value_refers(index, k, n) || list(name)
        },
        KindV::DeleteOfList { index, name } => value_refers(index, k, n) || list(name),
        KindV::ShiftList { name, amount } => list(name) || value_refers(amount, k, n),
        KindV::ReplaceItemOfList { index, name, value } => {
            value_refers(index, k, n) || list(name) || value_refers(value, k, n)
        },
        KindV::DeleteAllOfList { name } => list(name),
        KindV::ReverseList { name } => list(name),
        KindV::CallBlock { args, branches, .. } => values_refer(args, k, n) || branches_refer(branches, k, n),
        KindV::If { condition, body } => value_refers(condition, k, n) || instrs_refer(body, k, n),
        KindV::IfElse { condition, then_body, else_body } => {
            value_refers(condition, k, n) || instrs_refer(then_body, k, n) || instrs_refer(else_body, k, n)
        },
        KindV::Repeat { count, body } => value_refers(count, k, n) || instrs_refer(body, k, n),
        KindV::Forever { body } => instrs_refer(body, k, n),
        KindV::While { condition, body } => value_refers(condition, k, n) || instrs_refer(body, k, n),
        _ => false,
    }
}

pub proof fn lemma_renamed_value(v: ValueV, k: NameKind, from: Seq<char>, to: Seq<char>, b: bool)
    requires
        from != to,
    ensures
        !value_refers(rw_value(v, rename_edit(k, from, to), b), k, from),
    decreases v,
{
    match v {
        ValueV::Op(op, args, saved) => {
            lemma_renamed_values(args, k, from, to, op.spec_takes_bool_operands());
            lemma_renamed_value(*saved, k, from, to, b);
        },
        ValueV::Call(_, args, branches, saved) => {
            lemma_renamed_values(args, k, from, to, false);
            lemma_renamed_branches(branches, k, from, to);
            lemma_renamed_value(*saved, k, from, to, b);
        },
        _ => {},
    }
}

proof fn lemma_renamed_values(s: Seq<ValueV>, k: NameKind, from: Seq<char>, to: Seq<char>, b: bool)
    requires
        from != to,
    ensures
        !values_refer(rw_values(s, rename_edit(k, from, to), b), k, from),
    decreases s,
{
    broadcast use group_rewrite;

    if s.len() > 0 {
        let n = s.len() - 1;
        let e = rename_edit(k, from, to);
        assert(rw_values(s, e, b).subrange(0, n) =~= rw_values(s.subrange(0, n), e, b));
        lemma_renamed_values(s.subrange(0, n), k, from, to, b);
        lemma_renamed_value(s[n], k, from, to, b);
    }
}

proof fn lemma_renamed_branches(s: Seq<Seq<InstructionV>>, k: NameKind, from: Seq<char>, to: Seq<char>)
    requires
        from != to,
    ensures
        !branches_refer(rw_branches(s, rename_edit(k, from, to)), k, from),
    decreases s,
{
    broadcast use group_rewrite;

    if s.len() > 0 {
        let n = s.len() - 1;
        let e = rename_edit(k, from, to);
        assert(rw_branches(s, e).subrange(0, n) =~= rw_branches(s.subrange(0, n), e));
        lemma_renamed_branches(s.subrange(0, n), k, from, to);
        lemma_renamed_instrs(s[n], k, from, to);
    }
}

/// After renaming `from` to `to`, an instruction list refers to `from`
/// nowhere the rename visits.
pub proof fn lemma_renamed_instrs(s: Seq<InstructionV>, k: NameKind, from: Seq<char>, to: Seq<char>)
    requires
        from != to,
    ensures
        !instrs_refer(rw_instrs(s, rename_edit(k, from, to)), k, from),
    decreases s,
{
    broadcast use group_rewrite;

    if s.len() > 0 {
        let n = s.len() - 1;
        let e = rename_edit(k, from, to);
        assert(rw_instrs(s, e).subrange(0, n) =~= rw_instrs(s.subrange(0, n), e));
        lemma_renamed_instrs(s.subrange(0, n), k, from, to);
        lemma_renamed_kind(s[n].kind, k, from, to);
    }
}

proof fn lemma_renamed_token(t: TokenV, k: NameKind, from: Seq<char>, to: Seq<char>)
    requires
        from != to,
    ensures
        !token_refers(rw_token(t, rename_edit(k, from, to)), k, from),
    decreases t,
{
    match t {
        TokenV::Text(v) => lemma_renamed_value(v, k, from, to, false),
        TokenV::MoveMouse(x, y, _) => {
            lemma_renamed_value(x, k, from, to, false);
            lemma_renamed_value(y, k, from, to, false);
        },
        TokenV::Scroll(v) => lemma_renamed_value(v, k, from, to, false),
        _ => {},
    }
}

proof fn lemma_renamed_kind(i: KindV, k: NameKind, from: Seq<char>, to: Seq<char>)
    requires
        from != to,
    ensures
        !kind_refers(rw_kind(i, rename_edit(k, from, to)), k, from),
    decreases i,
{
    match i {
        KindV::Token(t) => lemma_renamed_token(t, k, from, to),
        KindV::Wait(v) => lemma_renamed_value(v, k, from, to, false),
        KindV::WhenBatteryDischargedTo(v) => lemma_renamed_value(v, k, from, to, false),
        KindV::WhenBatteryChargedTo(v) => lemma_renamed_value(v, k, from, to, false),
        KindV::Return(v) => lemma_renamed_value(v, k, from, to, false),
        KindV::SetVariable(_, v) => lemma_renamed_value(v, k, from, to, false),
        KindV::ChangeVariable(_, v) => lemma_renamed_value(v, k, from, to, false),
        KindV::AddToList { value, .. } => lemma_renamed_value(value, k, from, to, false),
        KindV::InsertIntoList { value, index, .. } => {
            lemma_renamed_value(value, k, from, to, false);
            lemma_renamed_value(index, k, from, to, false);
        },
        KindV::DeleteOfList { index, .. } => lemma_renamed_value(index, k, from, to, false),
        KindV::ShiftList { amount, .. } => lemma_renamed_value(amount, k, from, to, false),
        KindV::ReplaceItemOfList { index, value, .. } => {
            lemma_renamed_value(index, k, from, to, false);
            lemma_renamed_value(value, k, from, to, false);
        },
        KindV::CallBlock { args, branches, .. } => {
            lemma_renamed_values(args, k, from, to, false);
            lemma_renamed_branches(branches, k, from, to);
        },
        KindV::If { condition, body } => {
            lemma_renamed_value(condition, k, from, to, true);
            lemma_renamed_instrs(body, k, from, to);
        },
        KindV::IfElse { condition, then_body, else_body } => {
            lemma_renamed_value(condition, k, from, to, true);
            lemma_renamed_instrs(then_body, k, from, to);
            lemma_renamed_instrs(else_body, k, from, to);
        },
        KindV::Repeat { count, body } => {
            lemma_renamed_value(count, k, from, to, false);
            lemma_renamed_instrs(body, k, from, to);
        },
        KindV::Forever { body } => lemma_renamed_instrs(body, k, from, to),
        KindV::While { condition, body } => {
            lemma_renamed_value(condition, k, from, to, true);
            lemma_renamed_instrs(body, k, from, to);
        },
        _ => {},
    }
}

/// Renaming `from` to `to` and then `to` back to `from` restores a value
/// that did not refer to `to`.
pub proof fn lemma_rename_back_value(v: ValueV, k: NameKind, from: Seq<char>, to: Seq<char>, b: bool)
    requires
        !value_refers(v, k, to),
    ensures
        rw_value(rw_value(v, rename_edit(k, from, to), b), rename_edit(k, to, from), b) == v,
    decreases v,
{
    match v {
        ValueV::Op(op, args, saved) => {
            lemma_rename_back_values(args, k, from, to, op.spec_takes_bool_operands());
            lemma_rename_back_value(*saved, k, from, to, b);
        },
        ValueV::Call(_, args, branches, saved) => {
            lemma_rename_back_values(args, k, from, to, false);
            lemma_rename_back_branches(branches, k, from, to);
            lemma_rename_back_value(*saved, k, from, to, b);
        },
        _ => {},
    }
}

proof fn lemma_rename_back_values(s: Seq<ValueV>, k: NameKind, from: Seq<char>, to: Seq<char>, b: bool)
    requires
        !values_refer(s, k, to),
    ensures
        rw_values(rw_values(s, rename_edit(k, from, to), b), rename_edit(k, to, from), b) == s,
    decreases s,
{
    broadcast use group_rewrite;

    let e1 = rename_edit(k, from, to);
    let e2 = rename_edit(k, to, from);
    let r = rw_values(rw_values(s, e1, b), e2, b);
    if s.len() > 0 {
        let n = s.len() - 1;
        let p = s.subrange(0, n);
        lemma_rename_back_values(p, k, from, to, b);
        lemma_rename_back_value(s[n], k, from, to, b);
        assert forall|j: int| 0 <= j < s.len() implies r[j] == s[j] by {
            if j < n {
                assert(p[j] == s[j]);
                assert(rw_values(rw_values(p, e1, b), e2, b)[j] == p[j]);
            }
        }
    }
    assert(r =~= s);
}

proof fn lemma_rename_back_branches(s: Seq<Seq<InstructionV>>, k: NameKind, from: Seq<char>, to: Seq<char>)
    requires
        !branches_refer(s, k, to),
    ensures
        rw_branches(rw_branches(s, rename_edit(k, from, to)), rename_edit(k, to, from)) == s,
    decreases s,
{
    broadcast use group_rewrite;

    let e1 = rename_edit(k, from, to);
    let e2 = rename_edit(k, to, from);
    let r = rw_branches(rw_branches(s, e1), e2);
    if s.len() > 0 {
        let n = s.len() - 1;
        let p = s.subrange(0, n);
        lemma_rename_back_branches(p, k, from, to);
        lemma_rename_back_instrs(s[n], k, from, to);
        assert forall|j: int| 0 <= j < s.len() implies r[j] == s[j] by {
            if j < n {
                assert(p[j] == s[j]);
                assert(rw_branches(rw_branches(p, e1), e2)[j] == p[j]);
            }
        }
    }
    assert(r =~= s);
}

/// Renaming `from` to `to` and then `to` back to `from` restores an
/// instruction list that did not refer to `to`, ids included.
pub proof fn lemma_rename_back_instrs(s: Seq<InstructionV>, k: NameKind, from: Seq<char>, to: Seq<char>)
    requires
        !instrs_refer(s, k, to),
    ensures
        rw_instrs(rw_instrs(s, rename_edit(k, from, to)), rename_edit(k, to, from)) == s,
    decreases s,
{
    broadcast use group_rewrite;

    let e1 = rename_edit(k, from, to);
    let e2 = rename_edit(k, to, from);
    let r = rw_instrs(rw_instrs(s, e1), e2);
    if s.len() > 0 {
        let n = s.len() - 1;
        let p = s.subrange(0, n);
        lemma_rename_back_instrs(p, k, from, to);
        lemma_rename_back_kind(s[n].kind, k, from, to);
        assert forall|j: int| 0 <= j < s.len() implies r[j] == s[j] by {
            if j < n {
                assert(p[j] == s[j]);
                assert(rw_instrs(rw_instrs(p, e1), e2)[j] == p[j]);
            }
        }
    }
    assert(r =~= s);
}

proof fn lemma_rename_back_token(t: TokenV, k: NameKind, from: Seq<char>, to: Seq<char>)
    requires
        !token_refers(t, k, to),
    ensures
        rw_token(rw_token(t, rename_edit(k, from, to)), rename_edit(k, to, from)) == t,
    decreases t,
{
    match t {
        TokenV::Text(v) => lemma_rename_back_value(v, k, from, to, false),
        TokenV::MoveMouse(x, y, _) => {
            lemma_rename_back_value(x, k, from, to, false);
            lemma_rename_back_value(y, k, from, to, false);
        },
        TokenV::Scroll(v) => lemma_rename_back_value(v, k, from, to, false),
        _ => {},
    }
}

/// Renaming `from` to `to` and then `to` back to `from` restores an
/// instruction kind that did not refer to `to`.
pub proof fn lemma_rename_back_kind(i: KindV, k: NameKind, from: Seq<char>, to: Seq<char>)
    requires
        !kind_refers(i, k, to),
    ensures
        rw_kind(rw_kind(i, rename_edit(k, from, to)), rename_edit(k, to, from)) == i,
    decreases i,
{
    match i {
        KindV::Token(t) => lemma_rename_back_token(t, k, from, to),
        KindV::Wait(v) => lemma_rename_back_value(v, k, from, to, false),
        KindV::WhenBatteryDischargedTo(v) => lemma_rename_back_value(v, k, from, to, false),
        KindV::WhenBatteryChargedTo(v) => lemma_rename_back_value(v, k, from, to, false),
        KindV::Return(v) => lemma_rename_back_value(v, k, from, to, false),
        KindV::SetVariable(_, v) => lemma_rename_back_value(v, k, from, to, false),
        KindV::ChangeVariable(_, v) => lemma_rename_back_value(v, k, from, to, false),
        KindV::AddToList { value, .. } => lemma_rename_back_value(value, k, from, to, false),
        KindV::InsertIntoList { value, index, .. } => {
            lemma_rename_back_value(value, k, from, to, false);
            lemma_rename_back_value(index, k, from, to, false);
        },
        KindV::DeleteOfList { index, .. } => lemma_rename_back_value(index, k, from, to, false),
        KindV::ShiftList { amount, .. } => lemma_rename_back_value(amount, k, from, to, false),
        KindV::ReplaceItemOfList { index, value, .. } => {
            lemma_rename_back_value(index, k, from, to, false);
            lemma_rename_back_value(value, k, from, to, false);
        },
        KindV::CallBlock { args, branches, .. } => {
            lemma_rename_back_values(args, k, from, to, false);
            lemma_rename_back_branches(branches, k, from, to);
        },
        KindV::If { condition, body } => {
            lemma_rename_back_value(condition, k, from, to, true);
            lemma_rename_back_instrs(body, k, from, to);
        },
        KindV::IfElse { condition, then_body, else_body } => {
            lemma_rename_back_value(condition, k, from, to, true);
            lemma_rename_back_instrs(then_body, k, from, to);
            lemma_rename_back_instrs(else_body, k, from, to);
        },
        KindV::Repeat { count, body } => {
            lemma_rename_back_value(count, k, from, to, false);
            lemma_rename_back_instrs(body, k, from, to);
        },
        KindV::Forever { body } => lemma_rename_back_instrs(body, k, from, to),
        KindV::While { condition, body } => {
            lemma_rename_back_value(condition, k, from, to, true);
            lemma_rename_back_instrs(body, k, from, to);
        },
        _ => {},
    }
}

} // verus!
