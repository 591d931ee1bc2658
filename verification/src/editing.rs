//! Edits of a whole macro: lookups, renames, block creation and the
//! recording target.
use vstd::prelude::*;

use crate::edit::{rw_instrs, rw_value, Edit};
use crate::ids::{fresh_id, is_simple_uuid};

use crate::macros::{first_index_of, lemma_first_index_at, lemma_first_index_of, strand_ids, Comment, CommentV, EvaluatedV, FloatingV, FloatingValue, ListDefV, ListItem, ListItemV, Macro, MacroSettings, MacroV, Strand, StrandV, VariableV, DEFAULT_SPEED_MULTIPLIER_BITS};
use crate::program::{group_program_views, view_instrs, Evaluated, Instruction, InstructionKind, KindV};
use crate::rewrite::{rewrite_instrs, Rewrite};
use crate::docs::copy_items;
use crate::seqs::{elem_mut, views};
use crate::text::{is_blank, is_blank_str, owned, str_eq};

verus! {

broadcast use group_program_views;

/// The strands after `e` is applied to all their instructions.
pub open spec fn rw_strands(s: Seq<StrandV>, e: Edit) -> Seq<StrandV> {
    Seq::new(s.len(), |i: int| StrandV { instructions: rw_instrs(s[i].instructions, e), ..s[i] })
}

/// The floating values after `e` is applied to each of them.
pub open spec fn rw_floating(s: Seq<FloatingV>, e: Edit) -> Seq<FloatingV> {
    Seq::new(s.len(), |i: int| FloatingV { value: rw_value(s[i].value, e, false), ..s[i] })
}

pub open spec fn floating_ids(s: Seq<FloatingV>) -> Seq<Seq<char>> {
    Seq::new(s.len(), |i: int| s[i].id)
}

pub open spec fn comment_ids(s: Seq<CommentV>) -> Seq<Seq<char>> {
    Seq::new(s.len(), |i: int| s[i].id)
}

pub open spec fn variable_names(s: Seq<VariableV>) -> Seq<Seq<char>> {
    Seq::new(s.len(), |i: int| s[i].name)
}

pub open spec fn list_names(s: Seq<ListDefV>) -> Seq<Seq<char>> {
    Seq::new(s.len(), |i: int| s[i].name)
}

/// The value the first entry keyed `key` carries.
pub open spec fn lookup<V>(entries: Seq<(Seq<char>, V)>, key: Seq<char>) -> Option<V>
    decreases entries.len(),
{
    if entries.len() == 0 {
        None
    } else if entries[0].0 == key {
        Some(entries[0].1)
    } else {
        lookup(entries.drop_first(), key)
    }
}

pub proof fn lemma_lookup_at<V>(entries: Seq<(Seq<char>, V)>, key: Seq<char>, k: int)
    requires
        0 <= k <= entries.len(),
        forall|j: int| 0 <= j < k ==> entries[j].0 != key,
    ensures
        k < entries.len() && entries[k].0 == key ==> lookup(entries, key) == Some(entries[k].1),
        k == entries.len() ==> lookup(entries, key) is None,
    decreases entries.len(),
{
    if entries.len() > 0 && k > 0 {
        assert forall|j: int| 0 <= j < k - 1 implies entries.drop_first()[j].0 != key by {
            assert(entries.drop_first()[j] == entries[j + 1]);
        }
        lemma_lookup_at(entries.drop_first(), key, k - 1);
    }
}

pub open spec fn variable_entries(s: Seq<(String, Evaluated)>) -> Seq<(Seq<char>, EvaluatedV)> {
    Seq::new(s.len(), |i: int| (s[i].0@, s[i].1@))
}

pub open spec fn list_entries(s: Seq<(String, Vec<ListItem>)>) -> Seq<(Seq<char>, Seq<ListItemV>)> {
    Seq::new(s.len(), |i: int| (s[i].0@, views(s[i].1@)))
}

/// The macro once variable `from` is renamed `to`: the first variable
/// declared as `from` takes the new name and every reference to it in the
/// strands and floating values follows; with no such variable, unchanged.
pub open spec fn variable_renamed(m: MacroV, from: Seq<char>, to: Seq<char>) -> MacroV {
    match first_index_of(variable_names(m.variables), from) {
        Some(i) => MacroV {
            variables: m.variables.update(i, VariableV { name: to, ..m.variables[i] }),
            strands: rw_strands(m.strands, Edit::RenameVar(from, to)),
            floating_values: rw_floating(m.floating_values, Edit::RenameVar(from, to)),
            ..m
        },
        None => m,
    }
}

/// The macro once list `from` is renamed `to`, in the same way.
pub open spec fn list_renamed(m: MacroV, from: Seq<char>, to: Seq<char>) -> MacroV {
    match first_index_of(list_names(m.lists), from) {
        Some(i) => MacroV {
            lists: m.lists.update(i, ListDefV { name: to, ..m.lists[i] }),
            strands: rw_strands(m.strands, Edit::RenameList(from, to)),
            floating_values: rw_floating(m.floating_values, Edit::RenameList(from, to)),
            ..m
        },
        None => m,
    }
}

/// Whether the strand is the body of custom block `block_id`.
pub open spec fn heads_block(s: StrandV, block_id: Seq<char>) -> bool {
    s.instructions.len() > 0 && s.instructions[0].kind == KindV::BlockHeader(block_id)
}

/// Whether the strand's first instruction is a `WhenRan` header.
pub open spec fn starts_with_when_ran_block(s: StrandV) -> bool {
    s.instructions.len() > 0 && s.instructions[0].kind == KindV::WhenRan
}

/// The first strand headed by `WhenRan`.
pub open spec fn first_when_ran_strand(s: Seq<StrandV>) -> Option<int>
    decreases s.len(),
{
    if s.len() == 0 {
        None
    } else if starts_with_when_ran_block(s[0]) {
        Some(0)
    } else {
        match first_when_ran_strand(s.drop_first()) {
            Some(i) => Some(i + 1),
            None => None,
        }
    }
}

pub proof fn lemma_first_when_ran_at(s: Seq<StrandV>, k: int)
    requires
        0 <= k <= s.len(),
        forall|j: int| 0 <= j < k ==> !starts_with_when_ran_block(#[trigger] s[j]),
    ensures
        k < s.len() && starts_with_when_ran_block(s[k]) ==> first_when_ran_strand(s) == Some(k),
        k == s.len() ==> first_when_ran_strand(s) is None,
    decreases s.len(),
{
    if s.len() > 0 && k > 0 {
        assert forall|j: int| 0 <= j < k - 1 implies !starts_with_when_ran_block(#[trigger] s.drop_first()[j]) by {
            assert(s.drop_first()[j] == s[j + 1]);
        }
        lemma_first_when_ran_at(s.drop_first(), k - 1);
    }
}

/// Where `first_when_ran_strand` finds a strand, it is one of `s`.
pub proof fn lemma_first_when_ran_range(s: Seq<StrandV>)
    ensures
        first_when_ran_strand(s) matches Some(i) ==> 0 <= i < s.len(),
    decreases s.len(),
{
    if s.len() > 0 {
        lemma_first_when_ran_range(s.drop_first());
    }
}

/// The strand freshly recorded input goes to: the explicit target if it
/// still exists, else the first "When Ran" strand, else the first strand.
pub open spec fn recording_index(m: MacroV) -> Option<int> {
    let explicit = match m.recording_target {
        Some(id) => first_index_of(strand_ids(m.strands), id),
        None => None,
    };
    match explicit {
        Some(i) => Some(i),
        None => match first_when_ran_strand(m.strands) {
            Some(i) => Some(i),
            None => if m.strands.len() > 0 { Some(0) } else { None },
        },
    }
}

/// The position of the first strand with `id`.
fn find_strand(strands: &Vec<Strand>, id: &str) -> (r: Option<usize>)
    ensures
        r matches Some(i) ==> i < strands@.len(),
        r matches Some(k) ==> first_index_of(strand_ids(views(strands@)), id@) == Some(k as int),
        r is None ==> first_index_of(strand_ids(views(strands@)), id@) is None,
{
    let ghost ids = strand_ids(views(strands@));
    let mut k: usize = 0;
    while k < strands.len()
        invariant
            k <= strands@.len(),
            ids == strand_ids(views(strands@)),
            forall|j: int| 0 <= j < k ==> ids[j] != id@,
        decreases strands.len() - k,
    {
        if str_eq(&strands[k].id, id) {
            proof {
                lemma_first_index_at(ids, id@, k as int);
            }
            return Some(k);
        }
        k = k + 1;
    }
    proof {
        lemma_first_index_at(ids, id@, k as int);
    }
    None
}

/// The position of the first strand headed by `WhenRan`.
fn find_when_ran_strand(strands: &Vec<Strand>) -> (r: Option<usize>)
    ensures
        r matches Some(i) ==> i < strands@.len(),
        r matches Some(k) ==> first_when_ran_strand(views(strands@)) == Some(k as int),
        r is None ==> first_when_ran_strand(views(strands@)) is None,
{
    let ghost s = views(strands@);
    let mut k: usize = 0;
    while k < strands.len()
        invariant
            k <= strands@.len(),
            s == views(strands@),
            forall|j: int| 0 <= j < k ==> !starts_with_when_ran_block(#[trigger] s[j]),
        decreases strands.len() - k,
    {
        let heads = strands[k].instructions.len() > 0
            && matches!(strands[k].instructions[0].kind, InstructionKind::WhenRan);
        if heads {
            proof {
                lemma_first_when_ran_at(s, k as int);
            }
            return Some(k);
        }
        k = k + 1;
    }
    proof {
        lemma_first_when_ran_at(s, k as int);
    }
    None
}

fn recording_position(m: &Macro) -> (r: Option<usize>)
    ensures
        r matches Some(i) ==> i < m.strands@.len(),
        r matches Some(k) ==> recording_index(m@) == Some(k as int),
        r is None ==> recording_index(m@) is None,
{
    let explicit = match &m.recording_target {
        Some(id) => find_strand(&m.strands, id.as_str()),
        None => None,
    };
    match explicit {
        Some(i) => Some(i),
        None => match find_when_ran_strand(&m.strands) {
            Some(i) => Some(i),
            None => if m.strands.len() > 0 { Some(0) } else { None },
        },
    }
}

impl Macro {
    /// A new macro whose single strand is `WhenRan` followed by `code`.
    pub fn new(name: String, description: String, code: Vec<Instruction>) -> (r: Macro)
        ensures
            is_simple_uuid(r@.id),
            r@.name == name@,
            r@.description == description@,
            r@.strands.len() == 1,
            is_simple_uuid(r@.strands[0].id),
            r@.strands[0].x == 0 && r@.strands[0].y == 0,
            r@.strands[0].instructions.len() == code@.len() + 1,
            r@.strands[0].instructions[0].kind == KindV::WhenRan,
            is_simple_uuid(r@.strands[0].instructions[0].id),
            r@.strands[0].instructions.drop_first() == view_instrs(code@),
            (r@.recording_target is None),
            r@.speed_multiplier_bits == DEFAULT_SPEED_MULTIPLIER_BITS,
            r@.floating_values.len() == 0,
            r@.comments.len() == 0,
            r@.variables.len() == 0,
            r@.lists.len() == 0,
            r@.block_defs.len() == 0,
            r@.settings == (MacroSettings { always_listen: false }),
    {
        let mut code = code;
        let ghost c0 = code@;
        code.insert(0, Instruction::new(InstructionKind::WhenRan));
        assert(view_instrs(code@).drop_first() =~= view_instrs(c0));
        let strand = Strand { id: fresh_id(), x: 0, y: 0, instructions: code };
        let mut strands: Vec<Strand> = Vec::new();
        strands.push(strand);
        Macro {
            id: fresh_id(),
            name,
            description,
            strands,
            recording_target: None,
            speed_multiplier_bits: DEFAULT_SPEED_MULTIPLIER_BITS,
            floating_values: Vec::new(),
            comments: Vec::new(),
            variables: Vec::new(),
            lists: Vec::new(),
            block_defs: Vec::new(),
            settings: MacroSettings { always_listen: false },
        }
    }

    /// Gives the macro a fresh id if its id is blank.
    pub fn ensure_id(&mut self)
        ensures
            is_blank(old(self)@.id) ==> is_simple_uuid(final(self)@.id)
                && final(self)@ == (MacroV { id: final(self)@.id, ..old(self)@ }),
            !is_blank(old(self)@.id) ==> final(self)@ == old(self)@,
    {
        if is_blank_str(self.id.as_str()) {
            self.id = fresh_id();
        }
    }

    /// The first strand with `id`.
    pub fn strand(&self, id: &str) -> (r: Option<&Strand>)
        ensures
            match first_index_of(strand_ids(self@.strands), id@) {
                Some(i) => r matches Some(s) && s@ == self@.strands[i],
                None => r is None,
            },
    {
        proof {
            lemma_first_index_of(strand_ids(self@.strands), id@);
        }
        match find_strand(&self.strands, id) {
            Some(i) => {
                Some(&self.strands[i])
            },
            None => {
                None
            },
        }
    }

    /// The first strand with `id`, for editing.
    pub fn strand_mut(&mut self, id: &str) -> (r: Option<&mut Strand>)
        ensures
            first_index_of(strand_ids(old(self)@.strands), id@) is None ==> r is None && final(self)@ == old(self)@,
            first_index_of(strand_ids(old(self)@.strands), id@) matches Some(i) ==> (r matches Some(s) && (*s)@
                == old(self)@.strands[i] && final(self)@ == (MacroV {
                strands: old(self)@.strands.update(i, (*final(s))@),
                ..old(self)@
            })),
    {
        proof {
            lemma_first_index_of(strand_ids(self@.strands), id@);
        }
        match find_strand(&self.strands, id) {
            Some(i) => Some(elem_mut(&mut self.strands, i)),
            None => None,
        }
    }

    /// The first floating value with `id`, for editing.
    pub fn floating_value_mut(&mut self, id: &str) -> (r: Option<&mut FloatingValue>)
        ensures
            first_index_of(floating_ids(old(self)@.floating_values), id@) is None ==> r is None && final(self)@
                == old(self)@,
            first_index_of(floating_ids(old(self)@.floating_values), id@) matches Some(i) ==> (r matches Some(f)
                && (*f)@ == old(self)@.floating_values[i] && final(self)@ == (MacroV {
                floating_values: old(self)@.floating_values.update(i, (*final(f))@),
                ..old(self)@
            })),
    {
        let ghost ids = floating_ids(views(self.floating_values@));
        let mut k: usize = 0;
        while k < self.floating_values.len()
            invariant
                k <= self.floating_values@.len(),
                ids == floating_ids(views(self.floating_values@)),
                *self == *old(self),
                forall|j: int| 0 <= j < k ==> ids[j] != id@,
            decreases self.floating_values.len() - k,
        {
            if str_eq(&self.floating_values[k].id, id) {
                proof {
                    lemma_first_index_at(ids, id@, k as int);
                }
                return Some(elem_mut(&mut self.floating_values, k));
            }
            k = k + 1;
        }
        proof {
            lemma_first_index_at(ids, id@, k as int);
        }
        None
    }

    /// The first comment with `id`, for editing.
    pub fn comment_mut(&mut self, id: &str) -> (r: Option<&mut Comment>)
        ensures
            first_index_of(comment_ids(old(self)@.comments), id@) is None ==> r is None && final(self)@ == old(
                self,
            )@,
            first_index_of(comment_ids(old(self)@.comments), id@) matches Some(i) ==> (r matches Some(c) && (*c)@
                == old(self)@.comments[i] && final(self)@ == (MacroV {
                comments: old(self)@.comments.update(i, (*final(c))@),
                ..old(self)@
            })),
    {
        let ghost ids = comment_ids(views(self.comments@));
        let mut k: usize = 0;
        while k < self.comments.len()
            invariant
                k <= self.comments@.len(),
                ids == comment_ids(views(self.comments@)),
                *self == *old(self),
                forall|j: int| 0 <= j < k ==> ids[j] != id@,
            decreases self.comments.len() - k,
        {
            if str_eq(&self.comments[k].id, id) {
                proof {
                    lemma_first_index_at(ids, id@, k as int);
                }
                return Some(elem_mut(&mut self.comments, k));
            }
            k = k + 1;
        }
        proof {
            lemma_first_index_at(ids, id@, k as int);
        }
        None
    }
}

/// The variables after the runtime values in `entries` are written back.
pub open spec fn synced_variables(vars: Seq<VariableV>, entries: Seq<(Seq<char>, EvaluatedV)>) -> Seq<VariableV> {
    Seq::new(
        vars.len(),
        |k: int|
            match lookup(entries, vars[k].name) {
                Some(v) => VariableV { value: v, ..vars[k] },
                None => vars[k],
            },
    )
}

/// The lists after the runtime contents in `entries` are written back.
pub open spec fn synced_lists(lists: Seq<ListDefV>, entries: Seq<(Seq<char>, Seq<ListItemV>)>) -> Seq<ListDefV> {
    Seq::new(
        lists.len(),
        |k: int|
            match lookup(entries, lists[k].name) {
                Some(items) => ListDefV { items: items, ..lists[k] },
                None => lists[k],
            },
    )
}

/// The strands after every strand headed by `BlockHeader(block_id)` had
/// `e` applied to its instructions.
pub open spec fn rw_block_bodies(s: Seq<StrandV>, block_id: Seq<char>, e: Edit) -> Seq<StrandV> {
    Seq::new(
        s.len(),
        |i: int|
            if heads_block(s[i], block_id) {
                StrandV { instructions: rw_instrs(s[i].instructions, e), ..s[i] }
            } else {
                s[i]
            },
    )
}

fn find_entry<V>(entries: &Vec<(String, V)>, key: &String) -> (r: Option<usize>)
    ensures
        r matches Some(k) ==> k < entries@.len() && entries@[k as int].0@ == key@ && forall|j: int|
            0 <= j < k ==> entries@[j].0@ != key@,
        r is None ==> forall|j: int| 0 <= j < entries@.len() ==> entries@[j].0@ != key@,
{
    let mut k: usize = 0;
    while k < entries.len()
        invariant
            k <= entries@.len(),
            forall|j: int| 0 <= j < k ==> entries@[j].0@ != key@,
        decreases entries.len() - k,
    {
        if entries[k].0 == *key {
            return Some(k);
        }
        k = k + 1;
    }
    None
}

impl Macro {
    /// Writes runtime variable values back into the declared variables; a
    /// variable takes the value of the first entry with its name.
    pub fn sync_variables_from(&mut self, values: &Vec<(String, Evaluated)>)
        ensures
            final(self)@ == (MacroV {
                variables: synced_variables(old(self)@.variables, variable_entries(values@)),
                ..old(self)@
            }),
    {
        let ghost entries = variable_entries(values@);
        let ghost v0 = self@.variables;
        let mut k: usize = 0;
        while k < self.variables.len()
            invariant
                k <= self.variables@.len(),
                v0.len() == self.variables@.len(),
                v0 == old(self)@.variables,
                entries == variable_entries(values@),
                forall|j: int| 0 <= j < k ==> #[trigger] views(self.variables@)[j] == synced_variables(v0, entries)[j],
                forall|j: int| k <= j < v0.len() ==> #[trigger] views(self.variables@)[j] == v0[j],
                self@ == (MacroV { variables: self@.variables, ..old(self)@ }),
            decreases self.variables.len() - k,
        {
            let found = find_entry(values, &self.variables[k].name);
            proof {
                let key = v0[k as int].name;
                assert(views(self.variables@)[k as int] == v0[k as int]);
                let n: int = match found { Some(e) => e as int, None => entries.len() as int };
                assert forall|j: int| 0 <= j < n implies entries[j].0 != key by {
                    assert(entries[j].0 == values@[j].0@);
                }
                lemma_lookup_at(entries, key, n);
            }
            match found {
                Some(e) => {
                    let v = values[e].1.duplicate();
                    elem_mut(&mut self.variables, k).value = v;
                },
                None => {},
            }
            k = k + 1;
        }
        assert(self@.variables =~= synced_variables(v0, entries));
    }

    /// Writes runtime list contents back into the declared lists.
    pub fn sync_lists_from(&mut self, values: &Vec<(String, Vec<ListItem>)>)
        ensures
            final(self)@ == (MacroV { lists: synced_lists(old(self)@.lists, list_entries(values@)), ..old(self)@ }),
    {
        let ghost entries = list_entries(values@);
        let ghost v0 = self@.lists;
        let mut k: usize = 0;
        while k < self.lists.len()
            invariant
                k <= self.lists@.len(),
                v0.len() == self.lists@.len(),
                v0 == old(self)@.lists,
                entries == list_entries(values@),
                forall|j: int| 0 <= j < k ==> #[trigger] views(self.lists@)[j] == synced_lists(v0, entries)[j],
                forall|j: int| k <= j < v0.len() ==> #[trigger] views(self.lists@)[j] == v0[j],
                self@ == (MacroV { lists: self@.lists, ..old(self)@ }),
            decreases self.lists.len() - k,
        {
            let found = find_entry(values, &self.lists[k].name);
            proof {
                let key = v0[k as int].name;
                assert(views(self.lists@)[k as int] == v0[k as int]);
                let n: int = match found { Some(e) => e as int, None => entries.len() as int };
                assert forall|j: int| 0 <= j < n implies entries[j].0 != key by {
                    assert(entries[j].0 == values@[j].0@);
                }
                lemma_lookup_at(entries, key, n);
            }
            match found {
                Some(e) => {
                    let items = copy_items(&values[e].1);
                    elem_mut(&mut self.lists, k).items = items;
                },
                None => {},
            }
            k = k + 1;
        }
        assert(self@.lists =~= synced_lists(v0, entries));
    }

    /// Applies `r` to the instructions of every strand.
    pub(crate) fn rewrite_strands(&mut self, r: &Rewrite)
        ensures
            final(self)@ == (MacroV { strands: rw_strands(old(self)@.strands, r@), ..old(self)@ }),
    {
        let ghost s0 = self@.strands;
        let mut k: usize = 0;
        while k < self.strands.len()
            invariant
                k <= self.strands@.len(),
                s0.len() == self.strands@.len(),
                s0 == old(self)@.strands,
                forall|j: int| 0 <= j < k ==> #[trigger] views(self.strands@)[j] == rw_strands(s0, r@)[j],
                forall|j: int| k <= j < s0.len() ==> #[trigger] views(self.strands@)[j] == s0[j],
                self@ == (MacroV { strands: self@.strands, ..old(self)@ }),
            decreases self.strands.len() - k,
        {
            assert(views(self.strands@)[k as int] == s0[k as int]);
            let st = elem_mut(&mut self.strands, k);
            rewrite_instrs(&mut st.instructions, r);
            k = k + 1;
        }
        assert(self@.strands =~= rw_strands(s0, r@));
    }

    /// Applies `r` to every floating value.
    pub(crate) fn rewrite_floating(&mut self, r: &Rewrite)
        ensures
            final(self)@ == (MacroV { floating_values: rw_floating(old(self)@.floating_values, r@), ..old(self)@ }),
    {
        let ghost f0 = self@.floating_values;
        let mut k: usize = 0;
        while k < self.floating_values.len()
            invariant
                k <= self.floating_values@.len(),
                f0.len() == self.floating_values@.len(),
                f0 == old(self)@.floating_values,
                forall|j: int| 0 <= j < k ==> #[trigger] views(self.floating_values@)[j] == rw_floating(f0, r@)[j],
                forall|j: int| k <= j < f0.len() ==> #[trigger] views(self.floating_values@)[j] == f0[j],
                self@ == (MacroV { floating_values: self@.floating_values, ..old(self)@ }),
            decreases self.floating_values.len() - k,
        {
            assert(views(self.floating_values@)[k as int] == f0[k as int]);
            let fv = elem_mut(&mut self.floating_values, k);
            fv.value.rewrite(r, false);
            k = k + 1;
        }
        assert(self@.floating_values =~= rw_floating(f0, r@));
    }

    /// Renames a declared variable and every reference to it across all
    /// strands and floating values; a no-op if `from` is not declared.
    pub fn rename_variable(&mut self, from: &str, to: &str)
        ensures
            final(self)@ == variable_renamed(old(self)@, from@, to@),
    {
        let ghost names = variable_names(self@.variables);
        let mut k: usize = 0;
        let mut found = false;
        while k < self.variables.len() && !found
            invariant
                k <= self.variables@.len(),
                names == variable_names(old(self)@.variables),
                *self == *old(self),
                forall|j: int| 0 <= j < k ==> names[j] != from@,
                found ==> k < names.len() && names[k as int] == from@,
            decreases self.variables.len() - k, if found { 0int } else { 1int },
        {
            if str_eq(&self.variables[k].name, from) {
                found = true;
            } else {
                k = k + 1;
            }
        }
        proof {
            lemma_first_index_at(names, from@, k as int);
        }
        if !found {
            return;
        }
        elem_mut(&mut self.variables, k).name = owned(to);
        let r = Rewrite::RenameVar { from: owned(from), to: owned(to) };
        self.rewrite_strands(&r);
        self.rewrite_floating(&r);
        assert(self@.variables =~= old(self)@.variables.update(k as int, VariableV { name: to@, ..old(self)@.variables[k as int] }));
    }

    /// Renames a declared list and every command and reporter reference to
    /// it; a no-op if `from` is not declared.
    pub fn rename_list(&mut self, from: &str, to: &str)
        ensures
            final(self)@ == list_renamed(old(self)@, from@, to@),
    {
        let ghost names = list_names(self@.lists);
        let mut k: usize = 0;
        let mut found = false;
        while k < self.lists.len() && !found
            invariant
                k <= self.lists@.len(),
                names == list_names(old(self)@.lists),
                *self == *old(self),
                forall|j: int| 0 <= j < k ==> names[j] != from@,
                found ==> k < names.len() && names[k as int] == from@,
            decreases self.lists.len() - k, if found { 0int } else { 1int },
        {
            if str_eq(&self.lists[k].name, from) {
                found = true;
            } else {
                k = k + 1;
            }
        }
        proof {
            lemma_first_index_at(names, from@, k as int);
        }
        if !found {
            return;
        }
        elem_mut(&mut self.lists, k).name = owned(to);
        let r = Rewrite::RenameList { from: owned(from), to: owned(to) };
        self.rewrite_strands(&r);
        self.rewrite_floating(&r);
        assert(self@.lists =~= old(self)@.lists.update(k as int, ListDefV { name: to@, ..old(self)@.lists[k as int] }));
    }
}

impl Macro {
    /// The strand freshly recorded input goes to: the explicit recording
    /// target if it still exists, else the first "When Ran" strand, else the
    /// first strand; an empty macro first gets a new empty strand.
    pub fn recording_target_mut(&mut self) -> (r: &mut Strand)
        ensures
            old(self)@.strands.len() > 0 ==> (recording_index(old(self)@) matches Some(i) && 0 <= i
                < old(self)@.strands.len() && (*r)@
                == old(self)@.strands[i] && final(self)@ == (MacroV {
                strands: old(self)@.strands.update(i, (*final(r))@),
                ..old(self)@
            })),
            old(self)@.strands.len() == 0 ==> is_simple_uuid((*r)@.id) && (*r)@.x == 0 && (*r)@.y == 0
                && (*r)@.instructions.len() == 0 && final(self)@ == (MacroV {
                strands: seq![(*final(r))@],
                ..old(self)@
            }),
    {
        match recording_position(self) {
            Some(i) => elem_mut(&mut self.strands, i),
            None => {
                self.strands.push(Strand { id: fresh_id(), x: 0, y: 0, instructions: Vec::new() });
                proof {
                    assert forall|x: StrandV| #[trigger] views(self.strands@).update(0, x) == seq![x] by {
                        assert(views(self.strands@).update(0, x) =~= seq![x]);
                    }
                }
                elem_mut(&mut self.strands, 0)
            },
        }
    }

    /// The id of the strand `recording_target_mut` resolves to, without
    /// creating one.
    pub fn recording_target_id(&self) -> (r: Option<String>)
        ensures
            match recording_index(self@) {
                Some(i) => 0 <= i < self@.strands.len() && (r matches Some(id) && id@ == self@.strands[i].id),
                None => r is None,
            },
    {
        match recording_position(self) {
            Some(i) => Some(self.strands[i].id.clone()),
            None => None,
        }
    }
}

} // verus!
