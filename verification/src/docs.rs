//! Copies and equality of the parts of a macro document. Equality follows
//! that of instructions: the ids of instructions are disregarded, and
//! numbers compare as `f64` numbers do (a zero equals its negative, a NaN
//! equals nothing).
use vstd::prelude::*;
use crate::blocks::{BlockDef, BlockDefV, BlockPiece};
use crate::copy::duplicate_instrs;
use crate::equality::{instrs_eq, number_eq, same_instrs, same_number, same_value, value_eq};
use crate::macros::{
    Comment, CommentV, EvaluatedV, FloatingV, FloatingValue, ListDef, ListDefV, ListItem, ListItemV, Macro, MacroV,
    Strand, StrandV, VariableDef, VariableV,
};
use crate::program::{opt_str_view, Evaluated};
use crate::seqs::views;

verus! {

/// `a` and `b` have the same length and agree pairwise under `f`.
pub open spec fn pairwise<A>(a: Seq<A>, b: Seq<A>, f: spec_fn(A, A) -> bool) -> bool {
    a.len() == b.len() && forall|i: int| 0 <= i < a.len() ==> f(#[trigger] a[i], b[i])
}

pub open spec fn same_evaluated(a: EvaluatedV, b: EvaluatedV) -> bool {
    match (a, b) {
        (EvaluatedV::Number(x), EvaluatedV::Number(y)) => number_eq(x, y),
        (EvaluatedV::Text(x), EvaluatedV::Text(y)) => x == y,
        (EvaluatedV::Bool(x), EvaluatedV::Bool(y)) => x == y,
        _ => false,
    }
}

pub open spec fn same_item(a: ListItemV, b: ListItemV) -> bool {
    match (a, b) {
        (ListItemV::Number(x), ListItemV::Number(y)) => number_eq(x, y),
        (ListItemV::Text(x), ListItemV::Text(y)) => x == y,
        _ => false,
    }
}

pub open spec fn same_variable(a: VariableV, b: VariableV) -> bool {
    a.name == b.name && same_evaluated(a.value, b.value)
}

pub open spec fn same_list(a: ListDefV, b: ListDefV) -> bool {
    &&& a.name == b.name
    &&& pairwise(a.items, b.items, |x: ListItemV, y: ListItemV| same_item(x, y))
    &&& a.editor_visible == b.editor_visible
    &&& a.editor_x == b.editor_x
    &&& a.editor_y == b.editor_y
}

pub open spec fn same_strand(a: StrandV, b: StrandV) -> bool {
    a.id == b.id && a.x == b.x && a.y == b.y && instrs_eq(a.instructions, b.instructions)
}

pub open spec fn same_floating(a: FloatingV, b: FloatingV) -> bool {
    &&& a.id == b.id
    &&& a.x == b.x
    &&& a.y == b.y
    &&& value_eq(a.value, b.value)
    &&& a.origin_block_id == b.origin_block_id
}

pub open spec fn same_macro(a: MacroV, b: MacroV) -> bool {
    &&& a.id == b.id
    &&& a.name == b.name
    &&& a.description == b.description
    &&& pairwise(a.strands, b.strands, |x: StrandV, y: StrandV| same_strand(x, y))
    &&& a.recording_target == b.recording_target
    &&& number_eq(a.speed_multiplier_bits, b.speed_multiplier_bits)
    &&& pairwise(a.floating_values, b.floating_values, |x: FloatingV, y: FloatingV| same_floating(x, y))
    &&& a.comments == b.comments
    &&& pairwise(a.variables, b.variables, |x: VariableV, y: VariableV| same_variable(x, y))
    &&& pairwise(a.lists, b.lists, |x: ListDefV, y: ListDefV| same_list(x, y))
    &&& a.block_defs == b.block_defs
    &&& a.settings == b.settings
}

fn same_opt(a: &Option<String>, b: &Option<String>) -> (r: bool)
    ensures
        r == (opt_str_view(*a) == opt_str_view(*b)),
{
    match (a, b) {
        (Some(x), Some(y)) => *x == *y,
        (None, None) => true,
        _ => false,
    }
}

fn copy_opt(a: &Option<String>) -> (r: Option<String>)
    ensures
        opt_str_view(r) == opt_str_view(*a),
{
    match a {
        Some(x) => Some(x.clone()),
        None => None,
    }
}

// ---------------------------------------------------------------------
// Evaluated values and list items
// ---------------------------------------------------------------------

impl PartialEq for Evaluated {
    fn eq(&self, other: &Self) -> (r: bool) {
        match (self, other) {
            (Evaluated::Number(x), Evaluated::Number(y)) => same_number(*x, *y),
            (Evaluated::Text(x), Evaluated::Text(y)) => *x == *y,
            (Evaluated::Bool(x), Evaluated::Bool(y)) => *x == *y,
            _ => false,
        }
    }
}

impl vstd::std_specs::cmp::PartialEqSpecImpl for Evaluated {
    open spec fn obeys_eq_spec() -> bool {
        true
    }

    open spec fn eq_spec(&self, other: &Self) -> bool {
        same_evaluated(self@, other@)
    }
}

impl Clone for Evaluated {
    fn clone(&self) -> (r: Self)
        ensures
            r@ == self@,
    {
        self.duplicate()
    }
}

impl PartialEq for ListItem {
    fn eq(&self, other: &Self) -> (r: bool) {
        match (self, other) {
            (ListItem::Number(x), ListItem::Number(y)) => same_number(*x, *y),
            (ListItem::Text(x), ListItem::Text(y)) => *x == *y,
            _ => false,
        }
    }
}

impl vstd::std_specs::cmp::PartialEqSpecImpl for ListItem {
    open spec fn obeys_eq_spec() -> bool {
        true
    }

    open spec fn eq_spec(&self, other: &Self) -> bool {
        same_item(self@, other@)
    }
}

impl Clone for ListItem {
    fn clone(&self) -> (r: Self)
        ensures
            r@ == self@,
    {
        self.duplicate()
    }
}

// ---------------------------------------------------------------------
// Variables and lists
// ---------------------------------------------------------------------

fn same_variable_exec(a: &VariableDef, b: &VariableDef) -> (r: bool)
    ensures
        r == same_variable(a@, b@),
{
    a.name == b.name && a.value.eq(&b.value)
}

impl PartialEq for VariableDef {
    fn eq(&self, other: &Self) -> (r: bool) {
        same_variable_exec(self, other)
    }
}

impl vstd::std_specs::cmp::PartialEqSpecImpl for VariableDef {
    open spec fn obeys_eq_spec() -> bool {
        true
    }

    open spec fn eq_spec(&self, other: &Self) -> bool {
        same_variable(self@, other@)
    }
}

impl Clone for VariableDef {
    fn clone(&self) -> (r: Self)
        ensures
            r@ == self@,
    {
        VariableDef { name: self.name.clone(), value: self.value.duplicate() }
    }
}

pub(crate) fn copy_items(items: &Vec<ListItem>) -> (r: Vec<ListItem>)
    ensures
        views(r@) == views(items@),
{
    let mut out: Vec<ListItem> = Vec::new();
    let mut i: usize = 0;
    while i < items.len()
        invariant
            i <= items@.len(),
            out@.len() == i,
            forall|j: int| 0 <= j < i ==> #[trigger] out@[j]@ == items@[j]@,
        decreases items.len() - i,
    {
        out.push(items[i].duplicate());
        i = i + 1;
    }
    assert(views(out@) =~= views(items@));
    out
}

fn same_list_exec(a: &ListDef, b: &ListDef) -> (r: bool)
    ensures
        r == same_list(a@, b@),
{
    if !(a.name == b.name && a.editor_visible == b.editor_visible && a.editor_x == b.editor_x
        && a.editor_y == b.editor_y) {
        return false;
    }
    if a.items.len() != b.items.len() {
        return false;
    }
    let mut i: usize = 0;
    while i < a.items.len()
        invariant
            i <= a.items@.len(),
            a.items@.len() == b.items@.len(),
            forall|j: int| 0 <= j < i ==> same_item(#[trigger] views(a.items@)[j], views(b.items@)[j]),
        decreases a.items.len() - i,
    {
        if !a.items[i].eq(&b.items[i]) {
            assert(!same_item(views(a.items@)[i as int], views(b.items@)[i as int]));
            return false;
        }
        i = i + 1;
    }
    true
}

impl PartialEq for ListDef {
    fn eq(&self, other: &Self) -> (r: bool) {
        same_list_exec(self, other)
    }
}

impl vstd::std_specs::cmp::PartialEqSpecImpl for ListDef {
    open spec fn obeys_eq_spec() -> bool {
        true
    }

    open spec fn eq_spec(&self, other: &Self) -> bool {
        same_list(self@, other@)
    }
}

impl Clone for ListDef {
    fn clone(&self) -> (r: Self)
        ensures
            r@ == self@,
    {
        ListDef {
            name: self.name.clone(),
            items: copy_items(&self.items),
            editor_visible: self.editor_visible,
            editor_x: self.editor_x,
            editor_y: self.editor_y,
        }
    }
}

// ---------------------------------------------------------------------
// Strands, floating values and comments
// ---------------------------------------------------------------------

fn same_strand_exec(a: &Strand, b: &Strand) -> (r: bool)
    ensures
        r == same_strand(a@, b@),
{
    a.id == b.id && a.x == b.x && a.y == b.y && same_instrs(&a.instructions, &b.instructions)
}

impl PartialEq for Strand {
    fn eq(&self, other: &Self) -> (r: bool) {
        same_strand_exec(self, other)
    }
}

impl vstd::std_specs::cmp::PartialEqSpecImpl for Strand {
    open spec fn obeys_eq_spec() -> bool {
        true
    }

    open spec fn eq_spec(&self, other: &Self) -> bool {
        same_strand(self@, other@)
    }
}

impl Clone for Strand {
    fn clone(&self) -> (r: Self)
        ensures
            r@ == self@,
    {
        Strand { id: self.id.clone(), x: self.x, y: self.y, instructions: duplicate_instrs(&self.instructions) }
    }
}

fn same_floating_exec(a: &FloatingValue, b: &FloatingValue) -> (r: bool)
    ensures
        r == same_floating(a@, b@),
{
    a.id == b.id && a.x == b.x && a.y == b.y && same_value(&a.value, &b.value) && same_opt(
        &a.origin_block_id,
        &b.origin_block_id,
    )
}

impl PartialEq for FloatingValue {
    fn eq(&self, other: &Self) -> (r: bool) {
        same_floating_exec(self, other)
    }
}

impl vstd::std_specs::cmp::PartialEqSpecImpl for FloatingValue {
    open spec fn obeys_eq_spec() -> bool {
        true
    }

    open spec fn eq_spec(&self, other: &Self) -> bool {
        same_floating(self@, other@)
    }
}

impl Clone for FloatingValue {
    fn clone(&self) -> (r: Self)
        ensures
            r@ == self@,
    {
        FloatingValue {
            id: self.id.clone(),
            x: self.x,
            y: self.y,
            value: self.value.duplicate(),
            origin_block_id: copy_opt(&self.origin_block_id),
        }
    }
}

fn same_comment(a: &Comment, b: &Comment) -> (r: bool)
    ensures
        r == (a@ == b@),
{
    a.id == b.id && a.x == b.x && a.y == b.y && a.text == b.text && a.collapsed == b.collapsed && same_opt(
        &a.attached_to,
        &b.attached_to,
    )
}

impl PartialEq for Comment {
    fn eq(&self, other: &Self) -> (r: bool) {
        same_comment(self, other)
    }
}

impl vstd::std_specs::cmp::PartialEqSpecImpl for Comment {
    open spec fn obeys_eq_spec() -> bool {
        true
    }

    open spec fn eq_spec(&self, other: &Self) -> bool {
        self@ == other@
    }
}

impl Clone for Comment {
    fn clone(&self) -> (r: Self)
        ensures
            r@ == self@,
    {
        Comment {
            id: self.id.clone(),
            x: self.x,
            y: self.y,
            text: self.text.clone(),
            collapsed: self.collapsed,
            attached_to: copy_opt(&self.attached_to),
        }
    }
}

// ---------------------------------------------------------------------
// Block definitions
// ---------------------------------------------------------------------

fn same_piece(a: &BlockPiece, b: &BlockPiece) -> (r: bool)
    ensures
        r == (a@ == b@),
{
    match (a, b) {
        (BlockPiece::Label { id: i1, text: t1 }, BlockPiece::Label { id: i2, text: t2 }) => *i1 == *i2 && *t1 == *t2,
        (
            BlockPiece::Input { id: i1, name: n1, value_type: v1 },
            BlockPiece::Input { id: i2, name: n2, value_type: v2 },
        ) => *i1 == *i2 && *n1 == *n2 && *v1 == *v2,
        (BlockPiece::Branch { id: i1, name: n1 }, BlockPiece::Branch { id: i2, name: n2 }) => *i1 == *i2 && *n1
            == *n2,
        _ => false,
    }
}

impl PartialEq for BlockPiece {
    fn eq(&self, other: &Self) -> (r: bool) {
        same_piece(self, other)
    }
}

impl vstd::std_specs::cmp::PartialEqSpecImpl for BlockPiece {
    open spec fn obeys_eq_spec() -> bool {
        true
    }

    open spec fn eq_spec(&self, other: &Self) -> bool {
        self@ == other@
    }
}

impl Clone for BlockPiece {
    fn clone(&self) -> (r: Self)
        ensures
            r@ == self@,
    {
        self.duplicate()
    }
}

fn same_block_def(a: &BlockDef, b: &BlockDef) -> (r: bool)
    ensures
        r == (a@ == b@),
{
    if !(a.id == b.id && a.shape == b.shape && a.color == b.color) {
        return false;
    }
    if a.pieces.len() != b.pieces.len() {
        assert(views(a.pieces@).len() != views(b.pieces@).len());
        return false;
    }
    let mut i: usize = 0;
    while i < a.pieces.len()
        invariant
            i <= a.pieces@.len(),
            a.pieces@.len() == b.pieces@.len(),
            forall|j: int| 0 <= j < i ==> #[trigger] views(a.pieces@)[j] == views(b.pieces@)[j],
        decreases a.pieces.len() - i,
    {
        if !same_piece(&a.pieces[i], &b.pieces[i]) {
            assert(views(a.pieces@)[i as int] != views(b.pieces@)[i as int]);
            return false;
        }
        i = i + 1;
    }
    assert(views(a.pieces@) =~= views(b.pieces@));
    true
}

impl PartialEq for BlockDef {
    fn eq(&self, other: &Self) -> (r: bool) {
        same_block_def(self, other)
    }
}

impl vstd::std_specs::cmp::PartialEqSpecImpl for BlockDef {
    open spec fn obeys_eq_spec() -> bool {
        true
    }

    open spec fn eq_spec(&self, other: &Self) -> bool {
        self@ == other@
    }
}

fn copy_pieces(v: &Vec<BlockPiece>) -> (r: Vec<BlockPiece>)
    ensures
        views(r@) == views(v@),
{
    let mut out: Vec<BlockPiece> = Vec::new();
    let mut i: usize = 0;
    while i < v.len()
        invariant
            i <= v@.len(),
            out@.len() == i,
            forall|j: int| 0 <= j < i ==> #[trigger] out@[j]@ == v@[j]@,
        decreases v.len() - i,
    {
        out.push(v[i].duplicate());
        i = i + 1;
    }
    assert(views(out@) =~= views(v@));
    out
}

impl Clone for BlockDef {
    fn clone(&self) -> (r: Self)
        ensures
            r@ == self@,
    {
        BlockDef {
            id: self.id.clone(),
            pieces: copy_pieces(&self.pieces),
            shape: self.shape,
            color: self.color.clone(),
        }
    }
}

// ---------------------------------------------------------------------
// Whole macros
// ---------------------------------------------------------------------

fn same_strands(a: &Vec<Strand>, b: &Vec<Strand>) -> (r: bool)
    ensures
        r == pairwise(views(a@), views(b@), |x: StrandV, y: StrandV| same_strand(x, y)),
{
    if a.len() != b.len() {
        return false;
    }
    let mut i: usize = 0;
    while i < a.len()
        invariant
            i <= a@.len(),
            a@.len() == b@.len(),
            forall|j: int| 0 <= j < i ==> same_strand(#[trigger] views(a@)[j], views(b@)[j]),
        decreases a.len() - i,
    {
        if !same_strand_exec(&a[i], &b[i]) {
            assert(!same_strand(views(a@)[i as int], views(b@)[i as int]));
            return false;
        }
        i = i + 1;
    }
    true
}

fn same_floatings(a: &Vec<FloatingValue>, b: &Vec<FloatingValue>) -> (r: bool)
    ensures
        r == pairwise(views(a@), views(b@), |x: FloatingV, y: FloatingV| same_floating(x, y)),
{
    if a.len() != b.len() {
        return false;
    }
    let mut i: usize = 0;
    while i < a.len()
        invariant
            i <= a@.len(),
            a@.len() == b@.len(),
            forall|j: int| 0 <= j < i ==> same_floating(#[trigger] views(a@)[j], views(b@)[j]),
        decreases a.len() - i,
    {
        if !same_floating_exec(&a[i], &b[i]) {
            assert(!same_floating(views(a@)[i as int], views(b@)[i as int]));
            return false;
        }
        i = i + 1;
    }
    true
}

fn same_comments(a: &Vec<Comment>, b: &Vec<Comment>) -> (r: bool)
    ensures
        r == (views(a@) == views(b@)),
{
    if a.len() != b.len() {
        assert(views(a@).len() != views(b@).len());
        return false;
    }
    let mut i: usize = 0;
    while i < a.len()
        invariant
            i <= a@.len(),
            a@.len() == b@.len(),
            forall|j: int| 0 <= j < i ==> #[trigger] views(a@)[j] == views(b@)[j],
        decreases a.len() - i,
    {
        if !same_comment(&a[i], &b[i]) {
            assert(views(a@)[i as int] != views(b@)[i as int]);
            return false;
        }
        i = i + 1;
    }
    assert(views(a@) =~= views(b@));
    true
}

fn same_variables(a: &Vec<VariableDef>, b: &Vec<VariableDef>) -> (r: bool)
    ensures
        r == pairwise(views(a@), views(b@), |x: VariableV, y: VariableV| same_variable(x, y)),
{
    if a.len() != b.len() {
        return false;
    }
    let mut i: usize = 0;
    while i < a.len()
        invariant
            i <= a@.len(),
            a@.len() == b@.len(),
            forall|j: int| 0 <= j < i ==> same_variable(#[trigger] views(a@)[j], views(b@)[j]),
        decreases a.len() - i,
    {
        if !same_variable_exec(&a[i], &b[i]) {
            assert(!same_variable(views(a@)[i as int], views(b@)[i as int]));
            return false;
        }
        i = i + 1;
    }
    true
}

fn same_lists(a: &Vec<ListDef>, b: &Vec<ListDef>) -> (r: bool)
    ensures
        r == pairwise(views(a@), views(b@), |x: ListDefV, y: ListDefV| same_list(x, y)),
{
    if a.len() != b.len() {
        return false;
    }
    let mut i: usize = 0;
    while i < a.len()
        invariant
            i <= a@.len(),
            a@.len() == b@.len(),
            forall|j: int| 0 <= j < i ==> same_list(#[trigger] views(a@)[j], views(b@)[j]),
        decreases a.len() - i,
    {
        if !same_list_exec(&a[i], &b[i]) {
            assert(!same_list(views(a@)[i as int], views(b@)[i as int]));
            return false;
        }
        i = i + 1;
    }
    true
}

fn same_block_defs(a: &Vec<BlockDef>, b: &Vec<BlockDef>) -> (r: bool)
    ensures
        r == (views(a@) == views(b@)),
{
    if a.len() != b.len() {
        assert(views(a@).len() != views(b@).len());
        return false;
    }
    let mut i: usize = 0;
    while i < a.len()
        invariant
            i <= a@.len(),
            a@.len() == b@.len(),
            forall|j: int| 0 <= j < i ==> #[trigger] views(a@)[j] == views(b@)[j],
        decreases a.len() - i,
    {
        if !same_block_def(&a[i], &b[i]) {
            assert(views(a@)[i as int] != views(b@)[i as int]);
            return false;
        }
        i = i + 1;
    }
    assert(views(a@) =~= views(b@));
    true
}

fn same_macro_exec(a: &Macro, b: &Macro) -> (r: bool)
    ensures
        r == same_macro(a@, b@),
{
    a.id == b.id && a.name == b.name && a.description == b.description && same_strands(&a.strands, &b.strands)
        && same_opt(&a.recording_target, &b.recording_target) && same_number(
        a.speed_multiplier_bits,
        b.speed_multiplier_bits,
    ) && same_floatings(&a.floating_values, &b.floating_values) && same_comments(&a.comments, &b.comments)
        && same_variables(&a.variables, &b.variables) && same_lists(&a.lists, &b.lists) && same_block_defs(
        &a.block_defs,
        &b.block_defs,
    ) && a.settings == b.settings
}

impl PartialEq for Macro {
    fn eq(&self, other: &Self) -> (r: bool) {
        same_macro_exec(self, other)
    }
}

impl vstd::std_specs::cmp::PartialEqSpecImpl for Macro {
    open spec fn obeys_eq_spec() -> bool {
        true
    }

    open spec fn eq_spec(&self, other: &Self) -> bool {
        same_macro(self@, other@)
    }
}

/// Copies that keep the view.
pub trait Duplicate: View + Sized {
    fn duplicated(&self) -> (r: Self)
        ensures
            r@ == self@,
    ;
}

impl Duplicate for Strand {
    fn duplicated(&self) -> (r: Self) {
        self.clone()
    }
}

impl Duplicate for FloatingValue {
    fn duplicated(&self) -> (r: Self) {
        self.clone()
    }
}

impl Duplicate for Comment {
    fn duplicated(&self) -> (r: Self) {
        self.clone()
    }
}

impl Duplicate for VariableDef {
    fn duplicated(&self) -> (r: Self) {
        self.clone()
    }
}

impl Duplicate for ListDef {
    fn duplicated(&self) -> (r: Self) {
        self.clone()
    }
}

impl Duplicate for BlockDef {
    fn duplicated(&self) -> (r: Self) {
        self.clone()
    }
}

fn copy_all<T: Duplicate>(v: &Vec<T>) -> (r: Vec<T>)
    ensures
        views(r@) == views(v@),
{
    let mut out: Vec<T> = Vec::new();
    let mut i: usize = 0;
    while i < v.len()
        invariant
            i <= v@.len(),
            out@.len() == i,
            forall|j: int| 0 <= j < i ==> #[trigger] out@[j]@ == v@[j]@,
        decreases v.len() - i,
    {
        out.push(v[i].duplicated());
        i = i + 1;
    }
    assert(views(out@) =~= views(v@));
    out
}

impl Clone for Macro {
    fn clone(&self) -> (r: Self)
        ensures
            r@ == self@,
    {
        Macro {
            id: self.id.clone(),
            name: self.name.clone(),
            description: self.description.clone(),
            strands: copy_all(&self.strands),
            recording_target: copy_opt(&self.recording_target),
            speed_multiplier_bits: self.speed_multiplier_bits,
            floating_values: copy_all(&self.floating_values),
            comments: copy_all(&self.comments),
            variables: copy_all(&self.variables),
            lists: copy_all(&self.lists),
            block_defs: copy_all(&self.block_defs),
            settings: self.settings,
        }
    }
}

} // verus!
