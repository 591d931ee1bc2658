//! A macro document: its strands, canvas items, variables, lists, custom
//! block definitions and settings.
use vstd::prelude::*;
use crate::seqs::views;
use crate::blocks::{BlockDef, BlockDefV};

use crate::instructions::is_header_kind;
use crate::program::{group_program_views, opt_str_view, view_instrs, Evaluated, Instruction, InstructionV, Value, ValueV};

verus! {

broadcast use group_program_views;

pub ghost enum EvaluatedV {
    Number(u64),
    Text(Seq<char>),
    Bool(bool),
}

impl View for Evaluated {
    type V = EvaluatedV;

    open spec fn view(&self) -> EvaluatedV {
        match self {
            Evaluated::Number(b) => EvaluatedV::Number(*b),
            Evaluated::Text(t) => EvaluatedV::Text(t@),
            Evaluated::Bool(b) => EvaluatedV::Bool(*b),
        }
    }
}

impl Evaluated {
    pub fn duplicate(&self) -> (r: Evaluated)
        ensures
            r@ == self@,
    {
        match self {
            Evaluated::Number(b) => Evaluated::Number(*b),
            Evaluated::Text(t) => Evaluated::Text(t.clone()),
            Evaluated::Bool(b) => Evaluated::Bool(*b),
        }
    }
}

/// The value a declared variable holds until it is first set: the number
/// zero.
pub fn default_variable_value() -> (r: Evaluated)
    ensures
        r@ == EvaluatedV::Number(0),
{
    Evaluated::Number(0)
}

/// A literal list item: a number (as `f64` bits) or a text.
#[derive(Debug)]
pub enum ListItem {
    Number(u64),
    Text(String),
}

pub ghost enum ListItemV {
    Number(u64),
    Text(Seq<char>),
}

impl View for ListItem {
    type V = ListItemV;

    open spec fn view(&self) -> ListItemV {
        match self {
            ListItem::Number(b) => ListItemV::Number(*b),
            ListItem::Text(t) => ListItemV::Text(t@),
        }
    }
}

impl ListItem {
    /// The list item a number or text evaluates to; `None` for a boolean.
    pub fn from_evaluated(value: Evaluated) -> (r: Option<ListItem>)
        ensures
            match value@ {
                EvaluatedV::Number(b) => r matches Some(i) && i@ == ListItemV::Number(b),
                EvaluatedV::Text(t) => r matches Some(i) && i@ == ListItemV::Text(t),
                EvaluatedV::Bool(_) => r is None,
            },
    {
        match value {
            Evaluated::Number(b) => Some(ListItem::Number(b)),
            Evaluated::Text(t) => Some(ListItem::Text(t)),
            Evaluated::Bool(_) => None,
        }
    }

    /// The item as an evaluated value.
    pub fn evaluated(&self) -> (r: Evaluated)
        ensures
            r@ == (match self@ {
                ListItemV::Number(b) => EvaluatedV::Number(b),
                ListItemV::Text(t) => EvaluatedV::Text(t),
            }),
    {
        match self {
            ListItem::Number(b) => Evaluated::Number(*b),
            ListItem::Text(t) => Evaluated::Text(t.clone()),
        }
    }

    pub fn duplicate(&self) -> (r: ListItem)
        ensures
            r@ == self@,
    {
        match self {
            ListItem::Number(b) => ListItem::Number(*b),
            ListItem::Text(t) => ListItem::Text(t.clone()),
        }
    }
}

/// A user-declared macro-wide variable and its current value.
#[derive(Debug)]
pub struct VariableDef {
    pub name: String,
    pub value: Evaluated,
}

pub ghost struct VariableV {
    pub name: Seq<char>,
    pub value: EvaluatedV,
}

impl View for VariableDef {
    type V = VariableV;

    open spec fn view(&self) -> VariableV {
        VariableV { name: self.name@, value: self.value@ }
    }
}

/// A named, macro-scoped list of literal items.
#[derive(Debug)]
pub struct ListDef {
    pub name: String,
    pub items: Vec<ListItem>,
    pub editor_visible: bool,
    pub editor_x: i32,
    pub editor_y: i32,
}

pub ghost struct ListDefV {
    pub name: Seq<char>,
    pub items: Seq<ListItemV>,
    pub editor_visible: bool,
    pub editor_x: i32,
    pub editor_y: i32,
}

impl View for ListDef {
    type V = ListDefV;

    open spec fn view(&self) -> ListDefV {
        ListDefV {
            name: self.name@,
            items: views(self.items@),
            editor_visible: self.editor_visible,
            editor_x: self.editor_x,
            editor_y: self.editor_y,
        }
    }
}

/// One draggable stack of instructions on the canvas.
#[derive(Debug)]
pub struct Strand {
    pub id: String,
    pub x: i32,
    pub y: i32,
    pub instructions: Vec<Instruction>,
}

pub ghost struct StrandV {
    pub id: Seq<char>,
    pub x: i32,
    pub y: i32,
    pub instructions: Seq<InstructionV>,
}

impl View for Strand {
    type V = StrandV;

    open spec fn view(&self) -> StrandV {
        StrandV { id: self.id@, x: self.x, y: self.y, instructions: view_instrs(self.instructions@) }
    }
}

/// Whether a strand's first instruction is a header block.
pub open spec fn starts_with_header(s: StrandV) -> bool {
    s.instructions.len() > 0 && is_header_kind(s.instructions[0].kind)
}

impl Strand {
    /// Whether the strand begins with an entry point: `WhenRan` or any
    /// other header block.
    pub fn starts_with_when_ran(&self) -> (r: bool)
        ensures
            r == starts_with_header(self@),
    {
        if self.instructions.len() == 0 {
            false
        } else {
            self.instructions[0].is_header()
        }
    }
}

/// A value block parked on the open canvas.
#[derive(Debug)]
pub struct FloatingValue {
    pub id: String,
    pub x: i32,
    pub y: i32,
    pub value: Value,
    /// The custom block whose header a `Param` reporter was dragged from.
    pub origin_block_id: Option<String>,
}

pub ghost struct FloatingV {
    pub id: Seq<char>,
    pub x: i32,
    pub y: i32,
    pub value: ValueV,
    pub origin_block_id: Option<Seq<char>>,
}

impl View for FloatingValue {
    type V = FloatingV;

    open spec fn view(&self) -> FloatingV {
        FloatingV {
            id: self.id@,
            x: self.x,
            y: self.y,
            value: self.value@,
            origin_block_id: opt_str_view(self.origin_block_id),
        }
    }
}

/// A canvas note, freestanding or attached to an instruction.
#[derive(Debug)]
pub struct Comment {
    pub id: String,
    pub x: i32,
    pub y: i32,
    pub text: String,
    pub collapsed: bool,
    pub attached_to: Option<String>,
}

pub ghost struct CommentV {
    pub id: Seq<char>,
    pub x: i32,
    pub y: i32,
    pub text: Seq<char>,
    pub collapsed: bool,
    pub attached_to: Option<Seq<char>>,
}

impl View for Comment {
    type V = CommentV;

    open spec fn view(&self) -> CommentV {
        CommentV {
            id: self.id@,
            x: self.x,
            y: self.y,
            text: self.text@,
            collapsed: self.collapsed,
            attached_to: opt_str_view(self.attached_to),
        }
    }
}

/// Per-macro settings.
#[derive(Clone, Copy, Debug, PartialEq, Eq, Hash, Structural)]
pub struct MacroSettings {
    /// Watch this macro's event strands even while another macro is
    /// selected.
    pub always_listen: bool,
}

impl Default for MacroSettings {
    fn default() -> (r: Self)
        ensures
            r == (MacroSettings { always_listen: false }),
    {
        MacroSettings { always_listen: false }
    }
}

/// A whole macro. `speed_multiplier_bits` holds the playback speed as the
/// bit pattern of an `f64`.
#[derive(Debug)]
pub struct Macro {
    pub id: String,
    pub name: String,
    pub description: String,
    pub strands: Vec<Strand>,
    pub recording_target: Option<String>,
    pub speed_multiplier_bits: u64,
    pub floating_values: Vec<FloatingValue>,
    pub comments: Vec<Comment>,
    pub variables: Vec<VariableDef>,
    pub lists: Vec<ListDef>,
    pub block_defs: Vec<BlockDef>,
    pub settings: MacroSettings,
}

pub ghost struct MacroV {
    pub id: Seq<char>,
    pub name: Seq<char>,
    pub description: Seq<char>,
    pub strands: Seq<StrandV>,
    pub recording_target: Option<Seq<char>>,
    pub speed_multiplier_bits: u64,
    pub floating_values: Seq<FloatingV>,
    pub comments: Seq<CommentV>,
    pub variables: Seq<VariableV>,
    pub lists: Seq<ListDefV>,
    pub block_defs: Seq<BlockDefV>,
    pub settings: MacroSettings,
}

impl View for Macro {
    type V = MacroV;

    open spec fn view(&self) -> MacroV {
        MacroV {
            id: self.id@,
            name: self.name@,
            description: self.description@,
            strands: views(self.strands@),
            recording_target: opt_str_view(self.recording_target),
            speed_multiplier_bits: self.speed_multiplier_bits,
            floating_values: views(self.floating_values@),
            comments: views(self.comments@),
            variables: views(self.variables@),
            lists: views(self.lists@),
            block_defs: views(self.block_defs@),
            settings: self.settings,
        }
    }
}

/// `1.0f64.to_bits()`: the default playback speed.
pub const DEFAULT_SPEED_MULTIPLIER_BITS: u64 = 0x3FF0_0000_0000_0000u64;

/// The ids of a sequence of strands, comments, ….
pub open spec fn strand_ids(s: Seq<StrandV>) -> Seq<Seq<char>> {
    Seq::new(s.len(), |i: int| s[i].id)
}

/// The first position of `id` in `ids`.
pub open spec fn first_index_of(ids: Seq<Seq<char>>, id: Seq<char>) -> Option<int>
    decreases ids.len(),
{
    if ids.len() == 0 {
        None
    } else if ids[0] == id {
        Some(0)
    } else {
        match first_index_of(ids.drop_first(), id) {
            Some(i) => Some(i + 1),
            None => None,
        }
    }
}

pub proof fn lemma_first_index_of(ids: Seq<Seq<char>>, id: Seq<char>)
    ensures
        match first_index_of(ids, id) {
            Some(i) => 0 <= i < ids.len() && ids[i] == id && forall|j: int| 0 <= j < i ==> ids[j] != id,
            None => forall|j: int| 0 <= j < ids.len() ==> ids[j] != id,
        },
    decreases ids.len(),
{
    if ids.len() > 0 && ids[0] != id {
        lemma_first_index_of(ids.drop_first(), id);
        match first_index_of(ids.drop_first(), id) {
            Some(i) => {
                assert forall|j: int| 0 <= j < i + 1 implies ids[j] != id by {
                    if j > 0 {
                        assert(ids[j] == ids.drop_first()[j - 1]);
                    }
                }
            },
            None => {
                assert forall|j: int| 0 <= j < ids.len() implies ids[j] != id by {
                    if j > 0 {
                        assert(ids[j] == ids.drop_first()[j - 1]);
                    }
                }
            },
        }
    }
}

pub proof fn lemma_first_index_at(ids: Seq<Seq<char>>, id: Seq<char>, k: int)
    requires
        0 <= k <= ids.len(),
        forall|j: int| 0 <= j < k ==> ids[j] != id,
    ensures
        k < ids.len() && ids[k] == id ==> first_index_of(ids, id) == Some(k),
        k == ids.len() ==> first_index_of(ids, id) is None,
{
    lemma_first_index_of(ids, id);
}

} // verus!
