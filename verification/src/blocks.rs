//! Custom block definitions ("My Blocks"): their prototype pieces, shapes
//! and accent colours.
use vstd::prelude::*;
use crate::seqs::views;
use vstd::string::StrSliceExecFns;
use crate::text::{ascii_uppercase, ascii_uppercased, is_ascii_hexdigit, owned, trim_str, trimmed};

verus! {

/// What kind of value an input slot expects.
#[derive(Clone, Copy, Debug, PartialEq, Eq, Hash, Structural)]
pub enum InputValueType {
    Any,
    Bool,
}

impl Default for InputValueType {
    fn default() -> (r: Self)
        ensures
            r == InputValueType::Any,
    {
        InputValueType::Any
    }
}

/// One piece of a custom block's prototype, in declaration order.
#[derive(Debug)]
pub enum BlockPiece {
    Label { id: String, text: String },
    Input { id: String, name: String, value_type: InputValueType },
    /// A stack-shaped callback supplied at the block's call site.
    Branch { id: String, name: String },
}

pub ghost enum PieceV {
    Label { id: Seq<char>, text: Seq<char> },
    Input { id: Seq<char>, name: Seq<char>, value_type: InputValueType },
    Branch { id: Seq<char>, name: Seq<char> },
}

impl View for BlockPiece {
    type V = PieceV;

    open spec fn view(&self) -> PieceV {
        match self {
            BlockPiece::Label { id, text } => PieceV::Label { id: id@, text: text@ },
            BlockPiece::Input { id, name, value_type } => PieceV::Input { id: id@, name: name@, value_type: *value_type },
            BlockPiece::Branch { id, name } => PieceV::Branch { id: id@, name: name@ },
        }
    }
}

impl PieceV {
    pub open spec fn id(self) -> Seq<char> {
        match self {
            PieceV::Label { id, .. } => id,
            PieceV::Input { id, .. } => id,
            PieceV::Branch { id, .. } => id,
        }
    }
}

impl BlockPiece {
    /// The piece's stable identifier, whatever its kind.
    pub fn id(&self) -> (r: &str)
        ensures
            r@ == self@.id(),
    {
        match self {
            BlockPiece::Label { id, .. } => id.as_str(),
            BlockPiece::Input { id, .. } => id.as_str(),
            BlockPiece::Branch { id, .. } => id.as_str(),
        }
    }

    pub fn duplicate(&self) -> (r: BlockPiece)
        ensures
            r@ == self@,
    {
        match self {
            BlockPiece::Label { id, text } => BlockPiece::Label { id: id.clone(), text: text.clone() },
            BlockPiece::Input { id, name, value_type } => BlockPiece::Input {
                id: id.clone(),
                name: name.clone(),
                value_type: *value_type,
            },
            BlockPiece::Branch { id, name } => BlockPiece::Branch { id: id.clone(), name: name.clone() },
        }
    }
}

/// What a custom block's call site looks like.
#[derive(Clone, Copy, Debug, PartialEq, Eq, Hash, Structural)]
pub enum BlockShape {
    Normal,
    Ending,
    ReturnsValue,
    ReturnsBool,
}

impl Default for BlockShape {
    fn default() -> (r: Self)
        ensures
            r == BlockShape::Normal,
    {
        BlockShape::Normal
    }
}

impl BlockShape {
    /// True for either reporter shape.
    pub fn returns_value(self) -> (r: bool)
        ensures
            r == (self == BlockShape::ReturnsValue || self == BlockShape::ReturnsBool),
    {
        match self {
            BlockShape::ReturnsValue | BlockShape::ReturnsBool => true,
            _ => false,
        }
    }

    /// True only for the no-bottom-notch command shape.
    pub fn is_ending(self) -> (r: bool)
        ensures
            r == (self == BlockShape::Ending),
    {
        match self {
            BlockShape::Ending => true,
            _ => false,
        }
    }

    /// The shape an old save's `returns_value: bool` field stands for.
    pub fn from_legacy_flag(returns_value: bool) -> (r: BlockShape)
        ensures
            r == (if returns_value { BlockShape::ReturnsValue } else { BlockShape::Normal }),
    {
        if returns_value {
            BlockShape::ReturnsValue
        } else {
            BlockShape::Normal
        }
    }

    /// The shape named by the current `shape` field, `None` for an unknown
    /// name.
    pub fn from_name(name: &str) -> (r: Option<BlockShape>)
        ensures
            r == shape_named(name@),
    {
        let s = owned(name);
        proof {
            reveal_strlit("Normal");
            reveal_strlit("Ending");
            reveal_strlit("ReturnsValue");
            reveal_strlit("ReturnsBool");
            assert("Normal"@ =~= seq!['N', 'o', 'r', 'm', 'a', 'l']);
            assert("Ending"@ =~= seq!['E', 'n', 'd', 'i', 'n', 'g']);
            assert("ReturnsValue"@ =~= seq!['R', 'e', 't', 'u', 'r', 'n', 's', 'V', 'a', 'l', 'u', 'e']);
            assert("ReturnsBool"@ =~= seq!['R', 'e', 't', 'u', 'r', 'n', 's', 'B', 'o', 'o', 'l']);
        }
        if s == owned("Normal") {
            Some(BlockShape::Normal)
        } else if s == owned("Ending") {
            Some(BlockShape::Ending)
        } else if s == owned("ReturnsValue") {
            Some(BlockShape::ReturnsValue)
        } else if s == owned("ReturnsBool") {
            Some(BlockShape::ReturnsBool)
        } else {
            None
        }
    }
}

pub open spec fn shape_named(name: Seq<char>) -> Option<BlockShape> {
    if name == seq!['N', 'o', 'r', 'm', 'a', 'l'] {
        Some(BlockShape::Normal)
    } else if name == seq!['E', 'n', 'd', 'i', 'n', 'g'] {
        Some(BlockShape::Ending)
    } else if name == seq!['R', 'e', 't', 'u', 'r', 'n', 's', 'V', 'a', 'l', 'u', 'e'] {
        Some(BlockShape::ReturnsValue)
    } else if name == seq!['R', 'e', 't', 'u', 'r', 'n', 's', 'B', 'o', 'o', 'l'] {
        Some(BlockShape::ReturnsBool)
    } else {
        None
    }
}

/// A user-defined custom block: its prototype; the body lives in a strand
/// headed by `BlockHeader(id)`.
#[derive(Debug)]
pub struct BlockDef {
    pub id: String,
    pub pieces: Vec<BlockPiece>,
    pub shape: BlockShape,
    pub color: String,
}

pub ghost struct BlockDefV {
    pub id: Seq<char>,
    pub pieces: Seq<PieceV>,
    pub shape: BlockShape,
    pub color: Seq<char>,
}

impl View for BlockDef {
    type V = BlockDefV;

    open spec fn view(&self) -> BlockDefV {
        BlockDefV { id: self.id@, pieces: views(self.pieces@), shape: self.shape, color: self.color@ }
    }
}

/// The characters of the default accent, `#4C97FF`.
pub open spec fn default_color() -> Seq<char> {
    seq!['#', '4', 'C', '9', '7', 'F', 'F']
}

/// The legacy/default custom-block accent.
pub fn default_block_color() -> (r: String)
    ensures
        r@ == default_color(),
{
    proof {
        reveal_strlit("#4C97FF");
    }
    owned("#4C97FF")
}

/// Whether `s` is a `#RRGGBB` colour: `#` and six ASCII hex digits.
pub open spec fn is_hex_color(s: Seq<char>) -> bool {
    &&& s.len() == 7
    &&& s[0] == '#'
    &&& forall|i: int| 1 <= i < 7 ==> is_ascii_hexdigit(#[trigger] s[i])
}

/// What `normalize_block_color` returns for the characters `c`.
pub open spec fn normalized_color(c: Seq<char>) -> Option<Seq<char>> {
    if is_hex_color(trimmed(c)) {
        Some(ascii_uppercased(trimmed(c)))
    } else {
        None
    }
}

fn is_hexdigit(c: char) -> (r: bool)
    ensures
        r == is_ascii_hexdigit(c),
{
    ('0' <= c && c <= '9') || ('a' <= c && c <= 'f') || ('A' <= c && c <= 'F')
}

/// Canonicalizes a block accent: the trimmed `#RRGGBB` upper-cased, or
/// `None` when the value is no such colour.
pub fn normalize_block_color(color: &str) -> (r: Option<String>)
    ensures
        r matches Some(s) ==> normalized_color(color@) == Some(s@),
        r is None <==> normalized_color(color@) is None,
{
    let t = trim_str(color);
    let n = t.unicode_len();
    if n != 7 {
        return None;
    }
    if t.get_char(0) != '#' {
        return None;
    }
    let mut i: usize = 1;
    while i < 7
        invariant
            1 <= i <= 7,
            t@ == trimmed(color@),
            t@.len() == 7,
            forall|j: int| 1 <= j < i ==> is_ascii_hexdigit(#[trigger] t@[j]),
        decreases 7 - i,
    {
        if !is_hexdigit(t.get_char(i)) {
            return None;
        }
        i = i + 1;
    }
    Some(ascii_uppercase(t))
}

impl BlockDef {
    /// Declared input names, in prototype order.
    pub fn input_names(&self) -> (r: Vec<&str>)
        ensures
            r@.map_values(|s: &str| s@) == input_names_of(views(self.pieces@)),
    {
        let mut out: Vec<&str> = Vec::new();
        let mut i: usize = 0;
        while i < self.pieces.len()
            invariant
                i <= self.pieces@.len(),
                out@.map_values(|s: &str| s@) == input_names_of(views(self.pieces@).take(i as int)),
            decreases self.pieces.len() - i,
        {
            let ghost before = views(self.pieces@).take(i as int);
            let ghost old_out = out@.map_values(|s: &str| s@);
            assert(views(self.pieces@).take(i + 1) =~= before.push(self.pieces@[i as int]@));
            assert(before.push(self.pieces@[i as int]@).drop_last() =~= before);
            match &self.pieces[i] {
                BlockPiece::Input { name, .. } => {
                    out.push(name.as_str());
                },
                _ => {},
            }
            assert(out@.map_values(|s: &str| s@) =~= input_names_of(before.push(self.pieces@[i as int]@)));
            i = i + 1;
        }
        assert(views(self.pieces@).take(self.pieces@.len() as int) == views(self.pieces@));
        out
    }
}

/// The names of the `Input` pieces, in order.
pub open spec fn input_names_of(pieces: Seq<PieceV>) -> Seq<Seq<char>>
    decreases pieces.len(),
{
    if pieces.len() == 0 {
        Seq::empty()
    } else {
        let rest = input_names_of(pieces.drop_last());
        match pieces.last() {
            PieceV::Input { name, .. } => rest.push(name),
            _ => rest,
        }
    }
}

} // verus!
