//! The unit of the critter grid: a cell with an owner, a kind, an energy
//! budget and a facing.

use vstd::prelude::*;

verus! {

/// What a critter-grid cell holds. `Empty` and `Soul` are not buildable;
/// the other seven kinds are grown by build intents.
#[derive(Debug, Clone, Copy, PartialEq, Eq, Structural)]
pub enum CellKind {
    Empty,
    Soul,
    Tissue,
    Eyeball,
    Mouth,
    Butt,
    Muscle,
    Anchor,
    Armor,
}

/// The mathematical model of which structure-kind names are recognised.
pub open spec fn spec_kind_of(s: Seq<char>) -> Option<CellKind> {
    if s == "Empty"@ {
        Some(CellKind::Empty)
    } else if s == "Soul"@ {
        Some(CellKind::Soul)
    } else if s == "Tissue"@ {
        Some(CellKind::Tissue)
    } else if s == "Eyeball"@ {
        Some(CellKind::Eyeball)
    } else if s == "Mouth"@ {
        Some(CellKind::Mouth)
    } else if s == "Butt"@ {
        Some(CellKind::Butt)
    } else if s == "Muscle"@ {
        Some(CellKind::Muscle)
    } else if s == "Anchor"@ {
        Some(CellKind::Anchor)
    } else if s == "Armor"@ {
        Some(CellKind::Armor)
    } else {
        None
    }
}

/// Exact string equality, decided through `String`'s specified `eq`.
pub fn str_eq(a: &str, b: &str) -> (r: bool)
    ensures
        r == (a@ == b@),
{
    let owned_a = a.to_owned();
    let owned_b = b.to_owned();
    owned_a == owned_b
}

impl CellKind {
    /// Parses a structure-kind name; unknown names are rejected with `None`.
    pub fn from_input_string(input_string: &str) -> (r: Option<Self>)
        ensures
            r == spec_kind_of(input_string@),
    {
        if str_eq(input_string, "Empty") {
            Some(CellKind::Empty)
        } else if str_eq(input_string, "Soul") {
            Some(CellKind::Soul)
        } else if str_eq(input_string, "Tissue") {
            Some(CellKind::Tissue)
        } else if str_eq(input_string, "Eyeball") {
            Some(CellKind::Eyeball)
        } else if str_eq(input_string, "Mouth") {
            Some(CellKind::Mouth)
        } else if str_eq(input_string, "Butt") {
            Some(CellKind::Butt)
        } else if str_eq(input_string, "Muscle") {
            Some(CellKind::Muscle)
        } else if str_eq(input_string, "Anchor") {
            Some(CellKind::Anchor)
        } else if str_eq(input_string, "Armor") {
            Some(CellKind::Armor)
        } else {
            None
        }
    }
}

/// The mathematical view of a `Cell`.
pub ghost struct CellView {
    pub id: Seq<char>,
    pub kind: CellKind,
    pub energy: int,
    pub orientation: Seq<char>,
}

/// A unit of the critter grid: owning soul identifier, kind, energy, facing.
#[derive(Debug)]
pub struct Cell {
    pub id: String,
    pub kind: CellKind,
    pub energy: i16,
    pub orientation: String,
}

impl View for Cell {
    type V = CellView;

    open spec fn view(&self) -> CellView {
        CellView {
            id: self.id@,
            kind: self.kind,
            energy: self.energy as int,
            orientation: self.orientation@,
        }
    }
}

impl DeepView for Cell {
    type V = CellView;

    open spec fn deep_view(&self) -> CellView {
        self.view()
    }
}

impl Clone for Cell {
    fn clone(&self) -> (r: Self)
        ensures
            r == *self,
    {
        Cell {
            id: self.id.clone(),
            kind: self.kind,
            energy: self.energy,
            orientation: self.orientation.clone(),
        }
    }
}

/// The view of the sentinel cell that an empty grid position holds.
pub open spec fn spec_empty_cell() -> CellView {
    CellView { id: "Null"@, kind: CellKind::Empty, energy: 0, orientation: "C"@ }
}

/// Which facing names are accepted: the four compass points and centre.
pub open spec fn spec_valid_dir(s: Seq<char>) -> bool {
    s == "N"@ || s == "S"@ || s == "E"@ || s == "W"@ || s == "C"@
}

impl Cell {
    /// The sentinel for an unoccupied grid position: owner `Null`, no energy,
    /// centre facing.
    pub fn empty() -> (r: Self)
        ensures
            r@ == spec_empty_cell(),
    {
        Self {
            id: "Null".to_owned(),
            kind: CellKind::Empty,
            energy: 0,
            orientation: "C".to_owned(),
        }
    }

    pub fn new(id: String, kind: CellKind, energy: i16, orientation: String) -> (r: Self)
        ensures
            r@ == (CellView {
                id: id@,
                kind: kind,
                energy: energy as int,
                orientation: orientation@,
            }),
    {
        Self { id, kind, energy, orientation }
    }

    pub fn is_empty(&self) -> (r: bool)
        ensures
            r == (self.kind == CellKind::Empty),
    {
        self.kind == CellKind::Empty
    }

    /// Accepts exactly the five facing names `N`, `S`, `E`, `W`, `C`.
    pub fn valid_dir(direction: &str) -> (r: bool)
        ensures
            r == spec_valid_dir(direction@),
    {
        str_eq(direction, "N") || str_eq(direction, "S") || str_eq(direction, "E")
            || str_eq(direction, "W") || str_eq(direction, "C")
    }
}

/// The console glyph for one critter-cell kind.
pub open spec fn spec_critter_glyph(k: CellKind) -> char {
    match k {
        CellKind::Tissue => 'T',
        CellKind::Soul => 'S',
        CellKind::Eyeball => 'O',
        CellKind::Mouth => 'M',
        CellKind::Butt => 'B',
        CellKind::Muscle => 'U',
        CellKind::Anchor => 'A',
        CellKind::Armor => '#',
        CellKind::Empty => '.',
    }
}

/// Maps a critter-cell kind to its console glyph.
pub fn critter_glyph(kind: CellKind) -> (c: char)
    ensures
        c == spec_critter_glyph(kind),
{
    match kind {
        CellKind::Tissue => 'T',
        CellKind::Soul => 'S',
        CellKind::Eyeball => 'O',
        CellKind::Mouth => 'M',
        CellKind::Butt => 'B',
        CellKind::Muscle => 'U',
        CellKind::Anchor => 'A',
        CellKind::Armor => '#',
        CellKind::Empty => '.',
    }
}

} // verus!
