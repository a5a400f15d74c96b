use rustcore::cell_def::{critter_glyph, Cell, CellKind};

#[test]
fn kind_parsing_accepts_the_nine_names() {
    assert_eq!(CellKind::from_input_string("Empty"), Some(CellKind::Empty));
    assert_eq!(CellKind::from_input_string("Soul"), Some(CellKind::Soul));
    assert_eq!(CellKind::from_input_string("Tissue"), Some(CellKind::Tissue));
    assert_eq!(CellKind::from_input_string("Eyeball"), Some(CellKind::Eyeball));
    assert_eq!(CellKind::from_input_string("Mouth"), Some(CellKind::Mouth));
    assert_eq!(CellKind::from_input_string("Butt"), Some(CellKind::Butt));
    assert_eq!(CellKind::from_input_string("Muscle"), Some(CellKind::Muscle));
    assert_eq!(CellKind::from_input_string("Anchor"), Some(CellKind::Anchor));
    assert_eq!(CellKind::from_input_string("Armor"), Some(CellKind::Armor));
}

#[test]
fn kind_parsing_rejects_unknown_names() {
    assert_eq!(CellKind::from_input_string(""), None);
    assert_eq!(CellKind::from_input_string("tissue"), None);
    assert_eq!(CellKind::from_input_string("Pizza"), None);
}

#[test]
fn empty_cell_is_the_sentinel() {
    let cell = Cell::empty();
    assert_eq!(cell.id, "Null");
    assert_eq!(cell.kind, CellKind::Empty);
    assert_eq!(cell.energy, 0);
    assert_eq!(cell.orientation, "C");
    assert!(cell.is_empty());
}

#[test]
fn new_cell_keeps_its_fields() {
    let cell = Cell::new("alpha".to_string(), CellKind::Mouth, -3, "W".to_string());
    assert_eq!(cell.id, "alpha");
    assert_eq!(cell.kind, CellKind::Mouth);
    assert_eq!(cell.energy, -3);
    assert_eq!(cell.orientation, "W");
    assert!(!cell.is_empty());
}

#[test]
fn valid_dir_accepts_exactly_the_five_names() {
    for d in ["N", "S", "E", "W", "C"] {
        assert!(Cell::valid_dir(d));
    }
    for d in ["n", "s", "e", "w", "c", "", "NE", "X"] {
        assert!(!Cell::valid_dir(d));
    }
}

#[test]
fn critter_glyphs() {
    assert_eq!(critter_glyph(CellKind::Tissue), 'T');
    assert_eq!(critter_glyph(CellKind::Soul), 'S');
    assert_eq!(critter_glyph(CellKind::Eyeball), 'O');
    assert_eq!(critter_glyph(CellKind::Mouth), 'M');
    assert_eq!(critter_glyph(CellKind::Butt), 'B');
    assert_eq!(critter_glyph(CellKind::Muscle), 'U');
    assert_eq!(critter_glyph(CellKind::Anchor), 'A');
    assert_eq!(critter_glyph(CellKind::Armor), '#');
    assert_eq!(critter_glyph(CellKind::Empty), '.');
}
