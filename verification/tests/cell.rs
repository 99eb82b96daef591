use game_of_life::Cell;

#[test]
fn dead_is_zero_and_alive_is_one() {
    assert_eq!(Cell::Dead.value(), 0);
    assert_eq!(Cell::Alive.value(), 1);
}

#[test]
fn toggle_flips_a_cell() {
    let mut cell = Cell::Dead;
    cell.toggle();
    assert_eq!(cell, Cell::Alive);
    cell.toggle();
    assert_eq!(cell, Cell::Dead);
}

#[test]
fn live_cell_dies_of_underpopulation() {
    assert_eq!(Cell::Alive.next(0), Cell::Dead);
    assert_eq!(Cell::Alive.next(1), Cell::Dead);
}

#[test]
fn live_cell_survives_with_two_or_three() {
    assert_eq!(Cell::Alive.next(2), Cell::Alive);
    assert_eq!(Cell::Alive.next(3), Cell::Alive);
}

#[test]
fn live_cell_dies_of_overpopulation() {
    for n in 4..=8 {
        assert_eq!(Cell::Alive.next(n), Cell::Dead, "with {} neighbors", n);
    }
}

#[test]
fn dead_cell_comes_alive_with_exactly_three() {
    for n in 0..=8 {
        let expected = if n == 3 { Cell::Alive } else { Cell::Dead };
        assert_eq!(Cell::Dead.next(n), expected, "with {} neighbors", n);
    }
}

#[test]
fn glyphs_are_the_two_squares() {
    assert_eq!(Cell::Dead.glyph(), '◻');
    assert_eq!(Cell::Alive.glyph(), '◼');
    assert_ne!(Cell::Dead.glyph(), Cell::Alive.glyph());
}
