use game_of_life::{Cell, Universe};

fn grid(width: u32, height: u32, alive: &[(u32, u32)]) -> Universe {
    let mut universe = Universe::new();
    universe.set_width(width);
    universe.set_height(height);
    assert_eq!(universe.set_cells(alive), Ok(()));
    universe
}

#[test]
fn render_draws_each_row_on_its_own_line() {
    let universe = grid(3, 2, &[(0, 1), (1, 0), (1, 2)]);
    assert_eq!(universe.render(), "◻◼◻\n◼◻◼\n");
}

#[test]
fn render_of_a_blank_grid() {
    let universe = grid(4, 3, &[]);
    assert_eq!(universe.render(), "◻◻◻◻\n◻◻◻◻\n◻◻◻◻\n");
}

#[test]
fn render_has_a_line_for_each_row_and_a_glyph_for_each_cell() {
    let mut universe = Universe::new();
    universe.tick();
    let text = universe.render();
    let lines: Vec<&str> = text.lines().collect();
    assert_eq!(lines.len(), 64);
    assert!(text.ends_with('\n'));
    assert_eq!(text.chars().filter(|c| *c == '\n').count(), 64);
    for (row, line) in lines.iter().enumerate() {
        let glyphs: Vec<char> = line.chars().collect();
        assert_eq!(glyphs.len(), 64);
        for (column, glyph) in glyphs.iter().enumerate() {
            let cell = universe.get_cells()[row * 64 + column];
            assert_eq!(*glyph, cell.glyph());
            assert_eq!(*glyph == '◼', cell == Cell::Alive);
        }
    }
}

#[test]
fn render_of_a_grid_without_rows_is_empty() {
    assert_eq!(grid(5, 0, &[]).render(), "");
    assert_eq!(grid(0, 0, &[]).render(), "");
}

#[test]
fn render_of_a_grid_without_columns_is_empty_lines() {
    assert_eq!(grid(0, 3, &[]).render(), "\n\n\n");
}

#[test]
fn render_follows_a_toggle() {
    let mut universe = grid(2, 2, &[]);
    assert_eq!(universe.render(), "◻◻\n◻◻\n");
    assert_eq!(universe.toggle_cell(1, 0), Ok(()));
    assert_eq!(universe.render(), "◻◻\n◼◻\n");
}
