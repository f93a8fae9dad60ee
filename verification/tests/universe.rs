use game_of_life::Universe;

/// Reads one cell out of the packed bit buffer.
fn alive(u: &Universe, row: u32, col: u32) -> bool {
    let i = (row * u.width() + col) as usize;
    let blocks = u.get_cells();
    (blocks[i / 32] >> (i % 32)) & 1 == 1
}

fn count_live(u: &Universe) -> u32 {
    let mut n = 0;
    for row in 0..u.height() {
        for col in 0..u.width() {
            if alive(u, row, col) {
                n += 1;
            }
        }
    }
    n
}

fn glider_universe() -> Universe {
    let mut u = Universe::new(6, 6);
    u.set_cells(&[(1, 2), (2, 3), (3, 1), (3, 2), (3, 3)]);
    u
}

#[test]
fn new_universe_is_dead_with_full_repaint() {
    let u = Universe::new(4, 3);
    assert_eq!(u.width(), 4);
    assert_eq!(u.height(), 3);
    assert_eq!(count_live(&u), 0);
    // One repaint record per cell, row-major, all dead.
    assert_eq!(u.get_changes_len(), 12);
    let changes = u.get_changes();
    for (i, c) in changes.iter().enumerate() {
        assert_eq!(c.row(), i as u32 / 4);
        assert_eq!(c.col(), i as u32 % 4);
        assert!(!c.state());
    }
}

#[test]
fn toroidal_wrap_births_across_the_edge() {
    // Three live cells in the last row; the corner (0, 0) sees all three
    // through the north wrap (and one of them through the west wrap too),
    // so it is born.
    let mut u = Universe::new(4, 4);
    u.set_cells(&[(3, 3), (3, 0), (3, 1)]);
    u.tick();
    assert!(alive(&u, 0, 0));
}

#[test]
fn underpopulation_kills_lonely_cells() {
    // A live cell with one live neighbor dies; so does its neighbor.
    let mut u = Universe::new(5, 5);
    u.set_cells(&[(2, 2), (2, 3)]);
    u.tick();
    assert_eq!(count_live(&u), 0);
}

#[test]
fn stasis_keeps_a_block() {
    // Every cell of a 2x2 block has three live neighbors and survives; no
    // dead cell around it has exactly three, so nothing changes at all.
    let mut u = Universe::new(5, 5);
    u.set_cells(&[(1, 1), (1, 2), (2, 1), (2, 2)]);
    u.free_changes();
    u.tick();
    assert!(alive(&u, 1, 1));
    assert!(alive(&u, 1, 2));
    assert!(alive(&u, 2, 1));
    assert!(alive(&u, 2, 2));
    assert_eq!(count_live(&u), 4);
    assert_eq!(u.get_changes_len(), 0);
}

#[test]
fn overpopulation_kills_crowded_center() {
    // The center of a plus shape has four live neighbors and dies.
    let mut u = Universe::new(5, 5);
    u.set_cells(&[(2, 2), (1, 2), (3, 2), (2, 1), (2, 3)]);
    u.tick();
    assert!(!alive(&u, 2, 2));
}

#[test]
fn reproduction_spins_a_blinker() {
    // A horizontal blinker becomes vertical: the cells above and below the
    // center are each born with exactly three live neighbors.
    let mut u = Universe::new(5, 5);
    u.set_cells(&[(2, 1), (2, 2), (2, 3)]);
    u.tick();
    for row in 0..5 {
        for col in 0..5 {
            let expected = col == 2 && (1..=3).contains(&row);
            assert_eq!(alive(&u, row, col), expected, "cell ({row}, {col})");
        }
    }
}

#[test]
fn glider_advances_one_step() {
    let mut u = glider_universe();
    u.tick();
    let expected = [(2, 1), (2, 3), (3, 2), (3, 3), (4, 2)];
    for row in 0..6 {
        for col in 0..6 {
            assert_eq!(
                alive(&u, row, col),
                expected.contains(&(row, col)),
                "cell ({row}, {col})"
            );
        }
    }
}

#[test]
fn glider_changes_list_the_flipped_cells() {
    let mut u = glider_universe();
    u.free_changes();
    u.tick();
    let expected = [(1, 2, false), (2, 1, true), (3, 1, false), (4, 2, true)];
    assert_eq!(u.get_changes_len(), expected.len());
    let changes = u.get_changes();
    for (c, (row, col, state)) in changes.iter().zip(expected) {
        assert_eq!(c.row(), row);
        assert_eq!(c.col(), col);
        assert_eq!(c.state(), state);
    }
}

#[test]
fn clear_emits_one_change_per_cell() {
    let mut u = glider_universe();
    assert_eq!(u.get_changes_len(), 36);
    u.clear();
    assert_eq!(u.get_changes_len(), 72);
    assert_eq!(count_live(&u), 0);
    let changes = u.get_changes();
    for (i, c) in changes[36..].iter().enumerate() {
        assert_eq!(c.row(), i as u32 / 6);
        assert_eq!(c.col(), i as u32 % 6);
        assert!(!c.state());
    }
}

#[test]
fn randomize_writes_the_supplied_bits() {
    let mut u = Universe::new(2, 3);
    u.free_changes();
    let bits = [true, false, false, true, true, false];
    u.randomize(&bits);
    for (i, &b) in bits.iter().enumerate() {
        let (row, col) = (i as u32 / 2, i as u32 % 2);
        assert_eq!(alive(&u, row, col), b, "cell ({row}, {col})");
    }
    // One repaint record per cell, carrying the new state.
    assert_eq!(u.get_changes_len(), 6);
    let changes = u.get_changes();
    for (i, c) in changes.iter().enumerate() {
        assert_eq!(c.row(), i as u32 / 2);
        assert_eq!(c.col(), i as u32 % 2);
        assert_eq!(c.state(), bits[i]);
    }
}

#[test]
fn drained_changes_accumulate_from_empty() {
    let mut u = Universe::new(5, 5);
    u.set_cells(&[(2, 1), (2, 2), (2, 3)]);
    u.free_changes();
    assert_eq!(u.get_changes_len(), 0);
    // The blinker flips four cells: two born, two dying.
    u.tick();
    assert_eq!(u.get_changes_len(), 4);
    u.free_changes();
    assert_eq!(u.get_changes_len(), 0);
}

#[test]
fn resize_kills_every_cell() {
    let mut u = glider_universe();
    let pending = u.get_changes_len();
    u.set_width(3);
    assert_eq!(u.width(), 3);
    assert_eq!(u.height(), 6);
    assert_eq!(count_live(&u), 0);
    // A resize repaints nothing and drops nothing from the change list.
    assert_eq!(u.get_changes_len(), pending);

    let mut u = glider_universe();
    u.set_height(2);
    assert_eq!(u.width(), 6);
    assert_eq!(u.height(), 2);
    assert_eq!(count_live(&u), 0);
}

#[test]
fn render_draws_one_line_per_row() {
    let mut u = Universe::new(3, 2);
    u.toggle_cell(0, 1);
    u.toggle_cell(1, 2);
    assert_eq!(u.render(), ".#.\n..#\n");
}

#[test]
fn toggle_flips_and_records() {
    let mut u = Universe::new(3, 3);
    u.free_changes();
    u.toggle_cell(1, 2);
    assert!(alive(&u, 1, 2));
    u.toggle_cell(1, 2);
    assert!(!alive(&u, 1, 2));
    assert_eq!(u.get_changes_len(), 2);
    let changes = u.get_changes();
    assert_eq!(changes[0].row(), 1);
    assert_eq!(changes[0].col(), 2);
    assert!(changes[0].state());
    assert_eq!(changes[1].row(), 1);
    assert_eq!(changes[1].col(), 2);
    assert!(!changes[1].state());
}

#[test]
fn packed_cells_expose_one_bit_per_cell() {
    // 40 cells span two u32 blocks; cell 33 lands in bit 1 of block 1.
    let mut u = Universe::new(1, 40);
    assert_eq!(u.get_cells().len(), 2);
    u.toggle_cell(33, 0);
    assert_eq!(u.get_cells()[0], 0);
    assert_eq!(u.get_cells()[1], 0b10);
}

#[test]
fn zero_dimension_grid_is_a_no_op() {
    let mut u = Universe::new(0, 5);
    assert_eq!(u.width(), 0);
    assert_eq!(u.height(), 5);
    assert_eq!(u.get_changes_len(), 0);
    u.tick();
    assert_eq!(u.get_changes_len(), 0);
    u.clear();
    assert_eq!(u.get_changes_len(), 0);
    assert_eq!(u.render(), "\n\n\n\n\n");
}
