use game_of_life::cell::Cell;
use game_of_life::geometry::Size;
use game_of_life::universe::Universe;
use game_of_life::universe_builder::{EmptyUniverse, UniverseBuilder};

fn empty(width: usize, height: usize) -> Universe {
    UniverseBuilder::<EmptyUniverse>::with_width(width).with_height(height).empty()
}

fn seeded(width: usize, height: usize, alive: &[(usize, usize)]) -> Universe {
    let mut universe = empty(width, height);
    universe.set_cells(alive);
    universe
}

fn picture(universe: &Universe) -> Vec<String> {
    let width = universe.width();
    universe
        .get_cells()
        .chunks(width)
        .map(|row| row.iter().map(|cell| if *cell == Cell::Alive { '#' } else { '.' }).collect())
        .collect()
}

#[test]
fn build_starts_at_the_first_stage() {
    let _stage: EmptyUniverse = Universe::build();
}

#[test]
fn both_orders_of_the_dimensions_agree() {
    let a = UniverseBuilder::<EmptyUniverse>::with_width(6).with_height(4).empty();
    let b = UniverseBuilder::<EmptyUniverse>::with_height(4).with_width(6).empty();
    assert_eq!(a.width(), 6);
    assert_eq!(a.height(), 4);
    assert_eq!(b.width(), 6);
    assert_eq!(b.height(), 4);
    assert_eq!(a.size(), Size { width: 6, height: 4 });
    assert_eq!(a.get_cells(), b.get_cells());
}

#[test]
fn a_builder_knows_whether_it_can_finish() {
    assert!(UniverseBuilder::<EmptyUniverse>::with_width(3).with_height(2).is_valid());
    assert!(!UniverseBuilder::<EmptyUniverse>::with_width(0).with_height(2).is_valid());
    assert!(!UniverseBuilder::<EmptyUniverse>::with_width(3).with_height(0).is_valid());
    assert!(!UniverseBuilder::<EmptyUniverse>::with_width(usize::MAX).with_height(2).is_valid());
    assert!(UniverseBuilder::<EmptyUniverse>::with_height(1).with_width(usize::MAX).is_valid());
}

#[test]
fn empty_universe_is_all_dead() {
    let universe = empty(5, 3);
    assert_eq!(universe.get_cells(), vec![Cell::Dead; 15].as_slice());
}

#[test]
fn empty_universe_stays_dead() {
    let mut universe = empty(6, 5);
    for _ in 0..10 {
        universe.tick();
        assert!(universe.get_cells().iter().all(|cell| *cell == Cell::Dead));
    }
}

#[test]
fn patterned_universe_covers_the_whole_grid() {
    let universe = UniverseBuilder::<EmptyUniverse>::with_width(5).with_height(3).default();
    let a = Cell::Alive;
    let d = Cell::Dead;
    assert_eq!(universe.get_cells(), &[a, d, a, d, a, d, a, a, a, d, a, d, a, d, a]);
}

#[test]
fn patterned_universe_marks_multiples_of_seven() {
    let universe = UniverseBuilder::<EmptyUniverse>::with_width(10).with_height(5).default();
    let cells = universe.get_cells();
    assert_eq!(cells.len(), 50);
    for (index, cell) in cells.iter().enumerate() {
        let expected = if index % 2 == 0 || index % 7 == 0 { Cell::Alive } else { Cell::Dead };
        assert_eq!(*cell, expected, "index {}", index);
    }
    assert_eq!(cells[7], Cell::Alive);
    assert_eq!(cells[21], Cell::Alive);
    assert_eq!(cells[9], Cell::Dead);
}

#[test]
fn from_cells_keeps_the_generation() {
    let size = Size { width: 2, height: 2 };
    let cells = vec![Cell::Alive, Cell::Dead, Cell::Dead, Cell::Alive];
    let universe = Universe::from_cells(size, cells.clone());
    assert_eq!(universe.get_cells(), cells.as_slice());
    assert_eq!(universe.width(), 2);
    assert_eq!(universe.height(), 2);
}

#[test]
fn buffer_length_is_the_area_after_every_tick() {
    let mut universe = UniverseBuilder::<EmptyUniverse>::with_width(7).with_height(4).default();
    assert_eq!(universe.get_cells().len(), 28);
    for _ in 0..9 {
        universe.tick();
        assert_eq!(universe.get_cells().len(), 28);
        assert_eq!(universe.width() * universe.height(), 28);
    }
}

#[test]
fn equal_generations_evolve_equally() {
    let size = Size { width: 8, height: 6 };
    let start: Vec<Cell> =
        (0..48).map(|i| if i % 3 == 0 || i % 5 == 1 { Cell::Alive } else { Cell::Dead }).collect();
    let mut a = Universe::from_cells(size, start.clone());
    let mut b = Universe::from_cells(size, start);
    for _ in 0..12 {
        a.tick();
        b.tick();
        assert_eq!(a.get_cells(), b.get_cells());
    }
}

#[test]
fn evolution_does_not_depend_on_the_scratch_buffer() {
    let size = Size { width: 8, height: 6 };
    let start: Vec<Cell> =
        (0..48).map(|i| if i % 3 == 0 || i % 5 == 1 { Cell::Alive } else { Cell::Dead }).collect();
    let mut fresh = Universe::from_cells(size, start.clone());
    let mut used = Universe::from_cells(size, start);
    used.tick();
    let generation: Vec<Cell> = used.get_cells().to_vec();
    used.tick();
    fresh.tick();
    assert_eq!(fresh.get_cells(), generation.as_slice());
    let mut restart = Universe::from_cells(size, generation);
    restart.tick();
    assert_eq!(restart.get_cells(), used.get_cells());
}

#[test]
fn toggle_flips_one_cell() {
    let mut universe = empty(4, 3);
    universe.toggle_cell(1, 2);
    let mut expected = vec![Cell::Dead; 12];
    expected[6] = Cell::Alive;
    assert_eq!(universe.get_cells(), expected.as_slice());
}

#[test]
fn toggle_twice_restores_the_cell() {
    let mut universe = UniverseBuilder::<EmptyUniverse>::with_width(5).with_height(4).default();
    let before: Vec<Cell> = universe.get_cells().to_vec();
    for row in 0..4u32 {
        for col in 0..5u32 {
            universe.toggle_cell(row, col);
            assert_ne!(universe.get_cells(), before.as_slice());
            universe.toggle_cell(row, col);
            assert_eq!(universe.get_cells(), before.as_slice());
        }
    }
}

#[test]
fn toggle_acts_on_the_current_generation_after_a_tick() {
    let mut universe = empty(4, 4);
    universe.tick();
    universe.toggle_cell(3, 3);
    assert_eq!(picture(&universe), vec!["....", "....", "....", "...#"]);
    universe.tick();
    assert_eq!(picture(&universe), vec!["....", "....", "....", "...."]);
}

#[test]
fn set_cells_marks_the_listed_cells() {
    let universe = seeded(4, 3, &[(0, 0), (2, 3), (1, 1)]);
    assert_eq!(picture(&universe), vec!["#...", ".#..", "...#"]);
}

#[test]
fn set_cells_is_idempotent_and_leaves_the_rest() {
    let mut universe = seeded(4, 3, &[(0, 1)]);
    universe.set_cells(&[(2, 2), (0, 1), (2, 2)]);
    assert_eq!(picture(&universe), vec![".#..", "....", "..#."]);
    universe.set_cells(&[(2, 2), (0, 1), (2, 2)]);
    assert_eq!(picture(&universe), vec![".#..", "....", "..#."]);
    universe.set_cells(&[]);
    assert_eq!(picture(&universe), vec![".#..", "....", "..#."]);
}

#[test]
fn render_has_a_glyph_per_cell_and_a_line_per_row() {
    let universe = seeded(3, 2, &[(0, 0), (1, 2)]);
    assert_eq!(universe.render(), "◼◻◻\n◻◻◼\n");
}

#[test]
fn render_of_a_single_column() {
    let universe = seeded(1, 3, &[(1, 0)]);
    assert_eq!(universe.render(), "◻\n◼\n◻\n");
}

#[test]
fn render_follows_the_current_generation() {
    let mut universe = seeded(5, 5, &[(2, 1), (2, 2), (2, 3)]);
    universe.tick();
    assert_eq!(universe.render(), "◻◻◻◻◻\n◻◻◼◻◻\n◻◻◼◻◻\n◻◻◼◻◻\n◻◻◻◻◻\n");
}

#[test]
fn block_is_a_still_life() {
    let mut universe = seeded(4, 4, &[(1, 1), (1, 2), (2, 1), (2, 2)]);
    let before: Vec<Cell> = universe.get_cells().to_vec();
    universe.tick();
    assert_eq!(universe.get_cells(), before.as_slice());
    let mut wide = seeded(9, 6, &[(3, 5), (3, 6), (4, 5), (4, 6)]);
    for _ in 0..5 {
        wide.tick();
        assert_eq!(
            picture(&wide),
            vec![".........", ".........", ".........", ".....##..", ".....##..", "........."]
        );
    }
}

#[test]
fn blinker_oscillates() {
    let mut universe = seeded(5, 5, &[(2, 1), (2, 2), (2, 3)]);
    universe.tick();
    assert_eq!(picture(&universe), vec![".....", "..#..", "..#..", "..#..", "....."]);
    universe.tick();
    assert_eq!(picture(&universe), vec![".....", ".....", ".###.", ".....", "....."]);
}

#[test]
fn glider_moves_down_and_right() {
    let mut universe = seeded(6, 6, &[(1, 2), (2, 3), (3, 1), (3, 2), (3, 3)]);
    universe.tick();
    assert_eq!(picture(&universe), vec!["......", "......", ".#.#..", "..##..", "..#...", "......"]);
    universe.tick();
    assert_eq!(picture(&universe), vec!["......", "......", "...#..", ".#.#..", "..##..", "......"]);
    universe.tick();
    assert_eq!(picture(&universe), vec!["......", "......", "..#...", "...##.", "..##..", "......"]);
    universe.tick();
    assert_eq!(picture(&universe), vec!["......", "......", "...#..", "....#.", "..###.", "......"]);
}

#[test]
fn glider_wraps_around_the_edges() {
    let shape: [(usize, usize); 5] = [(0, 1), (1, 2), (2, 0), (2, 1), (2, 2)];
    let (width, height) = (7usize, 5usize);
    for top in 0..height {
        for left in 0..width {
            let start: Vec<(usize, usize)> =
                shape.iter().map(|(r, c)| ((r + top) % height, (c + left) % width)).collect();
            let moved: Vec<(usize, usize)> = shape
                .iter()
                .map(|(r, c)| ((r + top + 1) % height, (c + left + 1) % width))
                .collect();
            let mut universe = seeded(width, height, &start);
            for _ in 0..4 {
                universe.tick();
            }
            let expected = seeded(width, height, &moved);
            assert_eq!(universe.get_cells(), expected.get_cells());
        }
    }
}

#[test]
fn lonely_cells_die_and_crowded_cells_die() {
    let mut universe = seeded(5, 5, &[(0, 0), (2, 1), (2, 2), (2, 3), (1, 2), (3, 2)]);
    universe.tick();
    assert_eq!(picture(&universe), vec![".....", "..##.", ".#.#.", ".###.", "....."]);
}
