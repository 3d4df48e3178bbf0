use cgol_tui::shapes::{empty, frame, HandleError};
use cgol_tui::{Area, Cell, Universe};

fn grid(lines: &[&str]) -> Universe {
    let v: Vec<String> = lines.iter().map(|l| l.to_string()).collect();
    Universe::from_vec_str(&v).unwrap()
}

fn alive_count(u: &Universe) -> usize {
    u.cells.iter().filter(|c| **c == Cell::Alive).count()
}

#[test]
fn parse_two_by_two_one_alive() {
    let u = Universe::from_str("..\nO.\n").unwrap();
    assert_eq!(u.area, Area::new(2, 2));
    assert_eq!(alive_count(&u), 1);
    assert_eq!(u.get((1, 0)), Some(&Cell::Alive));
    assert_eq!(u.get((0, 0)), Some(&Cell::Dead));
}

#[test]
fn parse_pads_short_rows_and_reads_name() {
    let u = Universe::from_str("!Name: Tiny\n!Author: someone\nO\n.#1\n_ 0O").unwrap();
    assert_eq!(u.name(), "Tiny");
    assert_eq!(u.area, Area::new(4, 3));
    assert_eq!(u.get((0, 0)), Some(&Cell::Alive));
    assert_eq!(u.get((0, 1)), Some(&Cell::Dead));
    assert_eq!(u.get((1, 1)), Some(&Cell::Alive));
    assert_eq!(u.get((1, 2)), Some(&Cell::Alive));
    assert_eq!(u.get((2, 3)), Some(&Cell::Alive));
    assert_eq!(alive_count(&u), 4);
}

#[test]
fn parse_without_name_field() {
    let u = Universe::from_str("!Author: someone\nOO").unwrap();
    assert_eq!(u.name(), "");
    assert_eq!(u.area, Area::new(2, 1));
}

#[test]
fn parse_rejects_unknown_character() {
    assert_eq!(
        Universe::from_str("..\n.x\nyO"),
        Err(HandleError::ParseError('x'))
    );
    assert_eq!(
        Universe::from_vec_str(&["O?".to_string()]),
        Err(HandleError::ParseError('?'))
    );
}

#[test]
fn parse_blank_text_is_empty_grid() {
    let u = Universe::from_str("  \n ").unwrap();
    assert_eq!(u.area, Area::new(0, 0));
    assert!(u.cells.is_empty());
}

#[test]
fn place_centres_and_keeps_population() {
    let glider = grid(&["..O", "O.O", ".OO"]).with_name("g");
    let placed = Universe::from_figur(Area::new(10, 8), glider.clone()).unwrap();
    assert_eq!(placed.area, Area::new(10, 8));
    assert_eq!(placed.name(), "g");
    assert_eq!(alive_count(&placed), alive_count(&glider));
    // start row (8 - 3) / 2 = 2, start column (10 - 3) / 2 = 3
    assert_eq!(placed.get((2, 5)), Some(&Cell::Alive));
    assert_eq!(placed.get((3, 3)), Some(&Cell::Alive));
    assert_eq!(placed.get((4, 4)), Some(&Cell::Alive));
    assert_eq!(placed.get((2, 3)), Some(&Cell::Dead));
}

#[test]
fn place_exact_fit_is_identity() {
    let g = grid(&["O.O", ".OO"]);
    let placed = Universe::from_figur(Area::new(3, 2), g.clone()).unwrap();
    assert_eq!(placed, g);
}

#[test]
fn place_too_big_in_either_dimension() {
    let g = grid(&["OOOO", "O..."]);
    assert_eq!(
        Universe::from_figur(Area::new(3, 10), g.clone()),
        Err(HandleError::TooBig)
    );
    assert_eq!(
        Universe::from_figur(Area::new(10, 1), g),
        Err(HandleError::TooBig)
    );
}

#[test]
fn small_frames_are_dead() {
    for (w, h) in [(2u16, 5u16), (5, 2), (0, 0), (1, 1), (2, 2), (0, 9)] {
        let f = frame(Area::new(w, h));
        assert_eq!(f.area, Area::new(w, h));
        assert_eq!(f.cells.len(), w as usize * h as usize);
        assert_eq!(alive_count(&f), 0);
    }
}

#[test]
fn neighbour_count_wraps_around() {
    let u = grid(&["O...", "....", "....", "...O"]);
    // (0, 0) and (3, 3) touch across the corner
    assert_eq!(u.live_neighbour_count(0, 0), 1);
    assert_eq!(u.live_neighbour_count(3, 3), 1);
    assert_eq!(u.live_neighbour_count(1, 1), 1);
    assert_eq!(u.live_neighbour_count(2, 1), 0);
}

#[test]
fn neighbour_count_is_shift_invariant() {
    let u = grid(&["..O.....", "O.O.....", ".OO.....", "........", "........", "........"]);
    let (h, w) = (6usize, 8usize);
    let (dr, dc) = (4usize, 5usize);
    let mut v = empty(u.area);
    for r in 0..h {
        for c in 0..w {
            v.set((r + dr) % h, (c + dc) % w, *u.get((r, c)).unwrap());
        }
    }
    for r in 0..h {
        for c in 0..w {
            assert_eq!(
                u.live_neighbour_count(r as u16, c as u16),
                v.live_neighbour_count(((r + dr) % h) as u16, ((c + dc) % w) as u16)
            );
        }
    }
    assert_eq!(u.live_neighbour_count(1, 1), 5);
}

#[test]
fn block_is_still() {
    for (w, h) in [(4u16, 4u16), (6, 5)] {
        let block = grid(&["OO", "OO"]);
        let mut u = Universe::from_figur(Area::new(w, h), block).unwrap();
        let before = u.clone();
        u.tick();
        assert_eq!(u, before);
    }
}

#[test]
fn blinker_has_period_two() {
    let blinker = grid(&["OOO"]);
    let mut u = Universe::from_figur(Area::new(5, 5), blinker).unwrap();
    let start = u.clone();
    u.tick();
    assert_ne!(u, start);
    assert_eq!(u.get((1, 2)), Some(&Cell::Alive));
    assert_eq!(u.get((2, 2)), Some(&Cell::Alive));
    assert_eq!(u.get((3, 2)), Some(&Cell::Alive));
    assert_eq!(alive_count(&u), 3);
    u.tick();
    assert_eq!(u, start);
}

#[test]
fn tick_applies_rule_everywhere() {
    // a lone cell dies, three in an L make a block
    let mut u = grid(&["O.....", "......", "...O..", "...OO.", "......", "......"]);
    u.tick();
    assert_eq!(u.get((0, 0)), Some(&Cell::Dead));
    assert_eq!(u.get((2, 4)), Some(&Cell::Alive));
    assert_eq!(alive_count(&u), 4);
}

#[test]
fn set_and_get() {
    let mut u = empty(Area::new(3, 2));
    u.set(1, 2, Cell::Alive);
    assert_eq!(u.get((1, 2)), Some(&Cell::Alive));
    assert_eq!(u.cells[5], Cell::Alive);
    assert_eq!(u.get((2, 0)), None);
    assert_eq!(u.get((0, 3)), None);
}

#[test]
fn area_helpers() {
    let a = Area::new(3, 4);
    assert_eq!(a.len(), 12);
    assert!(!a.is_empty());
    assert!(Area::new(0, 4).is_empty());
    assert_eq!(a.with_width(7u16), Area::new(7, 4));
    assert_eq!(a.with_height(1u16), Area::new(3, 1));
    assert_eq!(a.add_to_width(-2), Area::new(1, 4));
    assert_eq!(a.add_to_height(5), Area::new(3, 9));
    assert_eq!(Area::default(), Area::new(0, 0));
}

#[test]
fn cell_helpers() {
    let mut c = Cell::default();
    assert_eq!(c, Cell::Dead);
    c.toggle();
    assert_eq!(c, Cell::Alive);
    assert_eq!(Cell::from(false), Cell::Dead);
    assert_eq!(Cell::from(true), Cell::Alive);
}

#[test]
fn random_fill_follows_bits() {
    let bits = vec![true, false, false, true, true, false];
    let u = cgol_tui::shapes::random_fill(Area::new(3, 2), &bits);
    assert_eq!(u.name(), "random");
    assert_eq!(
        u.cells,
        vec![Cell::Alive, Cell::Dead, Cell::Dead, Cell::Alive, Cell::Alive, Cell::Dead]
    );
}

#[test]
fn blinker_on_top_row_wraps() {
    let mut u = grid(&[".OOO.", ".....", ".....", ".....", "....."]);
    let start = u.clone();
    u.tick();
    assert_eq!(u.get((4, 2)), Some(&Cell::Alive));
    assert_eq!(u.get((0, 2)), Some(&Cell::Alive));
    assert_eq!(u.get((1, 2)), Some(&Cell::Alive));
    assert_eq!(alive_count(&u), 3);
    u.tick();
    assert_eq!(u, start);
}
