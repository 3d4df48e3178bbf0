use cgol_tui::shapes::{frame, full, stripes, ACORN, BONK_TIE, FEATHERWEIGTH_SPACESHIP, RABBITS};
use cgol_tui::{Area, Cell, Universe};

fn rows(lines: &[&str]) -> Vec<String> {
    lines.iter().map(|l| l.to_string()).collect()
}

#[test]
fn frame_test00() {
    let area = Area::new(3, 2);
    let univ = Universe::from_vec_str(&rows(&["...", "..."])).unwrap();
    let frame = frame(area);
    assert_eq!(univ.with_name("frame"), frame);
}

#[test]
fn frame_test0() {
    let area = Area::new(3, 3);
    let univ = Universe::from_vec_str(&rows(&["...", ".O.", "..."])).unwrap();
    let frame = frame(area);
    assert_eq!(univ.with_name("frame"), frame);
}

#[test]
fn frame_test1() {
    let area = Area::new(4, 4);
    let univ = Universe::from_vec_str(&rows(&["....", ".OO.", ".OO.", "...."])).unwrap();
    let frame = frame(area);
    assert_eq!(univ.with_name("frame"), frame);
}

#[test]
fn frame_test2() {
    let area = Area::new(5, 5);
    let univ =
        Universe::from_vec_str(&rows(&[".....", ".OOO.", ".O.O.", ".OOO.", "....."])).unwrap();
    let frame = frame(area);
    assert_eq!(univ.with_name("frame"), frame);
}

#[test]
fn frame_test3() {
    let area = Area::new(6, 6);
    let univ = Universe::from_vec_str(&rows(&[
        "......", ".OOOO.", ".O..O.", ".O..O.", ".OOOO.", "......",
    ]))
    .unwrap();
    let frame = frame(area);
    assert_eq!(univ.with_name("frame"), frame);
}

#[test]
fn tests_featherweight_spaceship_test() {
    let area = Area::new(3, 3);
    let m = Universe::from_str(FEATHERWEIGTH_SPACESHIP).unwrap();
    assert_eq!(m.area, area);
    let alive = [(0u8, 2u8), (1u8, 0u8), (1u8, 2u8), (2u8, 1u8), (2u8, 2u8)];
    for (r, c) in alive {
        assert_eq!(m.get((r as usize, c as usize)), Some(&Cell::Alive));
    }
    assert!(m.get((3, 3)).is_none());
    assert!(m.get((3, 4)).is_none());
    assert!(m.get((4, 3)).is_none());
}

#[test]
fn tests_rabbits_test() {
    let area = Area::new(8, 4);
    let m = Universe::from_str(RABBITS).unwrap();
    assert_eq!(m.area, area);
    let alive = [
        (0u8, 0u8),
        (0u8, 6u8),
        (1u8, 2u8),
        (1u8, 6u8),
        (2u8, 2u8),
        (2u8, 5u8),
        (2u8, 7u8),
        (3u8, 1u8),
        (3u8, 3u8),
    ];
    for (r, c) in alive {
        assert_eq!(m.get((r as usize, c as usize)), Some(&Cell::Alive));
    }
    assert!(m.get((4, 8)).is_none());
    assert!(m.get((8, 4)).is_none());
}

#[test]
fn tests_bonk_tie_test() {
    let area = Area::new(3, 5);
    let m = Universe::from_str(BONK_TIE).unwrap();
    assert_eq!(m.area, area);
    let alive = [
        (0u8, 0u8),
        (0u8, 1u8),
        (1u8, 0u8),
        (1u8, 1u8),
        (2u8, 2u8),
        (3u8, 2u8),
        (4u8, 2u8),
    ];
    for (r, c) in alive {
        assert_eq!(m.get((r as usize, c as usize)), Some(&Cell::Alive));
    }
    assert!(m.get((4, 3)).is_none());
    assert!(m.get((3, 4)).is_none());
}

#[test]
fn tests_acorn_test() {
    let area = Area::new(7, 3);
    let m = Universe::from_str(ACORN).unwrap();
    assert_eq!(m.area, area);
    let alive = [
        (0u8, 1u8),
        (1u8, 3u8),
        (2u8, 0u8),
        (2u8, 1u8),
        (2u8, 4u8),
        (2u8, 5u8),
        (2u8, 6u8),
    ];
    for (r, c) in alive {
        assert_eq!(m.get((r as usize, c as usize)), Some(&Cell::Alive));
    }
    assert!(m.get((4, 3)).is_none());
    assert!(m.get((3, 4)).is_none());
}

#[test]
fn tests_stripes_test() {
    let area = Area::new(0, 0);
    let m = stripes(area);
    assert!(m.cells.is_empty());
    assert_eq!(m.area, area);
    assert!(m.get((4, 3)).is_none());
    assert!(m.get((3, 4)).is_none());
    assert!(m.get((0, 1)).is_none());
    assert!(m.get((1, 0)).is_none());
}

#[test]
fn tests_full_test() {
    let area = Area::new(4, 3);
    let m = full(area);
    assert_eq!(m.area, area);
    assert!(m.cells.iter().all(|j| *j == Cell::Alive));
    for i in 0..m.height() - 1 {
        for j in 0..m.width() - 1 {
            assert_eq!(m.get((i as usize, j as usize)), Some(&Cell::Alive));
        }
    }
    assert!(m.get((4, 3)).is_none());
    assert!(m.get((3, 4)).is_none());
}
