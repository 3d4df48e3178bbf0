use cgol_tui::shapes::{
    acorn, bonk_tie, copperhead, featherweigth_spaceship, full, get, gosper_glider_gun, rabbits,
    stripes, HandleError, COPPERHEAD, GOSPER_GLIDER_GUN, N,
};
use cgol_tui::{Area, Cell, Universe};

#[test]
fn get_test() {
    let area = Area::new(40, 40);
    for i in 0..N {
        assert!(get(area, i).is_ok());
    }
    assert!(get(area, N).is_err());
}

#[test]
fn shapes_featherweight_spaceship_test() {
    let area = Area::new(3, 3);
    let m = Universe::from_vec_str(&featherweigth_spaceship()).unwrap();
    assert_eq!(m.area, area);
    let alive = [(0u8, 2u8), (1u8, 0u8), (1u8, 2u8), (2u8, 1u8), (2u8, 2u8)];
    for (r, c) in alive {
        assert_eq!(m.get((r as usize, c as usize)), Some(&Cell::Alive));
    }
    assert!(m.get((3, 3)).is_none());
    assert!(m.get((3, 4)).is_none());
    assert!(m.get((4, 3)).is_none());
}

#[test]
fn shapes_rabbits_test() {
    let area = Area::new(8, 4);
    let m = Universe::from_vec_str(&rabbits()).unwrap();
    assert_eq!(m.area, area);
    let alive = [
        (0u8, 0u8),
        (0u8, 6u8),
        (1u8, 2u8),
        (1u8, 6u8),
        (2u8, 2u8),
        (2u8, 5u8),
        (2u8, 7u8),
        (3u8, 1u8),
        (3u8, 3u8),
    ];
    for (r, c) in alive {
        assert_eq!(m.get((r as usize, c as usize)), Some(&Cell::Alive));
    }
    assert!(m.get((4, 8)).is_none());
    assert!(m.get((8, 4)).is_none());
}

#[test]
fn shapes_bonk_tie_test() {
    let area = Area::new(3, 5);
    let m = Universe::from_vec_str(&bonk_tie()).unwrap();
    assert_eq!(m.area, area);
    let alive = [
        (0u8, 0u8),
        (0u8, 1u8),
        (1u8, 0u8),
        (1u8, 1u8),
        (2u8, 2u8),
        (3u8, 2u8),
        (4u8, 2u8),
    ];
    for (r, c) in alive {
        assert_eq!(m.get((r as usize, c as usize)), Some(&Cell::Alive));
    }
    assert!(m.get((4, 3)).is_none());
    assert!(m.get((3, 4)).is_none());
}

#[test]
fn shapes_acorn_test() {
    let area = Area::new(7, 3);
    let m = Universe::from_vec_str(&acorn()).unwrap();
    assert_eq!(m.area, area);
    let alive = [
        (0u8, 1u8),
        (1u8, 3u8),
        (2u8, 0u8),
        (2u8, 1u8),
        (2u8, 4u8),
        (2u8, 5u8),
        (2u8, 6u8),
    ];
    for (r, c) in alive {
        assert_eq!(m.get((r as usize, c as usize)), Some(&Cell::Alive));
    }
    assert!(m.get((4, 3)).is_none());
    assert!(m.get((3, 4)).is_none());
}

#[test]
fn shapes_stripes_test() {
    let area = Area::new(0, 0);
    let m = stripes(area);
    assert!(m.cells.is_empty());
    assert_eq!(m.area, area);
    assert!(m.get((4, 3)).is_none());
    assert!(m.get((3, 4)).is_none());
    assert!(m.get((0, 1)).is_none());
    assert!(m.get((1, 0)).is_none());
}

#[test]
fn shapes_full_test() {
    let area = Area::new(4, 3);
    let m = full(area);
    assert_eq!(m.area, area);
    assert!(m.cells.iter().all(|j| *j == Cell::Alive));
    for i in 0..m.height() - 1 {
        for j in 0..m.width() - 1 {
            assert_eq!(m.get((i as usize, j as usize)), Some(&Cell::Alive));
        }
    }
    assert!(m.get((4, 3)).is_none());
    assert!(m.get((3, 4)).is_none());
}

#[test]
fn catalog_index_past_end_is_out_of_range() {
    let area = Area::new(40, 40);
    assert_eq!(get(area, N), Err(HandleError::OutOfRange));
    assert_eq!(get(area, N + 7), Err(HandleError::OutOfRange));
}

#[test]
fn catalog_pattern_too_big_for_area() {
    // the Gosper glider gun is 36 cells wide
    assert_eq!(get(Area::new(20, 20), 1), Err(HandleError::TooBig));
    assert!(get(Area::new(36, 9), 1).is_ok());
}

#[test]
fn catalog_names_follow_patterns() {
    let area = Area::new(40, 40);
    assert_eq!(get(area, 0).unwrap().name(), "Glider");
    assert_eq!(get(area, 1).unwrap().name(), "Gosper glider gun");
    assert_eq!(get(area, 6).unwrap().name(), "full");
    assert_eq!(get(area, 7).unwrap().name(), "frame");
    assert_eq!(get(area, 8).unwrap().name(), "random");
    assert_eq!(get(area, 9).unwrap().name(), "stripes");
}

#[test]
fn random_fill_has_area_size() {
    let area = Area::new(7, 5);
    let m = get(area, 8).unwrap();
    assert_eq!(m.area, area);
    assert_eq!(m.cells.len(), 35);
}

#[test]
fn stripes_even_or_multiple_of_seven() {
    let m = stripes(Area::new(3, 3));
    let alive: Vec<usize> = (0..9).filter(|&i| m.cells[i] == Cell::Alive).collect();
    assert_eq!(alive, vec![0, 2, 4, 6, 7, 8]);
    assert_eq!(m.name(), "stripes");
}

#[test]
fn builtin_rows_match_text_patterns() {
    let a = Universe::from_vec_str(&copperhead()).unwrap();
    let b = Universe::from_str(COPPERHEAD).unwrap();
    assert_eq!(a.area, b.area);
    assert_eq!(a.cells, b.cells);
    let a = Universe::from_vec_str(&gosper_glider_gun()).unwrap();
    let b = Universe::from_str(GOSPER_GLIDER_GUN).unwrap();
    assert_eq!(a.area, Area::new(36, 9));
    assert_eq!(a.cells, b.cells);
}

#[test]
fn all_parses_every_builtin() {
    let v = cgol_tui::shapes::all();
    assert_eq!(v.len(), 6);
    assert_eq!(v[0].name(), "Glider");
    assert_eq!(v[5].name(), "Acorn");
}
