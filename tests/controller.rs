use cgol_tui::playback::{Playback, DEF_DUR};
use cgol_tui::shapes::{HandleError, N_SPECIAL};
use cgol_tui::{App, Area, Universe};

fn pattern(text: &str) -> Universe {
    Universe::from_str(text).unwrap()
}

fn app() -> App {
    let v = vec![pattern("!Name: dot\nO"), pattern("!Name: wide\nOOOOOOOOOO")];
    App::new(Area::new(6, 6), v, DEF_DUR)
}

#[test]
fn play_pause_twice_restores_interval() {
    let mut a = app();
    a.faster(false);
    let before = a.poll_t();
    a.play_pause();
    assert!(a.paused());
    assert_eq!(a.poll_t(), None);
    a.play_pause();
    assert!(!a.paused());
    assert_eq!(a.poll_t(), before);
}

#[test]
fn speed_steps() {
    let mut a = app();
    a.faster(false);
    assert_eq!(a.poll_t(), Some(320_000_000));
    a.faster(true);
    assert_eq!(a.poll_t(), Some(160_000_000));
    a.slower(true);
    assert_eq!(a.poll_t(), Some(240_000_000));
    a.slower(false);
    assert_eq!(a.poll_t(), Some(288_000_000));
    a.play_pause();
    a.faster(true);
    a.slower(false);
    a.play_pause();
    assert_eq!(a.poll_t(), Some(288_000_000));
}

#[test]
fn speed_never_reaches_zero_or_overflows() {
    let mut a = App::new(Area::new(3, 3), vec![pattern("O")], 1);
    a.faster(true);
    assert_eq!(a.poll_t(), Some(1));
    let mut b = App::new(Area::new(3, 3), vec![pattern("O")], u64::MAX);
    b.slower(false);
    assert_eq!(b.poll_t(), Some(DEF_DUR));
    let mut c = App::new(Area::new(3, 3), vec![pattern("O")], 0);
    c.slower(true);
    assert_eq!(c.poll_t(), Some(DEF_DUR));
}

#[test]
fn next_then_prev_returns() {
    let mut a = app();
    let n = a.len();
    assert_eq!(n, 2 + N_SPECIAL);
    for start in 0..n {
        while a.index() != start {
            let _ = a.next();
        }
        let _ = a.next();
        let _ = a.prev();
        assert_eq!(a.index(), start);
    }
}

#[test]
fn navigation_wraps() {
    let mut a = app();
    assert_eq!(a.index(), 0);
    let _ = a.prev();
    assert_eq!(a.index(), a.len() - 1);
    let _ = a.next();
    assert_eq!(a.index(), 0);
}

#[test]
fn too_big_entry_keeps_grid() {
    let mut a = app();
    assert!(a.restart().is_ok());
    let before = a.universe().clone();
    assert_eq!(a.next(), Err(HandleError::TooBig));
    assert_eq!(a.index(), 1);
    assert_eq!(a.universe(), &before);
    assert!(a.next().is_ok());
    assert_eq!(a.universe().name(), "full");
    assert_eq!(a.universe().area, Area::new(6, 6));
}

#[test]
fn resize_regenerates() {
    let mut a = app();
    let _ = a.next();
    assert!(a.resize(Area::new(12, 3)).is_ok());
    assert_eq!(a.universe().name(), "wide");
    assert_eq!(a.universe().area, Area::new(12, 3));
    assert_eq!(a.area(), Area::new(12, 3));
}

#[test]
fn tick_is_a_no_op_while_paused() {
    let v = vec![pattern("OOO")];
    let mut a = App::new(Area::new(5, 5), v, DEF_DUR);
    assert!(a.restart().is_ok());
    let start = a.universe().clone();
    a.play_pause();
    a.tick();
    assert_eq!(a.universe(), &start);
    a.play_pause();
    a.tick();
    assert_ne!(a.universe(), &start);
}

#[test]
fn reset_returns_to_default() {
    let mut a = App::default().with_universes(vec![pattern("O")]);
    assert_eq!(a.len(), 7 + N_SPECIAL);
    let _ = a.next();
    a.play_pause();
    a.reset();
    assert_eq!(a.index(), 0);
    assert_eq!(a.poll_t(), Some(DEF_DUR));
    assert_eq!(a.area(), Area::default());
    assert_eq!(a.len(), 6 + N_SPECIAL);
    assert!(!a.is_empty());
}

#[test]
fn get_returns_current_entry() {
    let a = app();
    assert_eq!(a.get().name(), "dot");
    assert_eq!(a.available_universes().len(), 2);
    assert_eq!(Playback::Running(5), Playback::Running(5));
}

#[test]
fn with_universes_puts_patterns_ahead_of_builtins() {
    let a = app().with_universes(vec![pattern("!Name: mine\nOO")]);
    let names: Vec<String> = a.available_universes().iter().map(|u| u.name()).collect();
    assert_eq!(
        names,
        vec!["mine", "Glider", "Gosper glider gun", "Copperhead", "Rabbits", "Bonk tie", "Acorn"]
    );
    assert_eq!(a.index(), 0);
    assert_eq!(a.area(), Area::new(6, 6));
    assert_eq!(a.poll_t(), Some(DEF_DUR));
}
