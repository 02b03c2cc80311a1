use arkanoid::display::{
    first_suitable, relaxed_vsync, resized, surface_size, FrameTicks, MAX_TICKS_PER_FRAME,
};

#[test]
fn a_surface_is_never_empty() {
    assert_eq!(surface_size(800, 600), (800, 600));
    assert_eq!(surface_size(0, 600), (1, 600));
    assert_eq!(surface_size(800, 0), (800, 1));
}

#[test]
fn a_minimized_window_keeps_its_surface() {
    assert_eq!(resized(1024, 768), Some((1024, 768)));
    assert_eq!(resized(0, 768), None);
    assert_eq!(resized(1024, 0), None);
}

#[test]
fn the_first_suitable_choice_is_taken_or_the_first_of_all() {
    assert_eq!(first_suitable(&vec![false, true, true]), 1);
    assert_eq!(first_suitable(&vec![true, false]), 0);
    assert_eq!(first_suitable(&vec![false, false]), 0);
}

#[test]
fn relaxed_vsync_is_taken_where_it_is_offered() {
    assert!(relaxed_vsync(&vec![false, true, false]));
    assert!(!relaxed_vsync(&vec![false, false]));
    assert!(!relaxed_vsync(&vec![]));
}

#[test]
fn a_frame_runs_due_ticks_up_to_its_most() {
    let mut ticks = FrameTicks::default();
    for _ in 0..3 {
        assert!(ticks.next(true));
    }
    assert!(!ticks.next(false));
    assert_eq!(ticks.run, 3);
    assert!(!ticks.exhausted());
    for _ in 3..MAX_TICKS_PER_FRAME {
        assert!(ticks.next(true));
    }
    assert!(!ticks.next(true));
    assert_eq!(ticks.run, 10);
    assert!(ticks.exhausted());
}
