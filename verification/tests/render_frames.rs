use baking_game::render::{Frame, ProgressBar};

fn count_lit(bar: &ProgressBar) -> usize {
    let mut n = 0;
    for y in 0..5 {
        for x in 0..5 {
            if bar.frame.lit(x, y) {
                n += 1;
            }
        }
    }
    n
}

fn frames_equal(a: &ProgressBar, b: &ProgressBar) -> bool {
    for y in 0..5 {
        for x in 0..5 {
            if a.frame.lit(x, y) != b.frame.lit(x, y) {
                return false;
            }
        }
    }
    true
}

#[test]
fn fresh_renderer_shows_nothing() {
    let pb = ProgressBar::new();
    assert_eq!(count_lit(&pb), 0);
}

#[test]
fn zero_progress_lights_no_cell() {
    let mut pb = ProgressBar::new();
    pb.render(0);
    assert_eq!(count_lit(&pb), 0);
}

#[test]
fn progress_52_lights_13_cells() {
    let mut pb = ProgressBar::new();
    pb.render(52);
    assert_eq!(count_lit(&pb), 13);
}

#[test]
fn full_progress_lights_the_whole_grid() {
    let mut pb = ProgressBar::new();
    pb.render(100);
    assert_eq!(count_lit(&pb), 25);
}

#[test]
fn lit_cells_form_a_row_major_prefix() {
    let mut pb = ProgressBar::new();
    // 23 / 4 = 5 lit cells: the whole first row, then nothing.
    pb.render(23);
    for x in 0..5 {
        assert!(pb.frame.lit(x, 0));
    }
    assert!(!pb.frame.lit(0, 1));
    assert_eq!(count_lit(&pb), 5);

    // 30 / 4 = 7 lit cells: first row and two cells of the second.
    pb.render(30);
    assert!(pb.frame.lit(0, 1));
    assert!(pb.frame.lit(1, 1));
    assert!(!pb.frame.lit(2, 1));
    assert_eq!(count_lit(&pb), 7);
}

#[test]
fn rendering_is_idempotent() {
    let mut a = ProgressBar::new();
    let mut b = ProgressBar::new();
    a.render(52);
    b.render(52);
    assert!(frames_equal(&a, &b));
    a.render(52);
    assert!(frames_equal(&a, &b));
}

#[test]
fn rendering_overwrites_any_residual_state() {
    let mut a = ProgressBar::new();
    let mut b = ProgressBar::new();
    a.render(100);
    a.render(8);
    b.render(8);
    assert!(frames_equal(&a, &b));
    assert_eq!(count_lit(&a), 2);
}

#[test]
fn frame_set_unset_and_lit_agree() {
    let mut f = Frame::empty();
    assert!(!f.lit(3, 2));
    f.set(3, 2);
    assert!(f.lit(3, 2));
    assert!(!f.lit(2, 3));
    f.unset(3, 2);
    assert!(!f.lit(3, 2));
}
