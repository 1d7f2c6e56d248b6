use baking_game::game::{Game, GameEvent};

fn progressed(n: usize) -> Vec<GameEvent> {
    vec![GameEvent::Progressed; n]
}

#[test]
fn fresh_game_starts_at_zero() {
    let g = Game::new();
    assert_eq!(g.progress, 0);
}

#[test]
fn progressed_counts_up_to_the_event_count() {
    let mut g = Game::new();
    g.handle_all(&progressed(50));
    assert_eq!(g.progress, 50);

    let mut g = Game::new();
    g.handle_all(&progressed(99));
    assert_eq!(g.progress, 99);
}

#[test]
fn one_progressed_adds_one() {
    let mut g = Game::new();
    let shown = g.handle_event(GameEvent::Progressed);
    assert_eq!(shown, 1);
    assert_eq!(g.progress, 1);
}

#[test]
fn chaos_removes_five() {
    let mut g = Game::new();
    g.handle_all(&progressed(7));
    let shown = g.handle_event(GameEvent::ChaosInflicted);
    assert_eq!(shown, 2);
    assert_eq!(g.progress, 2);
}

#[test]
fn chaos_saturates_at_zero() {
    let mut g = Game::new();
    g.handle_all(&progressed(3));
    let shown = g.handle_event(GameEvent::ChaosInflicted);
    assert_eq!(shown, 0);
    assert_eq!(g.progress, 0);

    let shown = g.handle_event(GameEvent::ChaosInflicted);
    assert_eq!(shown, 0);
    assert_eq!(g.progress, 0);
}

#[test]
fn chaos_sequence_matches_formula() {
    // From progress 40, each ChaosInflicted removes 5 until 0.
    let mut g = Game::new();
    g.handle_all(&progressed(40));
    for expected in [35, 30, 25, 20, 15, 10, 5, 0, 0usize] {
        let shown = g.handle_event(GameEvent::ChaosInflicted);
        assert_eq!(shown, expected);
        assert_eq!(g.progress, expected);
    }
}

#[test]
fn restart_resets_regardless_of_history() {
    let mut g = Game::new();
    g.handle_all(&progressed(42));
    g.handle_event(GameEvent::ChaosInflicted);
    let shown = g.handle_event(GameEvent::Restart);
    assert_eq!(shown, 0);
    assert_eq!(g.progress, 0);

    // A restart on a fresh game is also a no-op at 0.
    let mut g = Game::new();
    let shown = g.handle_event(GameEvent::Restart);
    assert_eq!(shown, 0);
    assert_eq!(g.progress, 0);
}

#[test]
fn completing_a_bake_collapses_to_zero() {
    let mut g = Game::new();
    g.handle_all(&progressed(99));
    assert_eq!(g.progress, 99);
    // The hundredth event completes the bake; the forwarded value already
    // shows the fresh cycle.
    let shown = g.handle_event(GameEvent::Progressed);
    assert_eq!(shown, 0);
    assert_eq!(g.progress, 0);
}

#[test]
fn progress_after_completion_starts_a_fresh_cycle() {
    let mut g = Game::new();
    g.handle_all(&progressed(100));
    assert_eq!(g.progress, 0);
    let shown = g.handle_event(GameEvent::Progressed);
    assert_eq!(shown, 1);
    assert_eq!(g.progress, 1);
}

#[test]
fn long_progressed_runs_wrap_at_completion() {
    let mut g = Game::new();
    g.handle_all(&progressed(250));
    assert_eq!(g.progress, 50);
}
