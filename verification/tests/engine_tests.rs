use typemaster::EndReason;
use typemaster::GameEngine;
use typemaster::GameState;
use typemaster::Level;

fn two_word_engine(seed: u64) -> GameEngine {
    let words = vec![String::from("cat"), String::from("dog")];
    GameEngine::new(words, Level::Easy, 40, 27, seed).unwrap()
}

fn head_text(engine: &GameEngine) -> String {
    engine.list.items[0].0.clone()
}

fn head_char(engine: &GameEngine) -> char {
    engine.list.items[0].0.chars().next().unwrap()
}

/// One tick carrying the head word's current leading character.
fn type_head_char(engine: &mut GameEngine, now: u64) {
    let c = engine.next_char();
    assert_eq!(c, head_char(engine));
    engine.tick(Some(c), now);
}

#[test]
fn session_start_spawns_one_word_inside_the_field() {
    let engine = two_word_engine(7);
    assert_eq!(engine.state, GameState::Running);
    assert_eq!(engine.control, (50, 5));
    assert_eq!(engine.metrics.typed_chars, 0);
    assert_eq!(engine.list.items.len(), 1);
    let word = head_text(&engine);
    assert!(word == "cat" || word == "dog");
    let x = engine.list.items[0].1;
    assert!(1 <= x && x <= 36, "spawn column {} out of range", x);
    assert_eq!(engine.list.items[0].2, 1);
}

#[test]
fn typing_a_whole_word_consumes_it_and_spawns_the_next() {
    let mut engine = two_word_engine(7);
    let first = head_text(&engine);
    for typed in 1..=3u32 {
        type_head_char(&mut engine, 0);
        assert_eq!(engine.metrics.typed_chars, typed);
    }
    // The first word is gone and the other word of the pool is in flight.
    let second = head_text(&engine);
    assert_ne!(first, second);
    assert!(second == "cat" || second == "dog");
    assert!(!engine.list.items.is_empty());
}

#[test]
fn a_missed_keystroke_changes_nothing() {
    let mut engine = two_word_engine(7);
    let word = head_text(&engine);
    engine.tick(Some('9'), 0);
    assert_eq!(engine.metrics.typed_chars, 0);
    assert_eq!(head_text(&engine), word);
}

#[test]
fn typed_chars_grows_by_one_per_hit_and_the_queue_never_empties() {
    let mut engine = two_word_engine(42);
    for typed in 1..=120u32 {
        type_head_char(&mut engine, 0);
        assert_eq!(engine.metrics.typed_chars, typed);
        assert!(!engine.list.items.is_empty());
        assert!(!engine.list.items[0].0.is_empty());
    }
}

#[test]
fn control_pair_switches_exactly_at_the_milestone() {
    let mut engine = two_word_engine(42);
    for typed in 1..=100u32 {
        type_head_char(&mut engine, 0);
        if typed < 100 {
            assert_eq!(engine.control, (50, 5), "pair moved early, at {}", typed);
        }
    }
    assert_eq!(engine.metrics.typed_chars, 100);
    assert_eq!(engine.control, (45, 5));
}

#[test]
fn speed_readout_holds_still_within_a_window() {
    let mut engine = two_word_engine(5);
    for _ in 0..40 {
        type_head_char(&mut engine, 3);
        assert_eq!(engine.metrics.cpm, 0);
        assert_eq!(engine.metrics.wpm, 0);
    }
    assert_eq!(engine.metrics.typed_chars, 40);
}

#[test]
fn speed_readout_recomputes_at_the_window_boundary() {
    let mut engine = two_word_engine(5);
    for _ in 0..40 {
        type_head_char(&mut engine, 3);
    }
    engine.tick(None, 20);
    assert_eq!(engine.metrics.cpm, 120);
    assert_eq!(engine.metrics.wpm, 24);
    // Held constant until the next boundary.
    engine.tick(None, 25);
    engine.tick(None, 39);
    assert_eq!(engine.metrics.cpm, 120);
    assert_eq!(engine.metrics.wpm, 24);
    // Ten more characters over the next window.
    for _ in 0..10 {
        type_head_char(&mut engine, 25);
    }
    engine.tick(None, 40);
    assert_eq!(engine.metrics.cpm, 30);
    assert_eq!(engine.metrics.wpm, 6);
}

#[test]
fn modulus_spawn_fires_first_at_row_five_and_never_at_row_zero() {
    let mut engine = two_word_engine(9);
    let mut guard = 0;
    while engine.list.items.len() == 1 {
        assert!(engine.list.items[0].2 < 5);
        engine.tick(None, 0);
        guard += 1;
        assert!(guard < 1000, "no modulus spawn within 1000 ticks");
    }
    // The second word joined exactly when the head row reached 5.
    assert_eq!(engine.list.items.len(), 2);
    assert_eq!(engine.list.items[0].2, 5);
    assert_eq!(engine.list.items[1].2, 1);
}

#[test]
fn a_word_on_the_floor_ends_the_session() {
    let words = vec![String::from("cat"), String::from("dog")];
    let mut engine = GameEngine::new(words, Level::Easy, 40, 3, 1).unwrap();
    let mut guard = 0;
    let mut state = GameState::Running;
    while state == GameState::Running {
        state = engine.tick(None, 0);
        guard += 1;
        assert!(guard < 1000, "session never ended");
    }
    assert_eq!(state, GameState::Ended(EndReason::WordReachedFloor));
    assert_eq!(engine.state, GameState::Ended(EndReason::WordReachedFloor));
    assert!(engine.list.items[0].2 >= 3);
}

#[test]
fn quitting_ends_the_session_in_place() {
    let mut engine = two_word_engine(2);
    engine.quit();
    assert_eq!(engine.state, GameState::Ended(EndReason::PlayerQuit));
    assert_eq!(engine.list.items.len(), 1);
    assert_eq!(engine.metrics.typed_chars, 0);
}
