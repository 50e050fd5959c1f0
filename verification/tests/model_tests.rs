use typemaster::ConfigError;
use typemaster::EndReason;
use typemaster::GameState;
use typemaster::Lang;
use typemaster::Level;
use typemaster::Model;
use typemaster::Page;

fn words(list: &[&str]) -> Vec<String> {
    list.iter().map(|w| String::from(*w)).collect()
}

#[test]
fn default_shell_state() {
    let model = Model::default();
    assert_eq!(model.page, Page::Welcome);
    assert_eq!(model.lang, Lang::En);
    assert_eq!(model.level, Level::Easy);
    assert_eq!(model.highscore, (0, 0));
    assert_eq!(model.width, 124);
    assert_eq!(model.height, 32);
    assert!(model.game.is_none());
}

#[test]
fn starting_a_session_turns_to_the_main_page() {
    let mut model = Model::default();
    let r = model.start_game(words(&["cat", "dog"]), 7);
    assert!(r.is_ok());
    assert_eq!(model.page, Page::Main);
    let game = model.game.as_ref().unwrap();
    assert_eq!(game.state, GameState::Running);
    assert_eq!(game.control, (50, 5));
    assert_eq!(game.list.items.len(), 1);
}

#[test]
fn an_empty_word_list_is_refused() {
    let mut model = Model::default();
    assert_eq!(model.start_game(words(&[]), 7), Err(ConfigError::EmptyWordList));
    assert_eq!(model.page, Page::Welcome);
    assert!(model.game.is_none());
}

#[test]
fn an_empty_word_is_refused() {
    let mut model = Model::default();
    assert_eq!(model.start_game(words(&["cat", ""]), 7), Err(ConfigError::EmptyWord));
}

#[test]
fn a_word_wider_than_the_field_is_refused() {
    let mut model = Model::default();
    model.width = 6;
    assert_eq!(model.start_game(words(&["toowide"]), 7), Err(ConfigError::WordTooWide));
}

#[test]
fn a_field_too_short_to_fall_through_is_refused() {
    let mut model = Model::default();
    model.height = 4;
    assert_eq!(model.start_game(words(&["cat"]), 7), Err(ConfigError::FieldTooShort));
}

#[test]
fn letters_feed_the_engine_and_the_high_score() {
    let mut model = Model::default();
    model.start_game(words(&["cat", "dog"]), 7).unwrap();
    let c = model.game.as_ref().unwrap().list.items[0].0.chars().next().unwrap();
    model.letter(c, 0);
    assert_eq!(model.game.as_ref().unwrap().metrics.typed_chars, 1);
    assert_eq!(model.highscore.0, 1);
    // A miss leaves both alone.
    model.letter('9', 0);
    assert_eq!(model.game.as_ref().unwrap().metrics.typed_chars, 1);
    assert_eq!(model.highscore.0, 1);
}

#[test]
fn the_high_score_only_grows() {
    let mut model = Model::default();
    model.highscore = (50, 0);
    model.start_game(words(&["cat", "dog"]), 7).unwrap();
    let c = model.game.as_ref().unwrap().list.items[0].0.chars().next().unwrap();
    model.letter(c, 0);
    assert_eq!(model.highscore.0, 50);
}

#[test]
fn a_session_that_ends_on_the_floor_returns_to_the_welcome_page() {
    let mut model = Model::default();
    model.height = 6;
    model.start_game(words(&["cat", "dog"]), 1).unwrap();
    let mut guard = 0;
    while model.page == Page::Main {
        model.step_game(0);
        guard += 1;
        assert!(guard < 1000, "session never ended");
    }
    assert_eq!(model.page, Page::Welcome);
    let game = model.game.as_ref().unwrap();
    assert_eq!(game.state, GameState::Ended(EndReason::WordReachedFloor));
}

#[test]
fn quitting_a_session_returns_to_the_welcome_page() {
    let mut model = Model::default();
    model.start_game(words(&["cat", "dog"]), 7).unwrap();
    model.quit_session();
    assert_eq!(model.page, Page::Welcome);
    let game = model.game.as_ref().unwrap();
    assert_eq!(game.state, GameState::Ended(EndReason::PlayerQuit));
}
