use typemaster::Level;
use typemaster::is_milestone;
use typemaster::modify_difficulty;
use typemaster::Page;
use typemaster::Lang;

#[test]
fn control_table_session_start_rows() {
    assert_eq!(Level::Easy.control(0), (50, 5));
    assert_eq!(Level::Normal.control(0), (40, 5));
    assert_eq!(Level::Hard.control(0), (30, 5));
}

#[test]
fn control_table_easy_row() {
    assert_eq!(Level::Easy.control(100), (45, 5));
    assert_eq!(Level::Easy.control(200), (40, 5));
    assert_eq!(Level::Easy.control(300), (40, 4));
    assert_eq!(Level::Easy.control(500), (35, 4));
    assert_eq!(Level::Easy.control(800), (30, 3));
    assert_eq!(Level::Easy.control(1500), (25, 3));
    assert_eq!(Level::Easy.control(2000), (20, 3));
    assert_eq!(Level::Easy.control(3000), (15, 3));
    assert_eq!(Level::Easy.control(4000), (14, 3));
    assert_eq!(Level::Easy.control(5000), (12, 3));
}

#[test]
fn control_table_normal_and_hard_rows() {
    assert_eq!(Level::Normal.control(100), (35, 5));
    assert_eq!(Level::Normal.control(800), (20, 3));
    assert_eq!(Level::Normal.control(5000), (10, 3));
    assert_eq!(Level::Hard.control(100), (25, 5));
    assert_eq!(Level::Hard.control(800), (15, 3));
    assert_eq!(Level::Hard.control(4000), (9, 3));
    assert_eq!(Level::Hard.control(5000), (8, 3));
}

#[test]
fn control_out_of_table_falls_back_to_fastest_pair() {
    assert_eq!(Level::Easy.control(7), (8, 3));
    assert_eq!(Level::Normal.control(123), (8, 3));
    assert_eq!(Level::Hard.control(6000), (8, 3));
}

#[test]
fn modify_difficulty_matches_the_level_table() {
    assert_eq!(modify_difficulty(1, 100), Some((45, 5)));
    assert_eq!(modify_difficulty(1, 5000), Some((12, 3)));
    assert_eq!(modify_difficulty(2, 800), Some((20, 3)));
    assert_eq!(modify_difficulty(3, 4000), Some((9, 3)));
}

#[test]
fn modify_difficulty_is_undefined_off_the_table() {
    assert_eq!(modify_difficulty(1, 0), None);
    assert_eq!(modify_difficulty(1, 150), None);
    assert_eq!(modify_difficulty(0, 100), None);
    assert_eq!(modify_difficulty(4, 100), None);
}

#[test]
fn milestones_are_exactly_the_fixed_thresholds() {
    for t in [0u32, 100, 200, 300, 500, 800, 1500, 2000, 3000, 4000, 5000] {
        assert!(is_milestone(t));
    }
    for t in [1u32, 99, 101, 450, 4999, 5001, 10000] {
        assert!(!is_milestone(t));
    }
}

#[test]
fn level_switch_cycles() {
    assert_eq!(Level::Easy.switch(), Level::Normal);
    assert_eq!(Level::Normal.switch(), Level::Hard);
    assert_eq!(Level::Hard.switch(), Level::Easy);
}

#[test]
fn level_names() {
    assert_eq!(Level::Easy.to_str(), "Easy");
    assert_eq!(Level::Normal.to_str(), "Normal");
    assert_eq!(Level::Hard.to_str(), "Hard");
}

#[test]
fn esc_quits_from_welcome_and_returns_to_it_from_elsewhere() {
    assert_eq!(Page::Welcome.esc(), Page::Quit);
    assert_eq!(Page::Licence.esc(), Page::Welcome);
    assert_eq!(Page::Main.esc(), Page::Welcome);
    assert_eq!(Page::Quit.esc(), Page::Welcome);
}

#[test]
fn lang_switch_and_names() {
    assert_eq!(Lang::En.switch(), Lang::Su);
    assert_eq!(Lang::Su.switch(), Lang::En);
    assert_eq!(Lang::En.to_str(), "English");
    assert_eq!(Lang::Su.to_str(), "Finnish");
}
