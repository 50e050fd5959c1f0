use rand::SeedableRng;
use rand::rngs::StdRng;

use typemaster::ActiveQueue;
use typemaster::WordSupply;
use typemaster::new_active;
use typemaster::rand_pos;

fn rng(seed: u64) -> StdRng {
    StdRng::seed_from_u64(seed)
}

#[test]
fn supply_offers_exactly_the_given_words_once_per_cycle() {
    let words = vec![
        String::from("alpha"),
        String::from("beta"),
        String::from("gamma"),
    ];
    let mut r = rng(11);
    let mut supply = WordSupply::new(words.clone(), &mut r);
    let mut seen = vec![supply.next(), supply.next(), supply.next()];
    seen.sort();
    let mut expected = words.clone();
    expected.sort();
    assert_eq!(seen, expected);
}

#[test]
fn supply_wraps_to_the_same_permutation() {
    let words = vec![String::from("cat"), String::from("dog")];
    let mut r = rng(3);
    let mut supply = WordSupply::new(words, &mut r);
    let first = supply.next();
    let second = supply.next();
    // The cursor has wrapped: the order repeats identically, unreshuffled.
    assert_eq!(supply.next(), first);
    assert_eq!(supply.next(), second);
    assert_eq!(supply.next(), first);
}

#[test]
fn spawn_places_the_word_inside_the_field_at_row_one() {
    for seed in 0..50u64 {
        let mut r = rng(seed);
        let mut q = ActiveQueue::new();
        let x = q.spawn(String::from("cat"), 40, &mut r);
        assert!(1 <= x && x <= 36);
        assert_eq!(q.items.len(), 1);
        assert_eq!(q.items[0].0, "cat");
        assert_eq!(q.items[0].1, x);
        assert_eq!(q.items[0].2, 1);
    }
}

#[test]
fn rand_pos_stays_in_range() {
    let mut r = rng(17);
    for _ in 0..200 {
        let p = rand_pos(&mut r, 5);
        assert!(1 <= p && p < 5);
    }
}

#[test]
fn consume_matches_only_the_leading_character_of_the_head() {
    let mut q = ActiveQueue {
        items: vec![new_active(String::from("cat"), 5, 1), new_active(String::from("dog"), 9, 1)],
    };
    assert!(!q.consume_leading_char('a'));
    assert!(!q.consume_leading_char('d'));
    assert_eq!(q.items[0].0, "cat");
    assert!(q.consume_leading_char('c'));
    assert_eq!(q.items[0].0, "at");
    assert!(q.consume_leading_char('a'));
    assert!(q.consume_leading_char('t'));
    // The head word left whole once its last character was consumed.
    assert_eq!(q.items.len(), 1);
    assert_eq!(q.items[0].0, "dog");
}

#[test]
fn rows_advance_only_when_the_clock_lands_on_the_interval() {
    let mut q = ActiveQueue {
        items: vec![new_active(String::from("cat"), 5, 1), new_active(String::from("dog"), 9, 1)],
    };
    q.advance_if_due(3, 50);
    assert_eq!(q.items[0].2, 1);
    assert_eq!(q.items[1].2, 1);
    q.advance_if_due(50, 50);
    assert_eq!(q.items[0].2, 2);
    assert_eq!(q.items[1].2, 2);
}

#[test]
fn floor_detection_compares_the_head_row_to_the_floor() {
    let mut q = ActiveQueue {
        items: vec![new_active(String::from("cat"), 5, 26)],
    };
    assert!(!q.is_head_past_floor(27));
    q.items[0].2 = 27;
    assert!(q.is_head_past_floor(27));
    q.items[0].2 = 28;
    assert!(q.is_head_past_floor(27));
}
