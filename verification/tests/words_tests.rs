use rand::SeedableRng;
use rand::rngs::StdRng;

use typemaster::words::wordfile_2_rand_vec;
use typemaster::words::words_from_text;

#[test]
fn splits_on_every_kind_of_whitespace() {
    assert_eq!(
        words_from_text("cat dog\nbird\tfish\r\nfox"),
        vec!["cat", "dog", "bird", "fish", "fox"]
    );
}

#[test]
fn runs_of_delimiters_yield_no_empty_words() {
    assert_eq!(words_from_text("  cat \n\n dog  \t "), vec!["cat", "dog"]);
    assert_eq!(words_from_text(""), Vec::<String>::new());
    assert_eq!(words_from_text(" \n\t\r "), Vec::<String>::new());
}

#[test]
fn a_word_open_at_the_end_of_the_text_is_kept() {
    assert_eq!(words_from_text("cat"), vec!["cat"]);
    assert_eq!(words_from_text("cat dog"), vec!["cat", "dog"]);
}

#[test]
fn the_shuffled_pool_holds_exactly_the_words_of_the_text() {
    let mut rng = StdRng::seed_from_u64(23);
    let mut pool = wordfile_2_rand_vec(&mut rng, "eins zwei drei vier fuenf");
    pool.sort();
    assert_eq!(pool, vec!["drei", "eins", "fuenf", "vier", "zwei"]);
}
