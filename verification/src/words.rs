//! Word-list input: a newline- or whitespace-delimited text resource is
//! split into its words, one candidate word per run of non-space
//! characters.  The split is specified as a left fold over the characters,
//! carrying the words found so far and the word being read.

use vstd::prelude::*;
use vstd::string::StrSliceExecFns;

use crate::rng::shuffle_in_place;

verus! {

/// The delimiters of the word list: blank, newline, carriage return, tab.
pub open spec fn spec_is_space(c: char) -> bool {
    c == ' ' || c == '\n' || c == '\t' || c == '\r'
}

/// One step of the split: a delimiter closes the word being read (if any),
/// any other character extends it.
pub open spec fn spec_split_step(
    words: Seq<Seq<char>>,
    cur: Seq<char>,
    c: char,
) -> (Seq<Seq<char>>, Seq<char>) {
    if spec_is_space(c) {
        if cur.len() > 0 {
            (words.push(cur), Seq::empty())
        } else {
            (words, cur)
        }
    } else {
        (words, cur.push(c))
    }
}

/// The split folded over the first `i` characters: the words closed so far
/// and the word still being read.
pub open spec fn spec_split_upto(s: Seq<char>, i: int) -> (Seq<Seq<char>>, Seq<char>)
    decreases i,
{
    if i <= 0 {
        (Seq::empty(), Seq::empty())
    } else {
        let prev = spec_split_upto(s, i - 1);
        spec_split_step(prev.0, prev.1, s[i - 1])
    }
}

/// The words of a whitespace-delimited text, in order of appearance; a
/// word still open at the end of the text is closed by it.
pub open spec fn spec_split_ws(s: Seq<char>) -> Seq<Seq<char>> {
    let fin = spec_split_upto(s, s.len() as int);
    if fin.1.len() > 0 {
        fin.0.push(fin.1)
    } else {
        fin.0
    }
}

/// No closed word is empty, and every closed word at step `i` is a word at
/// every later step too.
proof fn lemma_split_upto_words_nonempty(s: Seq<char>, i: int)
    requires
        0 <= i <= s.len(),
    ensures
        forall|k: int|
            0 <= k < spec_split_upto(s, i).0.len() ==> #[trigger] spec_split_upto(s, i).0[k].len()
                >= 1,
    decreases i,
{
    if i > 0 {
        lemma_split_upto_words_nonempty(s, i - 1);
        let prev = spec_split_upto(s, i - 1);
        let cur = spec_split_upto(s, i);
        assert forall|k: int| 0 <= k < cur.0.len() implies #[trigger] cur.0[k].len() >= 1 by {
            if spec_is_space(s[i - 1]) && prev.1.len() > 0 {
                if k < prev.0.len() {
                    assert(prev.0[k].len() >= 1);
                } else {
                    assert(cur.0[k] == prev.1);
                }
            } else {
                assert(cur.0 == prev.0);
                assert(prev.0[k].len() >= 1);
            }
        }
    }
}

/// Every word of the split is non-empty.
pub proof fn lemma_split_words_nonempty(s: Seq<char>)
    ensures
        forall|k: int|
            0 <= k < spec_split_ws(s).len() ==> #[trigger] spec_split_ws(s)[k].len() >= 1,
{
    lemma_split_upto_words_nonempty(s, s.len() as int);
}

/// Splits a whitespace-delimited text into its words, each an owned
/// string, in order of appearance; no word is empty.
pub fn words_from_text(text: &str) -> (r: Vec<String>)
    ensures
        r.deep_view() == spec_split_ws(text@),
        forall|k: int| 0 <= k < r.deep_view().len() ==> #[trigger] r.deep_view()[k].len() >= 1,
{
    let n = text.unicode_len();
    let mut words: Vec<String> = Vec::new();
    let mut start: usize = 0;
    let mut i: usize = 0;
    while i < n
        invariant
            n == text@.len(),
            0 <= start <= i <= n,
            words.deep_view() == spec_split_upto(text@, i as int).0,
            spec_split_upto(text@, i as int).1 == text@.subrange(start as int, i as int),
        decreases n - i,
    {
        let c = text.get_char(i);
        if c == ' ' || c == '\n' || c == '\t' || c == '\r' {
            if start < i {
                let word = text.substring_char(start, i).to_owned();
                words.push(word);
                proof {
                    assert(words.deep_view() =~= spec_split_upto(text@, i + 1).0);
                }
            }
            start = i + 1;
            proof {
                assert(spec_split_upto(text@, i + 1).1 =~= text@.subrange(
                    start as int,
                    i + 1 as int,
                ));
            }
        } else {
            proof {
                assert(text@.subrange(start as int, i + 1) =~= text@.subrange(
                    start as int,
                    i as int,
                ).push(text@[i as int]));
            }
        }
        i = i + 1;
    }
    if start < n {
        let word = text.substring_char(start, n).to_owned();
        words.push(word);
        proof {
            assert(words.deep_view() =~= spec_split_ws(text@));
        }
    } else {
        proof {
            assert(spec_split_upto(text@, n as int).1.len() == 0);
            assert(words.deep_view() =~= spec_split_ws(text@));
        }
    }
    proof {
        lemma_split_words_nonempty(text@);
    }
    words
}

/// Splits the word-list text and shuffles the words once: the pool a fresh
/// session draws from, holding exactly the words of the text.
pub fn wordfile_2_rand_vec(rng: &mut rand::rngs::StdRng, text: &str) -> (r: Vec<String>)
    ensures
        r.deep_view().len() == spec_split_ws(text@).len(),
        r.deep_view().to_multiset() == spec_split_ws(text@).to_multiset(),
    {
    let mut words = words_from_text(text);
    shuffle_in_place(rng, &mut words);
    words
}

} // verus!
