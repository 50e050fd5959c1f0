//! The active word queue: the ordered sequence of in-flight words, each an
//! owned string with a screen column and row.  Insertion order is spawn
//! order; only the head word is eligible for keystroke matching; rows grow
//! downward from 1 at the top of the field.

use vstd::prelude::*;
use vstd::string::StrSliceExecFns;

use crate::rng::rand_in_range;

verus! {

/// A word in flight: its remaining text, its column, and its row.
pub struct ActiveWord(pub String, pub u32, pub u32);

/// Builds an active word from its text, column and row.
pub fn new_active(a: String, b: u32, c: u32) -> (r: ActiveWord)
    ensures
        r.0 == a,
        r.1 == b,
        r.2 == c,
{
    ActiveWord(a, b, c)
}

/// The mathematical image of one active word.
pub struct WordModel {
    pub text: Seq<char>,
    pub col: u32,
    pub row: u32,
}

/// The mathematical image of one queue entry.
pub open spec fn word_model(w: ActiveWord) -> WordModel {
    WordModel { text: w.0@, col: w.1, row: w.2 }
}

/// The mathematical image of the whole queue, head first.
pub open spec fn queue_model(s: Seq<ActiveWord>) -> Seq<WordModel> {
    s.map_values(|w: ActiveWord| word_model(w))
}

/// Every word one row further down.
pub open spec fn rows_advanced(l: Seq<WordModel>) -> Seq<WordModel> {
    l.map_values(|w: WordModel| WordModel { row: (w.row + 1) as u32, ..w })
}

/// The queue after the head word loses its leading character: the whole
/// word leaves when that character was its last.
pub open spec fn head_consumed(l: Seq<WordModel>) -> Seq<WordModel>
    recommends
        l.len() >= 1,
        l[0].text.len() >= 1,
{
    if l[0].text.len() == 1 {
        l.drop_first()
    } else {
        l.update(0, WordModel { text: l[0].text.drop_first(), ..l[0] })
    }
}

/// The queue after a word of the given text spawns at column `x`, row 1.
pub open spec fn spawned(l: Seq<WordModel>, text: Seq<char>, x: u32) -> Seq<WordModel> {
    l.push(WordModel { text: text, col: x, row: 1 })
}

/// The ordered collection of in-flight words.
pub struct ActiveQueue {
    pub items: Vec<ActiveWord>,
}

impl ActiveQueue {
    /// The model of this queue's contents.
    pub open spec fn model(self) -> Seq<WordModel> {
        queue_model(self.items@)
    }

    /// An empty queue.
    pub fn new() -> (r: ActiveQueue)
        ensures
            r.model() == Seq::<WordModel>::empty(),
    {
        let q = ActiveQueue { items: Vec::new() };
        proof {
            assert(q.model() =~= Seq::<WordModel>::empty());
        }
        q
    }

    /// Appends the word at a uniformly random column that keeps a margin of
    /// one cell on the left and leaves the word inside the field, at row 1.
    pub fn spawn(&mut self, word: String, field_width: u32, rng: &mut rand::rngs::StdRng) -> (x:
        u32)
        requires
            1 <= word@.len(),
            word@.len() + 2 <= field_width,
        ensures
            1 <= x,
            x + word@.len() + 1 <= field_width,
            final(self).model() == spawned(old(self).model(), word@, x),
    {
        let ghost wtext = word@;
        let len = word.as_str().unicode_len();
        assert(len + 2 <= field_width);
        let hi = field_width - (len as u32) - 1;
        let x = rand_in_range(rng, 1, hi);
        let ghost prior = self.items@;
        let w = new_active(word, x, 1);
        self.items.push(w);
        proof {
            assert(self.model() =~= spawned(queue_model(prior), wtext, x));
        }
        x
    }

    /// When the frame clock has reached the fall interval, every active word
    /// moves down one row; otherwise nothing changes.
    pub fn advance_if_due(&mut self, frame_clock: u32, fall_interval: u32)
        requires
            forall|i: int| 0 <= i < old(self).model().len() ==> old(self).model()[i].row < u32::MAX,
        ensures
            final(self).model() == if frame_clock == fall_interval {
                rows_advanced(old(self).model())
            } else {
                old(self).model()
            },
    {
        if frame_clock == fall_interval {
            let ghost prior = self.items@;
            proof {
                assert(queue_model(prior) == old(self).model());
                assert forall|j: int| 0 <= j < prior.len() implies prior[j].2 < u32::MAX by {
                    assert(old(self).model()[j].row < u32::MAX);
                    assert(queue_model(prior)[j] == word_model(prior[j]));
                }
            }
            let n = self.items.len();
            let mut i: usize = 0;
            while i < n
                invariant
                    n == self.items@.len(),
                    n == prior.len(),
                    i <= n,
                    forall|j: int| #![trigger prior[j]] 0 <= j < prior.len() ==> prior[j].2
                        < u32::MAX,
                    forall|j: int| #![trigger self.items@[j]] i <= j < n ==> self.items@[j]
                        == prior[j],
                    forall|j: int| #![trigger self.items@[j]] 0 <= j < i ==> self.items@[j].0
                        == prior[j].0 && self.items@[j].1 == prior[j].1 && self.items@[j].2
                        == prior[j].2 + 1,
                decreases n - i,
            {
                let y = self.items[i].2;
                assert(self.items@[i as int] == prior[i as int]);
                assert(y < u32::MAX);
                self.items[i].2 = y + 1;
                i = i + 1;
            }
            proof {
                assert forall|j: int|
                    0 <= j < n implies word_model(self.items@[j]) == (WordModel {
                    row: (word_model(prior[j]).row + 1) as u32,
                    ..word_model(prior[j])
                }) by {
                    assert(self.items@[j].2 == prior[j].2 + 1);
                }
                assert(self.model() =~= rows_advanced(queue_model(prior)));
            }
        }
    }

    /// Inspects the head word only: when its leading character equals the
    /// typed one, removes that character (or the whole word when it was the
    /// last) and reports the hit; otherwise leaves the queue unchanged.
    pub fn consume_leading_char(&mut self, typed: char) -> (hit: bool)
        requires
            old(self).model().len() >= 1,
            old(self).model()[0].text.len() >= 1,
        ensures
            hit == (typed == old(self).model()[0].text[0]),
            hit ==> final(self).model() == head_consumed(old(self).model()),
            !hit ==> *final(self) == *old(self),
    {
        let ghost prior = self.items@;
        let head_char = self.items[0].0.as_str().get_char(0);
        if typed == head_char {
            let hl = self.items[0].0.as_str().unicode_len();
            if hl == 1 {
                self.items.remove(0);
                proof {
                    assert(self.model() =~= head_consumed(queue_model(prior)));
                }
            } else {
                let rest = {
                    let s = self.items[0].0.as_str();
                    let sub = s.substring_char(1, hl);
                    sub.to_owned()
                };
                self.items[0].0 = rest;
                proof {
                    assert(self.model()[0].text =~= queue_model(prior)[0].text.drop_first());
                    assert(self.model() =~= head_consumed(queue_model(prior)));
                }
            }
            true
        } else {
            false
        }
    }

    /// True once the head word's row meets or exceeds the floor row.
    pub fn is_head_past_floor(&self, floor_row: u32) -> (r: bool)
        requires
            self.model().len() >= 1,
        ensures
            r == (self.model()[0].row >= floor_row),
    {
        self.items[0].2 >= floor_row
    }
}

} // verus!
