//! The word supply: the pool of candidate words, shuffled once per session,
//! handed out in shuffle order by a wrapping cursor.  The permutation is not
//! redrawn when the cursor wraps, so the order repeats identically every
//! cycle, and no word is ever removed from the backing list.

use vstd::prelude::*;
use vstd::seq_lib::group_to_multiset_ensures;

use crate::rng::shuffle_in_place;

verus! {

/// Every element of `b` satisfies `p` whenever every element of `a` does and
/// the two sequences hold the same multiset of elements; this carries
/// element-wise facts across a shuffle.
pub proof fn lemma_multiset_keeps_elementwise<T>(a: Seq<T>, b: Seq<T>, p: spec_fn(T) -> bool)
    requires
        a.to_multiset() == b.to_multiset(),
        forall|i: int| 0 <= i < a.len() ==> #[trigger] p(a[i]),
    ensures
        forall|i: int| 0 <= i < b.len() ==> #[trigger] p(b[i]),
{
    broadcast use group_to_multiset_ensures;

    assert forall|i: int| 0 <= i < b.len() implies #[trigger] p(b[i]) by {
        assert(b.contains(b[i]));
        assert(b.to_multiset().count(b[i]) > 0);
        assert(a.contains(b[i]));
        let j = choose|j: int| 0 <= j < a.len() && a[j] == b[i];
        assert(p(a[j]));
    }
}

/// The shuffled pool of candidate words and the cursor of the next one.
pub struct WordSupply {
    pub words: Vec<String>,
    pub cursor: usize,
}

impl WordSupply {
    /// The pool is non-empty, the cursor is in range, and no word is empty.
    pub open spec fn wf(self) -> bool {
        &&& self.words@.len() >= 1
        &&& self.cursor < self.words@.len()
        &&& forall|i: int| 0 <= i < self.words@.len() ==> self.words@[i]@.len() >= 1
    }

    /// Shuffles the full word list once and places the cursor at its start.
    /// The shuffle keeps the multiset of words, so the pool offers exactly
    /// the words it was given.
    pub fn new(word_list: Vec<String>, rng: &mut rand::rngs::StdRng) -> (r: WordSupply)
        requires
            word_list@.len() >= 1,
            forall|i: int| 0 <= i < word_list@.len() ==> word_list@[i]@.len() >= 1,
        ensures
            r.wf(),
            r.cursor == 0,
            r.words@.len() == word_list@.len(),
            r.words.deep_view().to_multiset() == word_list.deep_view().to_multiset(),
    {
        let mut words = word_list;
        shuffle_in_place(rng, &mut words);
        proof {
            let nonempty = (|w: Seq<char>| w.len() >= 1);
            assert(forall|i: int|
                0 <= i < word_list.deep_view().len() ==> #[trigger] nonempty(
                    word_list.deep_view()[i],
                ));
            lemma_multiset_keeps_elementwise(word_list.deep_view(), words.deep_view(), nonempty);
            assert forall|i: int| 0 <= i < words@.len() implies #[trigger] words@[i]@.len()
                >= 1 by {
                assert(nonempty(words.deep_view()[i]));
            }
        }
        WordSupply { words, cursor: 0 }
    }

    /// The word the cursor points at, which `next` will hand out.
    pub open spec fn spec_peek(self) -> Seq<char> {
        self.words@[self.cursor as int]@
    }

    /// Returns the next word in shuffle order and advances the cursor,
    /// wrapping to the start of the pool when it exhausts the list.
    pub fn next(&mut self) -> (r: String)
        requires
            old(self).wf(),
        ensures
            final(self).wf(),
            r@ == old(self).spec_peek(),
            final(self).words == old(self).words,
            final(self).cursor == if old(self).cursor + 1 == old(self).words@.len() {
                0int
            } else {
                old(self).cursor + 1
            },
    {
        let w = self.words[self.cursor].clone();
        let n = self.words.len();
        assert(self.cursor < n);
        self.cursor = if self.cursor + 1 == n {
            0
        } else {
            self.cursor + 1
        };
        w
    }
}

} // verus!
