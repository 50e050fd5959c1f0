//! The game engine: the per-tick state machine of one play session.  Each
//! tick runs, in fixed order, the metrics window check, the frame-clock and
//! row advance, the spawn-trigger evaluation, the keystroke consumption with
//! its schedule re-check, and the floor detection.

use vstd::prelude::*;
use vstd::string::StrSliceExecFns;

use crate::metrics::MetricsTracker;
use crate::queue::ActiveQueue;
use crate::queue::WordModel;
use crate::queue::head_consumed;
use crate::queue::rows_advanced;
use crate::queue::spawned;
use crate::rng::seeded_rng;
use crate::schedule::Level;
use crate::schedule::is_milestone;
use crate::schedule::lemma_control_bounds;
use crate::schedule::spec_control;
use crate::schedule::spec_is_milestone;
use crate::supply::WordSupply;
use crate::supply::lemma_multiset_keeps_elementwise;

verus! {

/// Why a session ended.
#[derive(Clone, Copy, PartialEq, Eq, Structural, Debug)]
pub enum EndReason {
    PlayerQuit,
    WordReachedFloor,
}

/// The session state machine: `Running` from session start until a terminal
/// transition; no transition leaves `Ended`.
#[derive(Clone, Copy, PartialEq, Eq, Structural, Debug)]
pub enum GameState {
    Running,
    Ended(EndReason),
}

/// A configuration the engine refuses to start a session on.
#[derive(Clone, Copy, PartialEq, Eq, Structural, Debug)]
pub enum ConfigError {
    /// The word list holds no words at all.
    EmptyWordList,
    /// The word list holds an empty string.
    EmptyWord,
    /// Some word cannot fit in the field with a margin cell on each side.
    WordTooWide,
    /// The floor row leaves no room for a word to fall from row 1.
    FieldTooShort,
}

/// A configuration the engine accepts: at least one word, no empty word,
/// every word narrow enough for the field, and a floor below the spawn row.
pub open spec fn spec_config_ok(words: Seq<Seq<char>>, width: u32, floor_row: u32) -> bool {
    &&& words.len() >= 1
    &&& forall|i: int| 0 <= i < words.len() ==> #[trigger] words[i].len() >= 1
    &&& forall|i: int| 0 <= i < words.len() ==> #[trigger] words[i].len() + 2 <= width
    &&& floor_row >= 2
}

/// One play session: the word supply, the active queue, the installed
/// control pair, the frame clock, the metrics, and the state machine.
pub struct GameEngine {
    /// The session's random stream, seeded at construction.
    pub rng: rand::rngs::StdRng,
    /// The shuffled word pool.
    pub supply: WordSupply,
    /// The in-flight words, spawn order, head first.
    pub list: ActiveQueue,
    /// The difficulty level the schedule is consulted at.
    pub level: Level,
    /// The installed `(fall_interval, row_modulus)` pair.
    pub control: (u32, u32),
    /// The frame clock, cycling through `0 ..= fall_interval`.
    pub frame_count: u32,
    /// Typed-character count and speed readout.
    pub metrics: MetricsTracker,
    /// The width of the play field in columns.
    pub width: u32,
    /// The row at which a word has reached the floor.
    pub floor_row: u32,
    /// Whether the session is still running.
    pub state: GameState,
}

impl GameEngine {
    /// The queue's structural invariant: non-empty texts, words inside the
    /// field, rows between the spawn row and the floor, rows non-increasing
    /// from head to tail, and, while running, a non-empty queue strictly
    /// above the floor.
    pub open spec fn queue_wf(self) -> bool {
        let q = self.list.model();
        &&& forall|i: int| 0 <= i < q.len() ==> #[trigger] q[i].text.len() >= 1
        &&& forall|i: int|
            0 <= i < q.len() ==> 1 <= #[trigger] q[i].col && q[i].col + q[i].text.len()
                < self.width
        &&& forall|i: int| 0 <= i < q.len() ==> 1 <= #[trigger] q[i].row <= self.floor_row
        &&& forall|i: int, j: int|
            0 <= i <= j < q.len() ==> #[trigger] q[j].row <= #[trigger] q[i].row
        &&& (self.state is Running ==> q.len() >= 1 && forall|i: int|
            0 <= i < q.len() ==> #[trigger] q[i].row < self.floor_row)
    }

    /// The engine invariant, preserved by every tick.
    pub open spec fn wf(self) -> bool {
        &&& self.supply.wf()
        &&& forall|i: int|
            0 <= i < self.supply.words@.len() ==> #[trigger] self.supply.words@[i]@.len() + 2
                <= self.width
        &&& 1 <= self.control.0 <= 50
        &&& 1 <= self.control.1 <= 5
        &&& self.frame_count <= 50
        &&& self.floor_row >= 2
        &&& self.metrics.wf()
        &&& self.queue_wf()
    }

    /// The frame clock one tick later: it climbs to the fall interval and
    /// wraps back to zero.
    pub open spec fn spec_next_frame(fc: u32, interval: u32) -> u32 {
        if fc < interval {
            (fc + 1) as u32
        } else {
            0u32
        }
    }

    /// Whether this tick's frame-clock advance lands on the fall interval,
    /// which is when rows advance.
    pub open spec fn frame_due(self) -> bool {
        Self::spec_next_frame(self.frame_count, self.control.0) == self.control.0
    }

    /// Whether the supplied keystroke matches the head word's leading
    /// character.
    pub open spec fn key_hits(self, key: Option<char>) -> bool {
        &&& key matches Some(c)
        &&& self.list.model().len() >= 1
        &&& self.list.model()[0].text[0] == key->0
    }

    /// The queue after this tick's row advance.
    pub open spec fn spec_after_advance(self) -> Seq<WordModel> {
        if self.frame_due() {
            rows_advanced(self.list.model())
        } else {
            self.list.model()
        }
    }

    /// Whether the modulus-gated spawn fires: only on a row-advance tick,
    /// and only when the head word's row lands on a multiple of the row
    /// modulus.
    pub open spec fn spec_spawn_on_row(self) -> bool
        recommends
            self.list.model().len() >= 1,
    {
        self.frame_due() && self.spec_after_advance()[0].row % self.control.1 == 0
    }

    /// Whether this tick's keystroke consumes the whole head word and
    /// leaves the queue empty, forcing an immediate respawn.
    pub open spec fn spec_respawns(self, key: Option<char>) -> bool {
        &&& self.key_hits(key)
        &&& !self.spec_spawn_on_row()
        &&& self.list.model().len() == 1
        &&& self.list.model()[0].text.len() == 1
    }

    /// How many words this tick takes from the supply: one for the
    /// modulus-gated spawn or for the immediate respawn, never both.
    pub open spec fn spec_spawn_count(self, key: Option<char>) -> int {
        if self.spec_spawn_on_row() || self.spec_respawns(key) {
            1
        } else {
            0
        }
    }

    /// The queue this tick produces, given the column `x` the spawn drew:
    /// rows advance when due, the modulus-gated spawn appends, a hit
    /// consumes the head's leading character, and a queue left empty
    /// respawns at once.
    pub open spec fn spec_tick_queue(self, key: Option<char>, x: u32) -> Seq<WordModel> {
        let l1 = self.spec_after_advance();
        let l2 = if self.spec_spawn_on_row() {
            spawned(l1, self.supply.spec_peek(), x)
        } else {
            l1
        };
        let l3 = if self.key_hits(key) {
            head_consumed(l2)
        } else {
            l2
        };
        if l3.len() == 0 {
            spawned(l3, self.supply.spec_peek(), x)
        } else {
            l3
        }
    }

    /// Everything one tick does to the queue and the state, for the spawn
    /// column `x` the tick drew.  The session ends exactly when the head
    /// word's row has reached the floor once the tick's work is done.
    pub open spec fn spec_tick_rel(
        o: GameEngine,
        n: GameEngine,
        key: Option<char>,
        x: u32,
    ) -> bool {
        &&& 1 <= x
        &&& o.spec_spawn_count(key) == 1 ==> x + o.supply.spec_peek().len() + 1 <= o.width
        &&& n.list.model() == o.spec_tick_queue(key, x)
        &&& n.state == if o.spec_tick_queue(key, x)[0].row >= o.floor_row {
            GameState::Ended(EndReason::WordReachedFloor)
        } else {
            GameState::Running
        }
    }

    /// Everything one tick of a running session guarantees, relating the
    /// engine before (`o`) to the engine after (`n`): the invariant is
    /// kept; the geometry and level are untouched; the frame clock steps;
    /// the typed-character count grows by one exactly on a hit; the speed
    /// readout recomputes exactly at a window boundary and holds still
    /// otherwise; the control pair is re-installed exactly when the hit
    /// lands on a milestone; the word pool is untouched and its cursor
    /// advances once per spawned word; and the queue and state change as
    /// `spec_tick_rel` says for the spawn column the tick drew.
    pub open spec fn spec_tick_post(
        o: GameEngine,
        n: GameEngine,
        key: Option<char>,
        now: u64,
    ) -> bool {
        &&& n.wf()
        &&& n.level == o.level
        &&& n.width == o.width
        &&& n.floor_row == o.floor_row
        &&& n.frame_count == Self::spec_next_frame(o.frame_count, o.control.0)
        &&& n.metrics.typed_chars == o.metrics.typed_chars + (if o.key_hits(key) {
            1int
        } else {
            0int
        })
        &&& (o.metrics.window_due(now) ==> n.metrics.cpm == 3 * (o.metrics.typed_chars
            - o.metrics.window_chars) && n.metrics.wpm == n.metrics.cpm / 5
            && n.metrics.window_chars == o.metrics.typed_chars && n.metrics.window_start == now)
        &&& (!o.metrics.window_due(now) ==> n.metrics.cpm == o.metrics.cpm && n.metrics.wpm
            == o.metrics.wpm && n.metrics.window_chars == o.metrics.window_chars
            && n.metrics.window_start == o.metrics.window_start)
        &&& (if o.key_hits(key) && spec_is_milestone((o.metrics.typed_chars + 1) as u32) {
            n.control == spec_control(o.level, (o.metrics.typed_chars + 1) as u32)
        } else {
            n.control == o.control
        })
        &&& n.supply.words == o.supply.words
        &&& n.supply.cursor == (if o.spec_spawn_count(key) == 1 {
            if o.supply.cursor + 1 == o.supply.words@.len() {
                0int
            } else {
                o.supply.cursor + 1
            }
        } else {
            o.supply.cursor as int
        })
        &&& exists|x: u32| #[trigger] Self::spec_tick_rel(o, n, key, x)
    }

    /// Starts a session: validates the configuration, shuffles the word
    /// pool from the seed, installs the level's session-start control pair,
    /// and spawns the first word at row 1.
    pub fn new(
        word_list: Vec<String>,
        level: Level,
        width: u32,
        floor_row: u32,
        seed: u64,
    ) -> (r: Result<GameEngine, ConfigError>)
        ensures
            r is Ok <==> spec_config_ok(word_list.deep_view(), width, floor_row),
            r matches Err(e) ==> (e == ConfigError::EmptyWordList <==> word_list@.len() == 0),
            r matches Err(e) ==> (e == ConfigError::EmptyWord <==> word_list@.len() >= 1 && exists|
                i: int,
            | 0 <= i < word_list@.len() && #[trigger] word_list@[i]@.len() == 0),
            r matches Err(e) ==> (e == ConfigError::WordTooWide <==> word_list@.len() >= 1
                && (forall|i: int| 0 <= i < word_list@.len() ==> #[trigger] word_list@[i]@.len()
                >= 1) && exists|i: int|
                0 <= i < word_list@.len() && #[trigger] word_list@[i]@.len() + 2 > width),
            r matches Err(e) ==> (e == ConfigError::FieldTooShort <==> word_list@.len() >= 1
                && (forall|i: int| 0 <= i < word_list@.len() ==> #[trigger] word_list@[i]@.len()
                >= 1) && (forall|i: int| 0 <= i < word_list@.len()
                ==> #[trigger] word_list@[i]@.len() + 2 <= width) && floor_row < 2),
            r matches Ok(e) ==> {
                &&& e.wf()
                &&& e.state is Running
                &&& e.level == level
                &&& e.width == width
                &&& e.floor_row == floor_row
                &&& e.control == spec_control(level, 0)
                &&& e.frame_count == 0
                &&& e.metrics.typed_chars == 0
                &&& e.metrics.window_chars == 0
                &&& e.metrics.window_start == 0
                &&& e.metrics.cpm == 0
                &&& e.metrics.wpm == 0
                &&& e.supply.words@.len() == word_list@.len()
                &&& e.supply.words.deep_view().to_multiset()
                    == word_list.deep_view().to_multiset()
                &&& e.supply.cursor == if word_list@.len() == 1 {
                    0int
                } else {
                    1int
                }
                &&& e.list.model().len() == 1
                &&& e.list.model()[0].text == e.supply.words@[0]@
                &&& e.list.model()[0].row == 1
            },
    {
        proof {
            assert(forall|i: int|
                0 <= i < word_list@.len() ==> word_list.deep_view()[i] == #[trigger] word_list@[
                    i
                ]@);
        }
        if word_list.len() == 0 {
            return Err(ConfigError::EmptyWordList);
        }
        let n = word_list.len();
        let mut i: usize = 0;
        while i < n
            invariant
                n == word_list@.len(),
                0 <= i <= n,
                forall|j: int| 0 <= j < i ==> #[trigger] word_list@[j]@.len() >= 1,
            decreases n - i,
        {
            if word_list[i].as_str().unicode_len() == 0 {
                proof {
                    assert(word_list@[i as int]@.len() == 0);
                    assert(word_list.deep_view()[i as int].len() == 0);
                }
                return Err(ConfigError::EmptyWord);
            }
            i = i + 1;
        }
        let mut i: usize = 0;
        while i < n
            invariant
                n == word_list@.len(),
                0 <= i <= n,
                forall|j: int| 0 <= j < n ==> #[trigger] word_list@[j]@.len() >= 1,
                forall|j: int| 0 <= j < i ==> #[trigger] word_list@[j]@.len() + 2 <= width,
            decreases n - i,
        {
            let wl = word_list[i].as_str().unicode_len();
            if width < 2 || wl as u64 > (width - 2) as u64 {
                proof {
                    assert(word_list@[i as int]@.len() + 2 > width);
                    assert(word_list.deep_view()[i as int].len() + 2 > width);
                }
                return Err(ConfigError::WordTooWide);
            }
            i = i + 1;
        }
        if floor_row < 2 {
            return Err(ConfigError::FieldTooShort);
        }
        let ghost given = word_list.deep_view();
        let ghost fits = (|w: Seq<char>| w.len() + 2 <= width);
        proof {
            assert forall|k: int| 0 <= k < given.len() implies #[trigger] fits(given[k]) by {
                assert(word_list@[k]@.len() + 2 <= width);
            }
        }
        let mut rng = seeded_rng(seed);
        let mut supply = WordSupply::new(word_list, &mut rng);
        proof {
            lemma_multiset_keeps_elementwise(given, supply.words.deep_view(), fits);
            assert forall|k: int|
                0 <= k < supply.words@.len() implies #[trigger] supply.words@[k]@.len() + 2
                <= width by {
                assert(fits(supply.words.deep_view()[k]));
                assert(supply.words.deep_view()[k] == supply.words@[k]@);
            }
        }
        let mut queue = ActiveQueue::new();
        let first = supply.next();
        queue.spawn(first, width, &mut rng);
        let control = level.control(0);
        proof {
            lemma_control_bounds(level, 0);
        }
        let engine = GameEngine {
            rng,
            supply,
            list: queue,
            level,
            control,
            frame_count: 0,
            metrics: MetricsTracker::new(),
            width,
            floor_row,
            state: GameState::Running,
        };
        Ok(engine)
    }

    /// The queue one tick produces from a well-formed running engine keeps
    /// every structural invariant: non-empty texts, words inside the field,
    /// rows between 1 and the floor, rows non-increasing from head to tail;
    /// and while the head stays above the floor so does every word.
    proof fn lemma_tick_queue_wf(o: GameEngine, key: Option<char>, x: u32)
        requires
            o.wf(),
            o.state is Running,
            1 <= x,
            o.spec_spawn_count(key) == 1 ==> x + o.supply.spec_peek().len() + 1 <= o.width,
        ensures
            ({
                let q = o.spec_tick_queue(key, x);
                &&& q.len() >= 1
                &&& forall|i: int| 0 <= i < q.len() ==> #[trigger] q[i].text.len() >= 1
                &&& forall|i: int|
                    0 <= i < q.len() ==> 1 <= #[trigger] q[i].col && q[i].col + q[i].text.len()
                        < o.width
                &&& forall|i: int| 0 <= i < q.len() ==> 1 <= #[trigger] q[i].row <= o.floor_row
                &&& forall|i: int, j: int|
                    0 <= i <= j < q.len() ==> #[trigger] q[j].row <= #[trigger] q[i].row
                &&& (q[0].row < o.floor_row ==> forall|i: int|
                    0 <= i < q.len() ==> #[trigger] q[i].row < o.floor_row)
            }),
    {
        let q0 = o.list.model();
        let l1 = o.spec_after_advance();
        let peek = o.supply.spec_peek();
        let l2 = if o.spec_spawn_on_row() {
            spawned(l1, peek, x)
        } else {
            l1
        };
        let l3 = if o.key_hits(key) {
            head_consumed(l2)
        } else {
            l2
        };
        let q = o.spec_tick_queue(key, x);
        assert(o.supply.wf());
        assert(peek.len() >= 1 && peek.len() + 2 <= o.width) by {
            assert(o.supply.words@[o.supply.cursor as int]@.len() >= 1);
            assert(o.supply.words@[o.supply.cursor as int]@.len() + 2 <= o.width);
        }
        // The advanced queue: rows grow by one, still within the floor.
        assert(l1.len() == q0.len());
        assert forall|i: int| 0 <= i < l1.len() implies #[trigger] l1[i].text.len() >= 1 && 1
            <= l1[i].col && l1[i].col + l1[i].text.len() < o.width && 1 <= l1[i].row
            <= o.floor_row by {
            assert(q0[i].row < o.floor_row);
        }
        assert forall|i: int, j: int| 0 <= i <= j < l1.len() implies #[trigger] l1[j].row
            <= #[trigger] l1[i].row by {
            assert(q0[j].row <= q0[i].row);
        }
        // The spawned word joins at row 1, below every advanced row.
        assert forall|i: int| 0 <= i < l2.len() implies #[trigger] l2[i].text.len() >= 1 && 1
            <= l2[i].col && l2[i].col + l2[i].text.len() < o.width && 1 <= l2[i].row
            <= o.floor_row by {
            if i < l1.len() {
                assert(l2[i] == l1[i]);
            }
        }
        assert forall|i: int, j: int| 0 <= i <= j < l2.len() implies #[trigger] l2[j].row
            <= #[trigger] l2[i].row by {
            if j < l1.len() {
                assert(l2[j].row <= l2[i].row);
            } else {
                assert(l2[j].row == 1);
            }
        }
        // Consuming the head keeps every bound.
        if o.key_hits(key) {
            assert(l2[0].text == q0[0].text);
            if l2[0].text.len() == 1 {
                assert(l3 =~= l2.drop_first());
                assert(forall|i: int| 0 <= i < l3.len() ==> l3[i] == #[trigger] l2[i + 1]);
            } else {
                assert(l3[0].text.len() >= 1);
                assert(forall|i: int| 1 <= i < l3.len() ==> l3[i] == #[trigger] l2[i]);
            }
        }
        assert forall|i: int| 0 <= i < l3.len() implies #[trigger] l3[i].text.len() >= 1 && 1
            <= l3[i].col && l3[i].col + l3[i].text.len() < o.width && 1 <= l3[i].row
            <= o.floor_row by {}
        assert forall|i: int, j: int| 0 <= i <= j < l3.len() implies #[trigger] l3[j].row
            <= #[trigger] l3[i].row by {}
        // The immediate respawn restores a one-word queue at row 1.
        if l3.len() == 0 {
            assert(q =~= seq![WordModel { text: peek, col: x, row: 1 }]);
        } else {
            assert(q == l3);
        }
        assert(q.len() >= 1);
        if q[0].row < o.floor_row {
            assert forall|i: int| 0 <= i < q.len() implies #[trigger] q[i].row < o.floor_row by {
                assert(q[i].row <= q[0].row);
            }
        }
    }

    /// One tick of the running session, in fixed order: the metrics window
    /// check, the frame-clock advance with the row advance it may gate, the
    /// spawn-trigger evaluation, the keystroke consumption with its
    /// schedule re-check, and the floor detection.  Returns the state the
    /// session is in once the tick is done.
    ///
    /// `now` is the wall-clock second supplied by the driving loop; `key`
    /// is the keystroke captured since the last tick, if any.
    pub fn tick(&mut self, key: Option<char>, now: u64) -> (st: GameState)
        requires
            old(self).wf(),
            old(self).state is Running,
            old(self).metrics.typed_chars < u32::MAX,
            3 * (old(self).metrics.typed_chars - old(self).metrics.window_chars) <= u32::MAX,
        ensures
            final(self).wf(),
            st == final(self).state,
            Self::spec_tick_post(*old(self), *final(self), key, now),
    {
        let ghost o = *self;
        // (1) metrics window check
        self.metrics.tick(now);
        // (2) frame-clock advance, row advance when it lands on the interval
        self.frame_count = if self.frame_count < self.control.0 {
            self.frame_count + 1
        } else {
            0
        };
        let due = self.frame_count == self.control.0;
        proof {
            assert(self.frame_count == Self::spec_next_frame(o.frame_count, o.control.0));
            assert(due == o.frame_due());
            assert forall|i: int|
                0 <= i < self.list.model().len() implies #[trigger] self.list.model()[i].row
                < u32::MAX by {
                assert(o.list.model()[i].row < o.floor_row);
            }
        }
        self.list.advance_if_due(self.frame_count, self.control.0);
        let ghost l1 = self.list.model();
        proof {
            assert(l1 == o.spec_after_advance());
            assert(l1.len() == o.list.model().len());
            assert(l1[0].text == o.list.model()[0].text);
            assert(l1[0].text.len() >= 1);
        }
        // (3) spawn-trigger evaluation
        let ghost mut gx: u32 = 1;
        let head_row = self.list.items[0].2;
        proof {
            assert(self.list.model()[0] == crate::queue::word_model(self.list.items@[0]));
            assert(head_row == l1[0].row);
        }
        if due && head_row % self.control.1 == 0 {
            let w = self.supply.next();
            proof {
                assert(w@ == o.supply.spec_peek());
                assert(w@.len() >= 1 && w@.len() + 2 <= self.width) by {
                    assert(o.supply.words@[o.supply.cursor as int]@.len() >= 1);
                    assert(o.supply.words@[o.supply.cursor as int]@.len() + 2 <= o.width);
                }
            }
            let x = self.list.spawn(w, self.width, &mut self.rng);
            proof {
                gx = x;
            }
        }
        let ghost l2 = self.list.model();
        proof {
            assert(o.spec_spawn_on_row() == (due && head_row % o.control.1 == 0));
            assert(l2 == if o.spec_spawn_on_row() {
                spawned(l1, o.supply.spec_peek(), gx)
            } else {
                l1
            });
            assert(l2.len() >= 1);
            assert(l2[0] == l1[0]);
        }
        // (4) keystroke consumption and schedule re-check
        if let Some(c) = key {
            let hit = self.list.consume_leading_char(c);
            proof {
                assert(hit == o.key_hits(key));
            }
            if hit {
                self.metrics.record_char();
                if is_milestone(self.metrics.typed_chars) {
                    let pair = self.level.control(self.metrics.typed_chars);
                    self.control = pair;
                    proof {
                        lemma_control_bounds(o.level, (o.metrics.typed_chars + 1) as u32);
                    }
                }
                if self.list.items.len() == 0 {
                    proof {
                        assert(self.list.model().len() == 0);
                        assert(head_consumed(l2).len() == 0);
                        assert(l2.len() == 1 && l2[0].text.len() == 1);
                        assert(!o.spec_spawn_on_row());
                        assert(o.spec_respawns(key));
                    }
                    let w = self.supply.next();
                    proof {
                        assert(w@ == o.supply.spec_peek());
                        assert(w@.len() >= 1 && w@.len() + 2 <= self.width) by {
                            assert(o.supply.words@[o.supply.cursor as int]@.len() >= 1);
                            assert(o.supply.words@[o.supply.cursor as int]@.len() + 2 <= o.width);
                        }
                    }
                    let x = self.list.spawn(w, self.width, &mut self.rng);
                    proof {
                        gx = x;
                        assert(self.list.model() =~= spawned(
                            head_consumed(l2),
                            o.supply.spec_peek(),
                            gx,
                        ));
                    }
                }
            }
        }
        proof {
            assert(self.list.model() == o.spec_tick_queue(key, gx));
            assert(self.list.model().len() >= 1) by {
                Self::lemma_tick_queue_wf(o, key, gx);
            }
        }
        // (5) floor detection
        let past = self.list.is_head_past_floor(self.floor_row);
        if past {
            self.state = GameState::Ended(EndReason::WordReachedFloor);
        }
        proof {
            Self::lemma_tick_queue_wf(o, key, gx);
            assert(Self::spec_tick_rel(o, *self, key, gx));
            assert(self.queue_wf());
            assert(self.wf());
        }
        self.state
    }

    /// The typed-character count never decreases across a tick, and grows
    /// by exactly one per consumed leading character: one when the tick's
    /// keystroke hits the head word, zero otherwise.
    pub proof fn lemma_typed_chars_monotone(
        o: GameEngine,
        n: GameEngine,
        key: Option<char>,
        now: u64,
    )
        requires
            Self::spec_tick_post(o, n, key, now),
        ensures
            n.metrics.typed_chars >= o.metrics.typed_chars,
            o.key_hits(key) ==> n.metrics.typed_chars == o.metrics.typed_chars + 1,
            !o.key_hits(key) ==> n.metrics.typed_chars == o.metrics.typed_chars,
    {
    }

    /// The head of the queue is never empty while the session runs: a
    /// well-formed running engine always holds at least one word, with at
    /// least one character left, and a tick that leaves the session
    /// running leaves such a queue behind — any consumption that empties
    /// the queue is followed by a spawn before the tick returns.
    pub proof fn lemma_running_head_never_empty(
        o: GameEngine,
        n: GameEngine,
        key: Option<char>,
        now: u64,
    )
        requires
            o.wf(),
            o.state is Running,
            Self::spec_tick_post(o, n, key, now),
        ensures
            o.list.model().len() >= 1 && o.list.model()[0].text.len() >= 1,
            n.state is Running ==> n.list.model().len() >= 1 && n.list.model()[0].text.len() >= 1,
    {
        let x = choose|x: u32| Self::spec_tick_rel(o, n, key, x);
        if n.state is Running {
            assert(n.list.model() == o.spec_tick_queue(key, x));
            Self::lemma_tick_queue_wf(o, key, x);
        }
    }

    /// Between milestones the installed control pair is left alone: a tick
    /// that does not land the typed-character count on a milestone keeps
    /// the pair that was installed before.
    pub proof fn lemma_control_idempotent_between_milestones(
        o: GameEngine,
        n: GameEngine,
        key: Option<char>,
        now: u64,
    )
        requires
            Self::spec_tick_post(o, n, key, now),
            !spec_is_milestone(n.metrics.typed_chars),
        ensures
            n.control == o.control,
    {
    }

    /// The speed readout only moves at a window boundary: any tick within
    /// an open 20-second window leaves `cpm` and `wpm` exactly as they
    /// were.
    pub proof fn lemma_speed_holds_within_window(
        o: GameEngine,
        n: GameEngine,
        key: Option<char>,
        now: u64,
    )
        requires
            Self::spec_tick_post(o, n, key, now),
            !o.metrics.window_due(now),
        ensures
            n.metrics.cpm == o.metrics.cpm,
            n.metrics.wpm == o.metrics.wpm,
    {
    }

    /// No word ever sits at row 0, so the modulus-gated spawn trigger can
    /// never fire on a head row of 0: rows start at 1 and the trigger only
    /// looks at rows the advance has pushed to 2 or beyond.
    pub proof fn lemma_no_spawn_at_row_zero(o: GameEngine)
        requires
            o.wf(),
            o.state is Running,
        ensures
            forall|i: int| 0 <= i < o.list.model().len() ==> #[trigger] o.list.model()[i].row >= 1,
            o.spec_spawn_on_row() ==> o.spec_after_advance()[0].row >= 2,
    {
        if o.spec_spawn_on_row() {
            assert(o.spec_after_advance()[0].row == o.list.model()[0].row + 1);
        }
    }

    /// The next expected character: the leading character of the head
    /// word, the only one a keystroke can consume.
    pub fn next_char(&self) -> (c: char)
        requires
            self.wf(),
            self.state is Running,
        ensures
            c == self.list.model()[0].text[0],
            self.key_hits(Some(c)),
    {
        proof {
            assert(self.list.model().len() >= 1);
            assert(self.list.items@.len() == self.list.model().len());
            assert(self.list.model()[0].text.len() >= 1);
            assert(self.list.model()[0] == crate::queue::word_model(self.list.items@[0]));
            assert(self.list.items@[0].0@.len() >= 1);
        }
        self.list.items[0].0.as_str().get_char(0)
    }

    /// The player quit: the session ends on the spot with everything else
    /// untouched.
    pub fn quit(&mut self)
        requires
            old(self).wf(),
            old(self).state is Running,
        ensures
            final(self).wf(),
            *final(self) == (GameEngine {
                state: GameState::Ended(EndReason::PlayerQuit),
                ..*old(self)
            }),
    {
        self.state = GameState::Ended(EndReason::PlayerQuit);
    }
}

} // verus!
