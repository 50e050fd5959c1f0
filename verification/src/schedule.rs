//! The difficulty schedule: a fixed table mapping a difficulty level and a
//! cumulative typed-character milestone to a control pair
//! `(fall_interval, row_modulus)`.  Between milestones the previously
//! installed pair is retained by the engine; combinations past the end of the
//! table resolve to the fastest defined pair.

use vstd::prelude::*;

verus! {

/// A difficulty level; selects which row of the schedule table is consulted.
#[derive(Clone, Copy, PartialEq, Eq, Structural, Debug)]
pub enum Level {
    Easy,
    Normal,
    Hard,
}

/// The control pair the schedule yields for `(level, typed_chars)`.
///
/// Consulted only at the milestone thresholds; the fall interval strictly
/// decreases and the row modulus weakly decreases along each level's row,
/// and any combination not in the table resolves to the fastest pair
/// `(8, 3)`.
pub open spec fn spec_control(level: Level, typed_chars: u32) -> (u32, u32) {
    match (level, typed_chars) {
        (Level::Easy, 0u32) => (50u32, 5u32),
        (Level::Easy, 100u32) => (45u32, 5u32),
        (Level::Easy, 200u32) => (40u32, 5u32),
        (Level::Easy, 300u32) => (40u32, 4u32),
        (Level::Easy, 500u32) => (35u32, 4u32),
        (Level::Easy, 800u32) => (30u32, 3u32),
        (Level::Easy, 1500u32) => (25u32, 3u32),
        (Level::Easy, 2000u32) => (20u32, 3u32),
        (Level::Easy, 3000u32) => (15u32, 3u32),
        (Level::Easy, 4000u32) => (14u32, 3u32),
        (Level::Easy, 5000u32) => (12u32, 3u32),
        (Level::Normal, 0u32) => (40u32, 5u32),
        (Level::Normal, 100u32) => (35u32, 5u32),
        (Level::Normal, 200u32) => (30u32, 5u32),
        (Level::Normal, 300u32) => (25u32, 4u32),
        (Level::Normal, 500u32) => (20u32, 4u32),
        (Level::Normal, 800u32) => (20u32, 3u32),
        (Level::Normal, 1500u32) => (18u32, 3u32),
        (Level::Normal, 2000u32) => (16u32, 3u32),
        (Level::Normal, 3000u32) => (14u32, 3u32),
        (Level::Normal, 4000u32) => (12u32, 3u32),
        (Level::Normal, 5000u32) => (10u32, 3u32),
        (Level::Hard, 0u32) => (30u32, 5u32),
        (Level::Hard, 100u32) => (25u32, 5u32),
        (Level::Hard, 200u32) => (20u32, 5u32),
        (Level::Hard, 300u32) => (20u32, 4u32),
        (Level::Hard, 500u32) => (15u32, 4u32),
        (Level::Hard, 800u32) => (15u32, 3u32),
        (Level::Hard, 1500u32) => (14u32, 3u32),
        (Level::Hard, 2000u32) => (12u32, 3u32),
        (Level::Hard, 3000u32) => (10u32, 3u32),
        (Level::Hard, 4000u32) => (9u32, 3u32),
        (Level::Hard, 5000u32) => (8u32, 3u32),
        _ => (8u32, 3u32),
    }
}

/// Every pair the schedule can yield has a positive fall interval of at most
/// 50 frames and a row modulus between 1 and 5.
pub proof fn lemma_control_bounds(level: Level, typed_chars: u32)
    ensures
        1 <= spec_control(level, typed_chars).0 <= 50,
        1 <= spec_control(level, typed_chars).1 <= 5,
{
}

impl Level {
    /// The display name of the level.
    pub open spec fn spec_name(self) -> Seq<char> {
        match self {
            Level::Easy => "Easy"@,
            Level::Normal => "Normal"@,
            Level::Hard => "Hard"@,
        }
    }

    pub fn to_str(&self) -> (r: &str)
        ensures
            r@ == self.spec_name(),
    {
        match self {
            Level::Easy => "Easy",
            Level::Normal => "Normal",
            Level::Hard => "Hard",
        }
    }

    /// The next level in the cyclic difficulty toggle.
    pub open spec fn spec_switch(self) -> Level {
        match self {
            Level::Easy => Level::Normal,
            Level::Normal => Level::Hard,
            Level::Hard => Level::Easy,
        }
    }

    /// Cycles `Easy -> Normal -> Hard -> Easy`.
    pub fn switch(&self) -> (r: Level)
        ensures
            r == self.spec_switch(),
    {
        match self {
            Level::Easy => Level::Normal,
            Level::Normal => Level::Hard,
            Level::Hard => Level::Easy,
        }
    }

    /// Looks up the control pair for this level at a typed-character count.
    ///
    /// Meaningful only at milestone counts; the engine keeps the previously
    /// installed pair everywhere else.
    pub fn control(&self, typed_chars: u32) -> (r: (u32, u32))
        ensures
            r == spec_control(*self, typed_chars),
    {
        match (self, typed_chars) {
            (Level::Easy, 0u32) => (50, 5),
            (Level::Easy, 100u32) => (45, 5),
            (Level::Easy, 200u32) => (40, 5),
            (Level::Easy, 300u32) => (40, 4),
            (Level::Easy, 500u32) => (35, 4),
            (Level::Easy, 800u32) => (30, 3),
            (Level::Easy, 1500u32) => (25, 3),
            (Level::Easy, 2000u32) => (20, 3),
            (Level::Easy, 3000u32) => (15, 3),
            (Level::Easy, 4000u32) => (14, 3),
            (Level::Easy, 5000u32) => (12, 3),
            (Level::Normal, 0u32) => (40, 5),
            (Level::Normal, 100u32) => (35, 5),
            (Level::Normal, 200u32) => (30, 5),
            (Level::Normal, 300u32) => (25, 4),
            (Level::Normal, 500u32) => (20, 4),
            (Level::Normal, 800u32) => (20, 3),
            (Level::Normal, 1500u32) => (18, 3),
            (Level::Normal, 2000u32) => (16, 3),
            (Level::Normal, 3000u32) => (14, 3),
            (Level::Normal, 4000u32) => (12, 3),
            (Level::Normal, 5000u32) => (10, 3),
            (Level::Hard, 0u32) => (30, 5),
            (Level::Hard, 100u32) => (25, 5),
            (Level::Hard, 200u32) => (20, 5),
            (Level::Hard, 300u32) => (20, 4),
            (Level::Hard, 500u32) => (15, 4),
            (Level::Hard, 800u32) => (15, 3),
            (Level::Hard, 1500u32) => (14, 3),
            (Level::Hard, 2000u32) => (12, 3),
            (Level::Hard, 3000u32) => (10, 3),
            (Level::Hard, 4000u32) => (9, 3),
            (Level::Hard, 5000u32) => (8, 3),
            _ => (8, 3),
        }
    }
}

/// The milestone table with levels as ordinals (`1` = easy, `2` = normal,
/// `3` = hard), defined only away from the session-start milestone `0`.
pub open spec fn spec_modify_difficulty(d: u32, s: u32) -> Option<(i32, i32)> {
    if 1 <= d <= 3 && spec_is_milestone_step(s) {
        let level = if d == 1 {
            Level::Easy
        } else if d == 2 {
            Level::Normal
        } else {
            Level::Hard
        };
        let pair = spec_control(level, s);
        Some((pair.0 as i32, pair.1 as i32))
    } else {
        None
    }
}

/// The milestones other than `0`: the counts at which a running session can
/// re-install its control pair.
pub open spec fn spec_is_milestone_step(t: u32) -> bool {
    t == 100 || t == 200 || t == 300 || t == 500 || t == 800 || t == 1500 || t == 2000 || t == 3000
        || t == 4000 || t == 5000
}

/// The full milestone set, including the session-start count `0` at which
/// the initial control pair is installed.
pub open spec fn spec_is_milestone(t: u32) -> bool {
    t == 0 || spec_is_milestone_step(t)
}

/// True exactly on the milestone thresholds of the difficulty schedule.
pub fn is_milestone(t: u32) -> (r: bool)
    ensures
        r == spec_is_milestone(t),
{
    t == 0 || t == 100 || t == 200 || t == 300 || t == 500 || t == 800 || t == 1500 || t == 2000
        || t == 3000 || t == 4000 || t == 5000
}

/// The difficulty curve only tightens along each level's row of the
/// table: at a later milestone the fall interval and the row modulus are
/// no larger, and at least one of the two is strictly smaller.
pub proof fn lemma_schedule_monotone(level: Level, t1: u32, t2: u32)
    requires
        spec_is_milestone(t1),
        spec_is_milestone(t2),
        t1 < t2,
    ensures
        spec_control(level, t2).0 <= spec_control(level, t1).0,
        spec_control(level, t2).1 <= spec_control(level, t1).1,
        spec_control(level, t2) != spec_control(level, t1),
{
}

/// At every milestone the harder level falls at least as fast: Hard's
/// fall interval never exceeds Normal's, nor Normal's Easy's.
pub proof fn lemma_schedule_dominance(t: u32)
    requires
        spec_is_milestone(t),
    ensures
        spec_control(Level::Hard, t).0 <= spec_control(Level::Normal, t).0,
        spec_control(Level::Normal, t).0 <= spec_control(Level::Easy, t).0,
{
}

/// The ordinal-keyed schedule table: `Some(pair)` exactly on the listed
/// `(ordinal, milestone)` combinations, `None` elsewhere.
pub fn modify_difficulty(d: u32, s: u32) -> (r: Option<(i32, i32)>)
    ensures
        r == spec_modify_difficulty(d, s),
{
    match (d, s) {
        (1u32, 100u32) => Some((45, 5)),
        (1u32, 200u32) => Some((40, 5)),
        (1u32, 300u32) => Some((40, 4)),
        (1u32, 500u32) => Some((35, 4)),
        (1u32, 800u32) => Some((30, 3)),
        (1u32, 1500u32) => Some((25, 3)),
        (1u32, 2000u32) => Some((20, 3)),
        (1u32, 3000u32) => Some((15, 3)),
        (1u32, 4000u32) => Some((14, 3)),
        (1u32, 5000u32) => Some((12, 3)),
        (2u32, 100u32) => Some((35, 5)),
        (2u32, 200u32) => Some((30, 5)),
        (2u32, 300u32) => Some((25, 4)),
        (2u32, 500u32) => Some((20, 4)),
        (2u32, 800u32) => Some((20, 3)),
        (2u32, 1500u32) => Some((18, 3)),
        (2u32, 2000u32) => Some((16, 3)),
        (2u32, 3000u32) => Some((14, 3)),
        (2u32, 4000u32) => Some((12, 3)),
        (2u32, 5000u32) => Some((10, 3)),
        (3u32, 100u32) => Some((25, 5)),
        (3u32, 200u32) => Some((20, 5)),
        (3u32, 300u32) => Some((20, 4)),
        (3u32, 500u32) => Some((15, 4)),
        (3u32, 800u32) => Some((15, 3)),
        (3u32, 1500u32) => Some((14, 3)),
        (3u32, 2000u32) => Some((12, 3)),
        (3u32, 3000u32) => Some((10, 3)),
        (3u32, 4000u32) => Some((9, 3)),
        (3u32, 5000u32) => Some((8, 3)),
        _ => None,
    }
}

} // verus!
