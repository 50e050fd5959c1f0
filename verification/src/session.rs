//! The session shell state: which page is shown, the chosen language and
//! difficulty, the externally persisted high score, the field geometry, and
//! the engine of the running session, if one is on.  The shell owns the
//! high score; the engine only reports values for it to merge.

use vstd::prelude::*;

use crate::engine::ConfigError;
use crate::engine::EndReason;
use crate::engine::GameEngine;
use crate::engine::GameState;
use crate::engine::spec_config_ok;
use crate::schedule::Level;
use crate::schedule::spec_control;

verus! {

/// The page the shell is showing.
#[derive(Clone, Copy, PartialEq, Eq, Structural, Debug)]
pub enum Page {
    Welcome,
    Licence,
    Main,
    Quit,
}

impl Page {
    /// Where the escape key leads from each page.
    pub open spec fn spec_esc(self) -> Page {
        match self {
            Page::Welcome => Page::Quit,
            _ => Page::Welcome,
        }
    }

    /// Escape quits from the welcome page and returns to it from anywhere
    /// else.
    pub fn esc(&self) -> (r: Page)
        ensures
            r == self.spec_esc(),
    {
        match self {
            Page::Welcome => Page::Quit,
            _ => Page::Welcome,
        }
    }
}

/// The word-list language.
#[derive(Clone, Copy, PartialEq, Eq, Structural, Debug)]
pub enum Lang {
    En,
    Su,
}

impl Lang {
    /// The display name of the language.
    pub open spec fn spec_name(self) -> Seq<char> {
        match self {
            Lang::En => "English"@,
            Lang::Su => "Finnish"@,
        }
    }

    pub fn to_str(&self) -> (r: &str)
        ensures
            r@ == self.spec_name(),
    {
        match self {
            Lang::En => "English",
            Lang::Su => "Finnish",
        }
    }

    /// The other language of the toggle.
    pub open spec fn spec_switch(self) -> Lang {
        match self {
            Lang::En => Lang::Su,
            Lang::Su => Lang::En,
        }
    }

    /// Toggles between the two languages.
    pub fn switch(&self) -> (r: Lang)
        ensures
            r == self.spec_switch(),
    {
        match self {
            Lang::En => Lang::Su,
            Lang::Su => Lang::En,
        }
    }
}

/// The larger of two counts.
pub open spec fn spec_max_u32(a: u32, b: u32) -> u32 {
    if a >= b {
        a
    } else {
        b
    }
}

/// The floor row for a field of the given height: words reach the floor
/// three rows above the bottom border.
pub open spec fn spec_floor_row(height: u32) -> u32 {
    if height >= 3 {
        (height - 3) as u32
    } else {
        0u32
    }
}

/// The shell state that outlives a session, plus the running session's
/// engine while one is on.
pub struct Model {
    pub page: Page,
    pub lang: Lang,
    pub level: Level,
    /// The best `(typed_chars, cpm)` pair seen so far; persisted by the
    /// caller, merged here from the engine's output.
    pub highscore: (u32, u32),
    pub width: u32,
    pub height: u32,
    pub game: Option<GameEngine>,
}

impl Model {
    /// Whatever session is on is well formed.
    pub open spec fn wf(self) -> bool {
        self.game matches Some(g) ==> g.wf()
    }
}

impl Default for Model {
    /// The fresh shell: welcome page, English, easy, a zero high score, the
    /// default field geometry, and no session.
    fn default() -> (r: Model)
        ensures
            r.wf(),
            r.page is Welcome,
            r.lang is En,
            r.level is Easy,
            r.highscore == (0u32, 0u32),
            r.width == 124,
            r.height == 32,
            r.game is None,
    {
        Model {
            page: Page::Welcome,
            lang: Lang::En,
            level: Level::Easy,
            highscore: (0, 0),
            width: 124,
            height: 32,
            game: None,
        }
    }
}

impl Model {
    /// Starts a session on the given word list: the engine validates the
    /// configuration, and on success the shell turns to the main page with
    /// a fresh running session.  On a configuration error nothing changes.
    pub fn start_game(&mut self, words: Vec<String>, seed: u64) -> (r: Result<(), ConfigError>)
        requires
            old(self).wf(),
        ensures
            final(self).wf(),
            r is Ok <==> spec_config_ok(
                words.deep_view(),
                old(self).width,
                spec_floor_row(old(self).height),
            ),
            r is Err ==> *final(self) == *old(self),
            r is Ok ==> final(self).page is Main && final(self).lang == old(self).lang
                && final(self).level == old(self).level
                && final(self).highscore == old(self).highscore
                && final(self).width == old(self).width
                && final(self).height == old(self).height,
            r is Ok ==> (final(self).game matches Some(g) && g.wf() && g.state is Running
                && g.level == old(self).level && g.width == old(self).width && g.floor_row
                == spec_floor_row(old(self).height) && g.metrics.typed_chars == 0 && g.control
                == spec_control(old(self).level, 0) && g.list.model().len() == 1
                && g.list.model()[0].row == 1 && g.supply.words.deep_view().to_multiset()
                == words.deep_view().to_multiset()),
    {
        let floor_row = if self.height >= 3 {
            self.height - 3
        } else {
            0
        };
        match GameEngine::new(words, self.level, self.width, floor_row, seed) {
            Ok(engine) => {
                self.game = Some(engine);
                self.page = Page::Main;
                Ok(())
            },
            Err(e) => Err(e),
        }
    }

    /// One keystroke while playing: the engine runs a tick carrying the
    /// typed character, and the shell merges the engine's typed-character
    /// count and speed readout into the high score it owns.
    pub fn letter(&mut self, value: char, now: u64)
        requires
            old(self).wf(),
            old(self).page is Main,
            old(self).game matches Some(g) && g.state is Running && g.metrics.typed_chars
                < u32::MAX && 3 * (g.metrics.typed_chars - g.metrics.window_chars) <= u32::MAX,
        ensures
            final(self).wf(),
            final(self).page == old(self).page,
            final(self).lang == old(self).lang,
            final(self).level == old(self).level,
            final(self).width == old(self).width,
            final(self).height == old(self).height,
            old(self).game matches Some(og) ==> (final(self).game matches Some(g) && (exists|
                x: u32,
            | #[trigger] GameEngine::spec_tick_rel(og, g, Some(value), x))
                && g.metrics.typed_chars == og.metrics.typed_chars + (if og.key_hits(Some(value)) {
                1int
            } else {
                0int
            }) && final(self).highscore.0 == spec_max_u32(
                old(self).highscore.0,
                g.metrics.typed_chars,
            ) && final(self).highscore.1 == spec_max_u32(
                old(self).highscore.1,
                g.metrics.cpm,
            )),
    {
        let g_opt = self.game.take();
        match g_opt {
            Some(mut g) => {
                g.tick(Some(value), now);
                let t = g.metrics.typed_chars;
                let c = g.metrics.cpm;
                if t > self.highscore.0 {
                    self.highscore.0 = t;
                }
                if c > self.highscore.1 {
                    self.highscore.1 = c;
                }
                self.game = Some(g);
            },
            None => {},
        }
    }

    /// One frame while playing: the engine runs a tick without a
    /// keystroke, and when the session ends with a word on the floor the
    /// shell returns to the welcome page.
    pub fn step_game(&mut self, now: u64)
        requires
            old(self).wf(),
            old(self).page is Main,
            old(self).game matches Some(g) && g.state is Running && g.metrics.typed_chars
                < u32::MAX && 3 * (g.metrics.typed_chars - g.metrics.window_chars) <= u32::MAX,
        ensures
            final(self).wf(),
            final(self).lang == old(self).lang,
            final(self).level == old(self).level,
            final(self).width == old(self).width,
            final(self).height == old(self).height,
            final(self).highscore == old(self).highscore,
            old(self).game matches Some(og) ==> (final(self).game matches Some(g) && (exists|
                x: u32,
            | #[trigger] GameEngine::spec_tick_rel(og, g, None::<char>, x))
                && g.metrics.typed_chars == og.metrics.typed_chars && final(self).page == (
            if g.state is Ended {
                Page::Welcome
            } else {
                old(self).page
            })),
    {
        let g_opt = self.game.take();
        match g_opt {
            Some(mut g) => {
                let st = g.tick(None, now);
                match st {
                    GameState::Ended(_) => {
                        self.page = Page::Welcome;
                    },
                    GameState::Running => {},
                }
                self.game = Some(g);
            },
            None => {},
        }
    }

    /// The player quit mid-session: the session ends at once with the
    /// queue and metrics untouched, and the shell returns to the welcome
    /// page.
    pub fn quit_session(&mut self)
        requires
            old(self).wf(),
            old(self).page is Main,
            old(self).game matches Some(g) && g.state is Running,
        ensures
            final(self).wf(),
            final(self).page is Welcome,
            final(self).lang == old(self).lang,
            final(self).level == old(self).level,
            final(self).width == old(self).width,
            final(self).height == old(self).height,
            final(self).highscore == old(self).highscore,
            old(self).game matches Some(og) ==> final(self).game == Some(
                GameEngine { state: GameState::Ended(EndReason::PlayerQuit), ..og },
            ),
    {
        let g_opt = self.game.take();
        match g_opt {
            Some(mut g) => {
                g.quit();
                self.game = Some(g);
            },
            None => {},
        }
        self.page = Page::Welcome;
    }
}

} // verus!
