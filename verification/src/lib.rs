//! Core simulation engine for a falling-word typing trainer.
//!
//! Words spawn at random columns at the top of a play field, descend at a
//! difficulty-controlled rate, and the player consumes the head word one
//! leading character at a time.  This crate holds the verified game logic:
//! the difficulty schedule, the active word queue, the typing-speed metrics,
//! the word supply, the per-tick state machine, and the high-score record
//! codec.  Terminal drawing and input polling live outside the crate.

pub mod engine;
pub mod highscore;
pub mod metrics;
pub mod queue;
pub mod rng;
pub mod schedule;
pub mod session;
pub mod supply;
pub mod words;

pub use engine::ConfigError;
pub use engine::EndReason;
pub use engine::GameEngine;
pub use engine::GameState;
pub use highscore::read_highscore_file;
pub use metrics::MetricsTracker;
pub use queue::ActiveQueue;
pub use queue::ActiveWord;
pub use queue::new_active;
pub use rng::rand_pos;
pub use schedule::Level;
pub use schedule::is_milestone;
pub use schedule::modify_difficulty;
pub use session::Lang;
pub use session::Model;
pub use session::Page;
pub use supply::WordSupply;
