//! Karukan: the logic of a Japanese input method — romaji-to-kana
//! conversion with configurable symbols and widths, a learning cache of the
//! user's conversion choices with its save format, and the engine that
//! turns key events into preedit updates, candidate windows and commits —
//! with its behaviour stated as contracts and proved by Verus.

pub mod text;
pub mod style;
pub mod width;
pub mod rules;
pub mod converter;
pub mod tsv;
pub mod learning;
pub mod settings;
pub mod candidate;
pub mod preedit;
pub mod state;
pub mod engine_types;
pub mod keys;
pub mod input_buffer;
pub mod engine;

pub use converter::{Converted, RomajiConverter};
pub use engine::InputMethodEngine;
pub use learning::{LearningCache, LearningConfig, LearningEntry};
pub use rules::RuleTable;
pub use style::{BracketStyle, PunctuationStyle, SlashStyle, SymbolStyle};
pub use width::{Width, WidthRules};
