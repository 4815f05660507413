//! Chat of non-player characters: their personalities, what they remember, how
//! they relate to each other, and what they say when something happens.
pub mod backend;
pub mod context;
pub mod default_laws;
pub mod defaults;
pub mod dice;
pub mod engine;
pub mod neural;
pub mod personality;
pub mod phrasebook;
pub mod prompt_laws;
pub mod relationship;
pub mod state;
pub mod style;
pub mod tokenizer;
pub mod trigger;
pub mod trigger_laws;
