//! A simplified, verified model of a speech recognition and synthesis
//! front-end.
//!
//! The heart of the crate is the grammar-to-automaton compiler: it takes a
//! tree of recognition rules (text, choice, sequence, repeat, semantic
//! annotation) and produces a deduplicated finite-state graph with wired
//! transitions, repeat-count unrolling and semantic-tag propagation. Around
//! it stand the semantic value model with its engine-property codec, the
//! reconstruction of semantic trees from recognition results, the
//! enable/disable lifecycle with its pause gate, and the plain value types
//! used to select voices, describe audio formats and build synthesis markup.
//!
//! The recognition/synthesis engine itself is an external collaborator: this
//! crate produces the data the engine consumes (compiled automata, markup
//! strings, state-change requests) and decodes the data it emits (events,
//! property lists), but never talks to it directly.

pub mod audio;
pub mod stt;
pub mod tts;

mod locale;
mod text;

pub use locale::Locale;
