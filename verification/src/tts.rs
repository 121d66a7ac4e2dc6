//! Text-to-speech: the speech values handed to a synthesizer, the builder
//! that assembles markup-controlled speech, and voice selection.

mod markup;
mod numtext;
mod speech;
mod tracker;
mod voice;

pub use markup::{rendered_markup, written_events, MarkupEvent, MarkupEventModel, SpeechBuilder};
pub use numtext::{dec_digit, decimal_string, decimal_string_signed, spec_decimal, spec_decimal_signed};
pub use speech::{Pitch, Rate, SayAs, Speech, Volume};
pub use tracker::{PendingState, SpeechTracker};
pub use voice::{installed_voice_query, Voice, VoiceAge, VoiceGender, VoiceSelector};
