//! Ring-tone notation: a parser for the `name:settings:notes` text format, a
//! playback sequence that resolves each note to a pitch and an exact duration,
//! and the sample-index logic of the amplitude envelope used when rendering.
pub mod envelope;
pub mod grammar;
pub mod model;
pub mod parser;
pub mod playback;
pub mod ringtone;

pub use envelope::{Envelope, EnvelopePhases, Stage};
pub use model::{Duration, Note, Octave, Pitch, Setting, Settings, Tempo};
pub use parser::{parse_input, Expected, ParseError};
pub use playback::{PlayedNoteIter, PlayedTone, Seconds};
pub use ringtone::Ringtone;
