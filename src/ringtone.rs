use vstd::prelude::*;

use crate::grammar::{has_zero_tempo, is_playable, ringtone_text, RingtoneText};
use crate::model::{Note, Settings};
use crate::parser::{parse_input, ParseError};
use crate::playback::{played_tones, PlayedNoteIter};

verus! {

/// A parsed ring tone: its name, its default settings and its notes in order.
///
/// It is read-only once parsed, and its tempo is never zero.
pub struct Ringtone {
    name: String,
    settings: Settings,
    notes: Vec<Note>,
}

impl View for Ringtone {
    type V = RingtoneText;

    closed spec fn view(&self) -> RingtoneText {
        RingtoneText { name: self.name@, settings: self.settings, notes: self.notes@ }
    }
}

impl Ringtone {
    #[verifier::type_invariant]
    spec fn tempo_is_positive(&self) -> bool {
        self.settings.tempo > 0
    }

    pub(crate) fn from_parts(name: String, settings: Settings, notes: Vec<Note>) -> (r: Ringtone)
        requires
            settings.tempo > 0,
        ensures
            r@ == (RingtoneText { name: name@, settings, notes: notes@ }),
    {
        Ringtone { name, settings, notes }
    }

    /// Parses a ring tone text; see [`parse_input`].
    pub fn parse(input: &str) -> (r: Result<Ringtone, ParseError>)
        ensures
            r is Ok <==> is_playable(input@),
            r matches Ok(rt) ==> ringtone_text(input@) == Some(rt@),
            r == Err::<Ringtone, ParseError>(ParseError::ZeroTempo) <==> has_zero_tempo(input@),
            r matches Err(ParseError::Syntax { position, .. }) ==> ringtone_text(input@) is None
                && position <= input@.len(),
    {
        parse_input(input)
    }

    /// The name, as written before the first `:`.
    pub fn name(&self) -> (r: &String)
        ensures
            r@ == self@.name,
    {
        &self.name
    }

    /// The resolved settings; the tempo is never zero.
    pub fn settings(&self) -> (r: Settings)
        ensures
            r == self@.settings,
            r.tempo > 0,
    {
        proof {
            use_type_invariant(self);
        }
        self.settings
    }

    /// The tones of the ring tone in order, each note resolved against the
    /// settings.
    pub fn iter(&self) -> (r: PlayedNoteIter<'_>)
        ensures
            r.remaining() == played_tones(self@.settings, self@.notes),
    {
        proof {
            use_type_invariant(self);
        }
        PlayedNoteIter::new(&self.notes, self.settings)
    }

    /// The notes, in the order written.
    pub fn notes(&self) -> (r: &Vec<Note>)
        ensures
            r@ == self@.notes,
    {
        &self.notes
    }
}

} // verus!
