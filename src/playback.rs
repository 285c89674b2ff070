use vstd::prelude::*;

use crate::model::{weight_of, Duration, Note, Octave, Pitch, Settings};

verus! {

/// An exact length of time: `numer / denom` seconds.
#[derive(Clone, Copy, Debug, PartialEq, Eq, Structural)]
pub struct Seconds {
    pub numer: u32,
    pub denom: u32,
}

/// A note resolved against the ring tone's settings, ready to be rendered.
#[derive(Clone, Copy, Debug, PartialEq, Eq, Structural)]
pub enum PlayedTone {
    /// A tone of the given pitch and octave.
    Note { pitch: Pitch, octave: Octave, duration: Seconds },
    /// A rest.
    Silence { duration: Seconds },
}

/// The duration a note plays with: its own, or the default one.
pub open spec fn resolved_duration(settings: Settings, note: Note) -> Duration {
    match note.duration {
        Some(d) => d,
        None => settings.duration,
    }
}

/// The octave a note plays in: its own, or the default one.
pub open spec fn resolved_octave(settings: Settings, note: Note) -> Octave {
    match note.octave {
        Some(o) => o,
        None => settings.octave,
    }
}

/// Length of a note in sixty-fourth notes: twice its weight in thirty-second
/// notes, or three times that weight when it is dotted.
pub open spec fn sixty_fourths(settings: Settings, note: Note) -> nat {
    weight_of(resolved_duration(settings, note)) * if note.dotted {
        3nat
    } else {
        2nat
    }
}

/// How long a note lasts. A thirty-second note lasts `60 / 8 / tempo`
/// seconds, since the tempo counts quarter notes per minute; a sixty-fourth
/// note half of that, `60 / (16 * tempo)`.
pub open spec fn note_seconds(settings: Settings, note: Note) -> Seconds {
    Seconds {
        numer: (60 * sixty_fourths(settings, note)) as u32,
        denom: (16 * settings.tempo) as u32,
    }
}

/// The tone that a note plays under `settings`: a rest where it has no pitch.
pub open spec fn played_tone(settings: Settings, note: Note) -> PlayedTone {
    match note.pitch {
        None => PlayedTone::Silence { duration: note_seconds(settings, note) },
        Some(pitch) => PlayedTone::Note {
            pitch,
            octave: resolved_octave(settings, note),
            duration: note_seconds(settings, note),
        },
    }
}

/// The tones that `notes` play under `settings`, in order.
pub open spec fn played_tones(settings: Settings, notes: Seq<Note>) -> Seq<PlayedTone> {
    notes.map_values(|n: Note| played_tone(settings, n))
}

/// Resolves a note against the settings.
pub fn play_note(settings: Settings, note: Note) -> (r: PlayedTone)
    requires
        settings.tempo > 0,
    ensures
        r == played_tone(settings, note),
{
    let duration = match note.duration {
        Some(d) => d,
        None => settings.duration,
    };
    let units: u32 = duration.weight() * if note.dotted {
        3
    } else {
        2
    };
    let seconds = Seconds { numer: 60 * units, denom: 16 * settings.tempo as u32 };
    match note.pitch {
        None => PlayedTone::Silence { duration: seconds },
        Some(pitch) => {
            let octave = match note.octave {
                Some(o) => o,
                None => settings.octave,
            };
            PlayedTone::Note { pitch, octave, duration: seconds }
        },
    }
}

/// The tones of a ring tone, produced one at a time in note order. It runs
/// once: a new one is needed to play the ring tone again.
pub struct PlayedNoteIter<'a> {
    notes: &'a Vec<Note>,
    settings: Settings,
    index: usize,
}

impl<'a> PlayedNoteIter<'a> {
    #[verifier::type_invariant]
    spec fn well_formed(&self) -> bool {
        &&& self.index <= self.notes.len()
        &&& self.settings.tempo > 0
    }

    /// The tones still to come.
    pub closed spec fn remaining(&self) -> Seq<PlayedTone> {
        played_tones(self.settings, self.notes@.skip(self.index as int))
    }

    pub(crate) fn new(notes: &'a Vec<Note>, settings: Settings) -> (r: PlayedNoteIter<'a>)
        requires
            settings.tempo > 0,
        ensures
            r.remaining() == played_tones(settings, notes@),
    {
        let r = PlayedNoteIter { notes, settings, index: 0 };
        assert(notes@.skip(0) =~= notes@);
        r
    }

    /// The next tone, or `None` once every note has been played.
    pub fn next(&mut self) -> (r: Option<PlayedTone>)
        ensures
            old(self).remaining().len() > 0 ==> r == Some(old(self).remaining()[0])
                && final(self).remaining() == old(self).remaining().drop_first(),
            old(self).remaining().len() == 0 ==> r is None && final(self).remaining() == old(
                self,
            ).remaining(),
    {
        proof {
            use_type_invariant(&*self);
        }
        if self.index < self.notes.len() {
            let tone = play_note(self.settings, self.notes[self.index]);
            let ghost before = self.notes@.skip(self.index as int);
            self.index = self.index + 1;
            assert(self.notes@.skip(self.index as int) =~= before.drop_first());
            assert(played_tones(self.settings, before.drop_first()) =~= played_tones(
                self.settings,
                before,
            ).drop_first());
            Some(tone)
        } else {
            None
        }
    }
}

} // verus!
