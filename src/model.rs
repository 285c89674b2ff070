use vstd::prelude::*;

verus! {

/// Tempo in quarter notes per minute.
///
/// Any 16-bit value is read from the text; a tempo of zero is refused when a
/// whole ring tone is parsed, since no note would then have a finite length.
pub type Tempo = u16;

/// Note length, relative to the tempo.
#[derive(Clone, Copy, Debug, PartialEq, Eq, Structural)]
pub enum Duration {
    Whole,
    Half,
    Quarter,
    Eighth,
    Sixteenth,
    ThirtySecond,
}

/// Octave of a note.
#[derive(Clone, Copy, Debug, PartialEq, Eq, Structural)]
pub enum Octave {
    O4,
    O5,
    O6,
    O7,
}

/// Pitch class of a note within its octave.
///
/// Sharps written in the text are stored as the flat of the next letter
/// (`a#` is `Bb`, `c#` is `Db`): the two name the same tone.
#[derive(Clone, Copy, Debug, PartialEq, Eq, Structural)]
pub enum Pitch {
    A,
    Bb,
    B,
    C,
    Db,
    D,
    Eb,
    E,
    F,
    Gb,
    G,
    Ab,
}

/// The defaults of a ring tone, inherited by every note that does not set
/// its own duration or octave.
#[derive(Clone, Copy, Debug, PartialEq, Eq, Structural)]
pub struct Settings {
    pub duration: Duration,
    pub octave: Octave,
    pub tempo: Tempo,
}

/// A single note, or a rest when `pitch` is `None`.
///
/// A missing duration or octave falls back to the ring tone's settings. The
/// octave of a rest is kept as written but never used.
#[derive(Clone, Copy, Debug, PartialEq, Eq, Structural)]
pub struct Note {
    pub duration: Option<Duration>,
    pub pitch: Option<Pitch>,
    pub octave: Option<Octave>,
    pub dotted: bool,
}

/// Length of a duration in thirty-second notes.
pub open spec fn weight_of(d: Duration) -> nat {
    match d {
        Duration::Whole => 32,
        Duration::Half => 16,
        Duration::Quarter => 8,
        Duration::Eighth => 4,
        Duration::Sixteenth => 2,
        Duration::ThirtySecond => 1,
    }
}

/// Signed distance in semitones from A within the same octave.
pub open spec fn semitone_offset_of(p: Pitch) -> int {
    match p {
        Pitch::A => 0,
        Pitch::Bb => 1,
        Pitch::B => 2,
        Pitch::C => -9,
        Pitch::Db => -8,
        Pitch::D => -7,
        Pitch::Eb => -6,
        Pitch::E => -5,
        Pitch::F => -4,
        Pitch::Gb => -3,
        Pitch::G => -2,
        Pitch::Ab => -1,
    }
}

/// Factor by which an octave raises the frequencies of octave 4.
pub open spec fn octave_factor_of(o: Octave) -> nat {
    match o {
        Octave::O4 => 1,
        Octave::O5 => 2,
        Octave::O6 => 4,
        Octave::O7 => 8,
    }
}

/// Quarter notes, octave 5, tempo 120.
pub open spec fn default_settings() -> Settings {
    Settings { duration: Duration::Quarter, octave: Octave::O5, tempo: 120 }
}

impl Duration {
    /// Length in thirty-second notes: 32, 16, 8, 4, 2 or 1.
    pub fn weight(self) -> (r: u32)
        ensures
            r == weight_of(self),
    {
        match self {
            Duration::Whole => 32,
            Duration::Half => 16,
            Duration::Quarter => 8,
            Duration::Eighth => 4,
            Duration::Sixteenth => 2,
            Duration::ThirtySecond => 1,
        }
    }
}

impl Pitch {
    /// Semitones from A in the same octave, from -9 (C) to 2 (B).
    pub fn semitone_offset(self) -> (r: i32)
        ensures
            r == semitone_offset_of(self),
            -9 <= r <= 2,
    {
        match self {
            Pitch::A => 0,
            Pitch::Bb => 1,
            Pitch::B => 2,
            Pitch::C => -9,
            Pitch::Db => -8,
            Pitch::D => -7,
            Pitch::Eb => -6,
            Pitch::E => -5,
            Pitch::F => -4,
            Pitch::Gb => -3,
            Pitch::G => -2,
            Pitch::Ab => -1,
        }
    }
}

impl Octave {
    /// Frequency factor relative to octave 4, where A is 440 Hz: 1, 2, 4 or 8.
    pub fn multiplier(self) -> (r: u32)
        ensures
            r == octave_factor_of(self),
    {
        match self {
            Octave::O4 => 1,
            Octave::O5 => 2,
            Octave::O6 => 4,
            Octave::O7 => 8,
        }
    }
}

impl Default for Settings {
    fn default() -> (r: Settings)
        ensures
            r == default_settings(),
    {
        Settings { duration: Duration::Quarter, octave: Octave::O5, tempo: 120 }
    }
}

/// One entry of the settings section, as an update of the defaults.
#[derive(Clone, Copy, Debug, PartialEq, Eq, Structural)]
pub enum Setting {
    Duration(Duration),
    Octave(Octave),
    Tempo(Tempo),
    Ignored,
}

impl Setting {
    /// Applies one setting to `settings`: the field it names takes its value.
    pub fn put(settings: Settings, setting: Setting) -> (r: Settings)
        ensures
            r == apply_setting(settings, setting),
    {
        match setting {
            Setting::Duration(duration) => Settings { duration, ..settings },
            Setting::Octave(octave) => Settings { octave, ..settings },
            Setting::Tempo(tempo) => Settings { tempo, ..settings },
            Setting::Ignored => settings,
        }
    }
}

/// The settings after applying `list` from left to right to the defaults: the
/// last update of each field wins.
pub open spec fn resolve_settings(list: Seq<Setting>) -> Settings
    decreases list.len(),
{
    if list.len() == 0 {
        default_settings()
    } else {
        apply_setting(resolve_settings(list.drop_last()), list.last())
    }
}

pub open spec fn apply_setting(settings: Settings, setting: Setting) -> Settings {
    match setting {
        Setting::Duration(duration) => Settings { duration, ..settings },
        Setting::Octave(octave) => Settings { octave, ..settings },
        Setting::Tempo(tempo) => Settings { tempo, ..settings },
        Setting::Ignored => settings,
    }
}

/// Both settings update the same field of `Settings`.
pub open spec fn same_field(a: Setting, b: Setting) -> bool {
    ||| a is Duration && b is Duration
    ||| a is Octave && b is Octave
    ||| a is Tempo && b is Tempo
}

/// No field is set twice in `list`.
pub open spec fn fields_distinct(list: Seq<Setting>) -> bool {
    forall|i: int, j: int| 0 <= i < j < list.len() ==> !same_field(#[trigger] list[i], #[trigger] list[j])
}

/// With every field set at most once, each field of the result is the value
/// that the list gives it, or the default where the list gives none.
pub proof fn lemma_resolved_fields(list: Seq<Setting>)
    requires
        fields_distinct(list),
    ensures
        forall|d: Duration| #[trigger] list.contains(Setting::Duration(d)) ==> resolve_settings(list).duration == d,
        forall|o: Octave| #[trigger] list.contains(Setting::Octave(o)) ==> resolve_settings(list).octave == o,
        forall|t: Tempo| #[trigger] list.contains(Setting::Tempo(t)) ==> resolve_settings(list).tempo == t,
        (forall|d: Duration| !list.contains(Setting::Duration(d))) ==> resolve_settings(list).duration == default_settings().duration,
        (forall|o: Octave| !list.contains(Setting::Octave(o))) ==> resolve_settings(list).octave == default_settings().octave,
        (forall|t: Tempo| !list.contains(Setting::Tempo(t))) ==> resolve_settings(list).tempo == default_settings().tempo,
    decreases list.len(),
{
    if list.len() > 0 {
        let init = list.drop_last();
        let last = list.last();
        assert(fields_distinct(init)) by {
            assert forall|i: int, j: int| 0 <= i < j < init.len() implies !same_field(#[trigger] init[i], #[trigger] init[j]) by {
                assert(init[i] == list[i] && init[j] == list[j]);
            }
        }
        lemma_resolved_fields(init);
        assert forall|x: Setting| #[trigger] list.contains(x) && x != last implies init.contains(x) by {
            let k = choose|k: int| 0 <= k < list.len() && list[k] == x;
            assert(k != list.len() - 1);
            assert(init[k] == x);
        }
        assert forall|x: Setting| #[trigger] init.contains(x) implies !same_field(x, last) by {
            let k = choose|k: int| 0 <= k < init.len() && init[k] == x;
            assert(list[k] == x);
            assert(!same_field(list[k], list[list.len() - 1]));
        }
        assert(list.contains(last)) by {
            assert(list[list.len() - 1] == last);
        }
        assert forall|x: Setting| #[trigger] init.contains(x) implies list.contains(x) by {
            let k = choose|k: int| 0 <= k < init.len() && init[k] == x;
            assert(list[k] == x);
        }
    }
}

} // verus!
