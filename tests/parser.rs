use ringtone::parser::{name, note, settings};
use ringtone::{
    parse_input, Duration, Expected, Note, Octave, ParseError, Pitch, Ringtone, Setting, Settings,
};

#[test]
fn test_parse_name() {
    let input = "Ringtone! Hi!:";

    assert_eq!(
        name(input),
        Ok((":".to_string(), "Ringtone! Hi!".to_string()))
    );
}

#[test]
fn test_parse_settings() {
    let input = "d=4,o=7,b=108";

    assert_eq!(
        settings(input),
        Ok((
            "".to_string(),
            Settings {
                duration: Duration::Quarter,
                octave: Octave::O7,
                tempo: 108,
            }
        ))
    );

    let input = "d=16";

    assert_eq!(
        settings(input),
        Ok((
            "".to_string(),
            Settings {
                duration: Duration::Sixteenth,
                octave: Octave::O5,
                tempo: 120,
            }
        ))
    );

    let input = "o=4";

    assert_eq!(
        settings(input),
        Ok((
            "".to_string(),
            Settings {
                duration: Duration::Quarter,
                octave: Octave::O4,
                tempo: 120,
            }
        ))
    );
}

#[test]
fn test_parse_note() {
    assert_eq!(
        note("2a4"),
        Ok((
            "".to_string(),
            Note {
                duration: Some(Duration::Half),
                pitch: Some(Pitch::A),
                octave: Some(Octave::O4),
                dotted: false,
            },
        ))
    );

    assert_eq!(
        note("2e"),
        Ok((
            "".to_string(),
            Note {
                duration: Some(Duration::Half),
                pitch: Some(Pitch::E),
                octave: None,
                dotted: false,
            },
        ))
    );

    assert_eq!(
        note("2d#"),
        Ok((
            "".to_string(),
            Note {
                duration: Some(Duration::Half),
                pitch: Some(Pitch::Eb),
                octave: None,
                dotted: false,
            },
        ))
    );

    assert_eq!(
        note("32a#4"),
        Ok((
            "".to_string(),
            Note {
                duration: Some(Duration::ThirtySecond),
                pitch: Some(Pitch::Bb),
                octave: Some(Octave::O4),
                dotted: false,
            },
        ))
    );

    assert_eq!(
        note("8c#7."),
        Ok((
            "".to_string(),
            Note {
                duration: Some(Duration::Eighth),
                pitch: Some(Pitch::Db),
                octave: Some(Octave::O7),
                dotted: true,
            },
        ))
    );

    assert_eq!(
        note("8c#.7"),
        Ok((
            "".to_string(),
            Note {
                duration: Some(Duration::Eighth),
                pitch: Some(Pitch::Db),
                octave: Some(Octave::O7),
                dotted: true,
            },
        ))
    );

    assert_eq!(
        note("g"),
        Ok((
            "".to_string(),
            Note {
                duration: None,
                pitch: Some(Pitch::G),
                octave: None,
                dotted: false,
            },
        ))
    );

    assert_eq!(
        note("4p."),
        Ok((
            "".to_string(),
            Note {
                duration: Some(Duration::Quarter),
                pitch: None,
                octave: None,
                dotted: true,
            },
        ))
    );
}

#[test]
fn test_parse_input() {
    let input = "Nokia: d=4,o=5,b=120,l=5,s=4: 16e6, 16d6, 8f#, 8g#, 16c#6, 16b, 8d, 8e, 16b, 16a, 8c#, 8e, 2a, 2p";

    let ringtone = parse_input(input).expect("successful parse");

    assert_eq!(ringtone.name(), "Nokia");
    assert_eq!(
        ringtone.settings(),
        Settings {
            duration: Duration::Quarter,
            octave: Octave::O5,
            tempo: 120
        }
    );

    assert_eq!(ringtone.notes().len(), 14);
}

#[test]
fn settings_key_order_does_not_matter() {
    let a = settings("d=4,o=7,b=108").unwrap().1;
    let b = settings("b=108,o=7,d=4").unwrap().1;
    let c = settings("o=7,d=4,b=108").unwrap().1;
    assert_eq!(a, b);
    assert_eq!(a, c);
}

#[test]
fn settings_last_writer_wins() {
    let s = settings("b=100,d=8,b=140").unwrap().1;
    assert_eq!(s.tempo, 140);
    assert_eq!(s.duration, Duration::Eighth);
    assert_eq!(s.octave, Octave::O5);
}

#[test]
fn settings_duration_alone_keeps_defaults() {
    assert_eq!(
        settings("d=4"),
        Ok((
            "".to_string(),
            Settings {
                duration: Duration::Quarter,
                octave: Octave::O5,
                tempo: 120,
            }
        ))
    );
}

#[test]
fn settings_stop_before_the_next_section() {
    let (rest, s) = settings("d=8 : 4c").unwrap();
    assert_eq!(rest, " : 4c");
    assert_eq!(s.duration, Duration::Eighth);
}

#[test]
fn settings_ignore_length_and_style_values() {
    let s = settings("l=5,s=-4,o=6").unwrap().1;
    assert_eq!(
        s,
        Settings {
            duration: Duration::Quarter,
            octave: Octave::O6,
            tempo: 120,
        }
    );
    assert!(settings("l=4294967296").is_err());
    assert!(settings("l=4294967295").is_ok());
}

#[test]
fn settings_tempo_range() {
    assert_eq!(settings("b=65535").unwrap().1.tempo, 65535);
    assert_eq!(settings("b=0120").unwrap().1.tempo, 120);
    assert!(settings("b=65536").is_err());
    assert!(settings("b=-5").is_err());
    assert!(settings("b=").is_err());
}

#[test]
fn settings_reject_unknown_codes() {
    assert!(settings("d=64").is_err());
    assert!(settings("o=3").is_err());
    assert!(settings("x=3").is_err());
    assert!(settings("").is_err());
}

#[test]
fn note_duration_codes_longest_first() {
    assert_eq!(note("16c").unwrap().1.duration, Some(Duration::Sixteenth));
    assert_eq!(note("1c").unwrap().1.duration, Some(Duration::Whole));
    assert_eq!(note("32c").unwrap().1.duration, Some(Duration::ThirtySecond));
    assert_eq!(note("8c").unwrap().1.duration, Some(Duration::Eighth));
}

#[test]
fn note_dot_on_both_sides_is_single_dot() {
    let (rest, n) = note("4a.5.").unwrap();
    assert_eq!(rest, "");
    assert!(n.dotted);
    assert_eq!(n.octave, Some(Octave::O5));
}

#[test]
fn note_sharps_become_flats() {
    assert_eq!(note("a#").unwrap().1.pitch, Some(Pitch::Bb));
    assert_eq!(note("c#").unwrap().1.pitch, Some(Pitch::Db));
    assert_eq!(note("d#").unwrap().1.pitch, Some(Pitch::Eb));
    assert_eq!(note("f#").unwrap().1.pitch, Some(Pitch::Gb));
    assert_eq!(note("g#").unwrap().1.pitch, Some(Pitch::Ab));
}

#[test]
fn note_rejects_unknown_pitches() {
    assert!(note("4h").is_err());
    assert!(note("b#").is_err());
    assert!(note("e#").is_err());
    assert!(note("p#").is_err());
    assert!(note("4").is_err());
    assert!(note("A").is_err());
}

#[test]
fn note_leaves_what_follows() {
    assert_eq!(note("8c6, 4d").unwrap().0, ", 4d");
}

#[test]
fn name_needs_one_character() {
    assert!(matches!(
        name(":d=4"),
        Err(ParseError::Syntax { position: 0, expected: Expected::Name })
    ));
    assert_eq!(name("Tune").unwrap(), ("".to_string(), "Tune".to_string()));
}

#[test]
fn parse_keeps_the_name_as_written() {
    let r = Ringtone::parse("Théme 1 :d=4:c").unwrap();
    assert_eq!(r.name(), "Théme 1 ");
}

#[test]
fn parse_allows_whitespace_around_separators() {
    let r = Ringtone::parse("x : d=4 , o=6 :\n4c , 8d,\t2p").unwrap();
    assert_eq!(r.notes().len(), 3);
    assert_eq!(r.settings().octave, Octave::O6);
}

#[test]
fn parse_rejects_missing_separators() {
    assert!(matches!(
        Ringtone::parse("Nokia d=4 4c"),
        Err(ParseError::Syntax { .. })
    ));
    assert!(matches!(
        Ringtone::parse("Nokia: d=4 4c"),
        Err(ParseError::Syntax { .. })
    ));
    assert!(matches!(
        Ringtone::parse("Nokia: d=4, 4c"),
        Err(ParseError::Syntax { .. })
    ));
}

#[test]
fn parse_rejects_unknown_pitch_letters() {
    assert!(matches!(
        Ringtone::parse("Nokia: d=4: 4c, 4h"),
        Err(ParseError::Syntax { position: 16, expected: Expected::Note })
    ));
    assert!(Ringtone::parse("x:d=4:4e#").is_err());
}

#[test]
fn parse_rejects_trailing_input() {
    assert!(matches!(
        Ringtone::parse("x:d=4:4c x"),
        Err(ParseError::Syntax { position: 8, expected: Expected::End })
    ));
    assert!(Ringtone::parse("x:d=4:4c,").is_err());
    assert!(Ringtone::parse("x:d=4:4c ").is_err());
}

#[test]
fn parse_rejects_empty_sections() {
    assert!(Ringtone::parse("x::4c").is_err());
    assert!(Ringtone::parse("x:d=4:").is_err());
    assert!(Ringtone::parse("").is_err());
}

#[test]
fn parse_rejects_zero_tempo() {
    assert_eq!(
        Ringtone::parse("x:b=0:4c").err(),
        Some(ParseError::ZeroTempo)
    );
    assert!(Ringtone::parse("x:b=0,b=60:4c").is_ok());
}

#[test]
fn setting_put_replaces_one_field() {
    let base = Settings::default();
    assert_eq!(
        Setting::put(base, Setting::Tempo(90)),
        Settings {
            duration: Duration::Quarter,
            octave: Octave::O5,
            tempo: 90,
        }
    );
    assert_eq!(
        Setting::put(base, Setting::Duration(Duration::Half)).duration,
        Duration::Half
    );
    assert_eq!(Setting::put(base, Setting::Octave(Octave::O7)).octave, Octave::O7);
    assert_eq!(Setting::put(base, Setting::Ignored), base);
}
