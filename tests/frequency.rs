use ringtone::{Octave, Pitch};

/// Frequency of A in octave 4, and the ratio between two semitones.
const FREQ_A4: f32 = 440.0;
const STEP: f32 = 1.059463094359;

fn fundamental(pitch: Pitch, octave: Octave) -> f32 {
    FREQ_A4 * octave.multiplier() as f32 * STEP.powi(pitch.semitone_offset())
}

#[test]
fn test_fundamental() {
    fn check(freq: f32, expected: f32) {
        let diff = f32::abs(freq - expected);
        assert!(diff < 0.1, "{freq} differs from {expected}");
    }

    check(fundamental(Pitch::A, Octave::O4), 440.0);
    check(fundamental(Pitch::Ab, Octave::O5), 830.61);
    check(fundamental(Pitch::F, Octave::O4), 349.23);
    check(fundamental(Pitch::A, Octave::O6), 1760.0);
    check(fundamental(Pitch::Eb, Octave::O5), 622.25);
    check(fundamental(Pitch::C, Octave::O5), 523.25);
    check(fundamental(Pitch::B, Octave::O5), 987.77);
    check(fundamental(Pitch::E, Octave::O4), 329.63);
    check(fundamental(Pitch::Ab, Octave::O6), 1661.22);
    check(fundamental(Pitch::Db, Octave::O5), 554.37);
    check(fundamental(Pitch::Gb, Octave::O4), 369.99);
    check(fundamental(Pitch::Gb, Octave::O4), 369.99);
    check(fundamental(Pitch::Db, Octave::O6), 1108.73);
    check(fundamental(Pitch::D, Octave::O6), 1174.66);
    check(fundamental(Pitch::F, Octave::O6), 1396.91);
    check(fundamental(Pitch::B, Octave::O6), 1975.53);
    check(fundamental(Pitch::D, Octave::O7), 2349.32);
    check(fundamental(Pitch::B, Octave::O5), 987.77);
}

#[test]
fn semitone_offsets() {
    let expected = [
        (Pitch::A, 0),
        (Pitch::Bb, 1),
        (Pitch::B, 2),
        (Pitch::C, -9),
        (Pitch::Db, -8),
        (Pitch::D, -7),
        (Pitch::Eb, -6),
        (Pitch::E, -5),
        (Pitch::F, -4),
        (Pitch::Gb, -3),
        (Pitch::G, -2),
        (Pitch::Ab, -1),
    ];
    for (p, k) in expected {
        assert_eq!(p.semitone_offset(), k);
    }
}

#[test]
fn octave_multipliers() {
    assert_eq!(Octave::O4.multiplier(), 1);
    assert_eq!(Octave::O5.multiplier(), 2);
    assert_eq!(Octave::O6.multiplier(), 4);
    assert_eq!(Octave::O7.multiplier(), 8);
}
