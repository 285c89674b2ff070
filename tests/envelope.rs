use ringtone::{Envelope, EnvelopePhases, Stage};

fn run(e: &mut Envelope) -> Vec<Stage> {
    let mut v = Vec::new();
    while let Some(s) = e.advance() {
        v.push(s);
    }
    v
}

#[test]
fn phases_add_up() {
    assert_eq!(
        EnvelopePhases::new(10, 20, 30, 1000),
        EnvelopePhases {
            attack_end: 10,
            decay_end: 30,
            sustain_end: 970,
            release_end: 1000,
        }
    );
}

#[test]
fn short_note_has_no_sustain() {
    let p = EnvelopePhases::new(0, 0, 240, 100);
    assert_eq!(p.sustain_end, p.decay_end);
    assert_eq!(p.release_end, 240);
    let p = EnvelopePhases::new(10, 10, 10, 29);
    assert_eq!(p.sustain_end, 20);
    assert_eq!(p.release_end, 30);
}

#[test]
fn largest_lengths_do_not_overflow() {
    let p = EnvelopePhases::new(u32::MAX, u32::MAX, u32::MAX, u32::MAX);
    assert_eq!(p.release_end, 3 * u32::MAX as u64);
    let p = EnvelopePhases::new(0, 0, 0, u32::MAX);
    assert_eq!(p.sustain_end, u32::MAX as u64);
}

#[test]
fn envelope_never_exceeds_release_end() {
    let mut e = Envelope::new(0, 0, 240, 100);
    let v = run(&mut e);
    assert!(v.len() as u64 <= e.phases().release_end);
    assert_eq!(v.len(), 239);
    assert!(e.advance().is_none());
    assert_eq!(e.remaining(), 0);
}

#[test]
fn envelope_stages_in_order() {
    let mut e = Envelope::new(3, 2, 2, 10);
    assert_eq!(e.remaining(), 9);
    let v = run(&mut e);
    assert_eq!(
        v,
        vec![
            Stage::Attack { elapsed: 1, span: 3 },
            Stage::Attack { elapsed: 2, span: 3 },
            Stage::Decay { elapsed: 0, span: 2 },
            Stage::Decay { elapsed: 1, span: 2 },
            Stage::Sustain,
            Stage::Sustain,
            Stage::Sustain,
            Stage::Release { elapsed: 0, span: 2 },
            Stage::Release { elapsed: 1, span: 2 },
        ]
    );
}

#[test]
fn empty_envelope_produces_nothing() {
    let mut e = Envelope::new(0, 0, 0, 0);
    assert_eq!(e.remaining(), 0);
    assert!(e.advance().is_none());
}

#[test]
fn release_only_envelope() {
    let mut e = Envelope::new(0, 0, 240, 48000);
    let v = run(&mut e);
    assert_eq!(v.len(), 47999);
    assert_eq!(v[0], Stage::Sustain);
    assert_eq!(v[47999 - 240], Stage::Release { elapsed: 0, span: 240 });
}
