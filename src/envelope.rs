use vstd::prelude::*;

verus! {

/// Cumulative sample indices at which the phases of an attack, decay,
/// sustain and release envelope end.
#[derive(Clone, Copy, Debug, PartialEq, Eq, Structural)]
pub struct EnvelopePhases {
    pub attack_end: u64,
    pub decay_end: u64,
    pub sustain_end: u64,
    pub release_end: u64,
}

/// Samples left for the sustain once attack, decay and release are taken out
/// of the note; zero when the note is shorter than the three together.
pub open spec fn sustain_samples(attack: nat, decay: nat, release: nat, note: nat) -> nat {
    if note >= attack + decay + release {
        (note - (attack + decay + release)) as nat
    } else {
        0
    }
}

/// The phase boundaries for the given lengths in samples. The release is
/// part of the note's length, not added after it.
pub open spec fn phases_of(attack: nat, decay: nat, release: nat, note: nat) -> EnvelopePhases {
    let sustain = sustain_samples(attack, decay, release, note);
    EnvelopePhases {
        attack_end: attack as u64,
        decay_end: (attack + decay) as u64,
        sustain_end: (attack + decay + sustain) as u64,
        release_end: (attack + decay + sustain + release) as u64,
    }
}

/// Where a sample falls in the envelope. `elapsed` counts samples since the
/// phase began (for the attack, since the envelope began) and `span` is the
/// phase's length, so that the gain of a linear ramp is `elapsed / span`.
#[derive(Clone, Copy, Debug, PartialEq, Eq, Structural)]
pub enum Stage {
    /// Rising from silence to full level.
    Attack { elapsed: u64, span: u64 },
    /// Falling from full level to the sustain level.
    Decay { elapsed: u64, span: u64 },
    /// Holding the sustain level.
    Sustain,
    /// Falling from the sustain level to silence.
    Release { elapsed: u64, span: u64 },
}

/// The stage of sample `i`, counted from 1; `None` from `release_end` on,
/// where the envelope has ended.
pub open spec fn stage_at(p: EnvelopePhases, i: nat) -> Option<Stage> {
    if i < p.attack_end {
        Some(Stage::Attack { elapsed: i as u64, span: p.attack_end })
    } else if i < p.decay_end {
        Some(
            Stage::Decay {
                elapsed: (i - p.attack_end) as u64,
                span: (p.decay_end - p.attack_end) as u64,
            },
        )
    } else if i < p.sustain_end {
        Some(Stage::Sustain)
    } else if i < p.release_end {
        Some(
            Stage::Release {
                elapsed: (i - p.sustain_end) as u64,
                span: (p.release_end - p.sustain_end) as u64,
            },
        )
    } else {
        None
    }
}

/// Each ramp is part way through a phase of positive length.
pub open spec fn ramp_in_range(st: Stage) -> bool {
    match st {
        Stage::Attack { elapsed, span } => 0 < elapsed < span,
        Stage::Decay { elapsed, span } => elapsed < span,
        Stage::Sustain => true,
        Stage::Release { elapsed, span } => elapsed < span,
    }
}

/// Samples still to come after `emitted` have been produced: those numbered
/// from `emitted + 1` up to, but not including, `release_end`.
pub open spec fn samples_left(p: EnvelopePhases, emitted: nat) -> nat {
    if emitted + 1 < p.release_end {
        (p.release_end - 1 - emitted) as nat
    } else {
        0
    }
}

impl EnvelopePhases {
    /// Boundaries for the given lengths in samples, the sustain taking what
    /// the note leaves after attack, decay and release.
    pub fn new(attack: u32, decay: u32, release: u32, note: u32) -> (r: EnvelopePhases)
        ensures
            r == phases_of(attack as nat, decay as nat, release as nat, note as nat),
    {
        let attack = attack as u64;
        let decay = decay as u64;
        let release = release as u64;
        let note = note as u64;
        let sustain: u64 = if note >= attack + decay + release {
            note - (attack + decay + release)
        } else {
            0
        };
        EnvelopePhases {
            attack_end: attack,
            decay_end: attack + decay,
            sustain_end: attack + decay + sustain,
            release_end: attack + decay + sustain + release,
        }
    }
}

/// The envelope as it runs: one stage per sample until the release ends.
pub struct Envelope {
    phases: EnvelopePhases,
    index: u64,
}

impl Envelope {
    /// The boundaries are in order and no more samples than the envelope
    /// holds have been produced.
    pub closed spec fn wf(&self) -> bool {
        &&& self.phases.attack_end <= self.phases.decay_end
        &&& self.phases.decay_end <= self.phases.sustain_end
        &&& self.phases.sustain_end <= self.phases.release_end
        &&& self.index <= self.phases.release_end
        &&& self.phases.release_end <= 4 * 0xffff_ffff
    }

    pub closed spec fn phases_spec(&self) -> EnvelopePhases {
        self.phases
    }

    /// Samples produced so far.
    pub closed spec fn emitted(&self) -> nat {
        self.index as nat
    }

    /// An envelope for the given lengths in samples that has produced nothing.
    pub fn new(attack: u32, decay: u32, release: u32, note: u32) -> (r: Envelope)
        ensures
            r.wf(),
            r.phases_spec() == phases_of(attack as nat, decay as nat, release as nat, note as nat),
            r.emitted() == 0,
    {
        Envelope { phases: EnvelopePhases::new(attack, decay, release, note), index: 0 }
    }

    /// The phase boundaries.
    pub fn phases(&self) -> (r: EnvelopePhases)
        ensures
            r == self.phases_spec(),
    {
        self.phases
    }

    /// The stage of the next sample, or `None` once the release has ended;
    /// after that it stays `None`.
    pub fn advance(&mut self) -> (r: Option<Stage>)
        requires
            old(self).wf(),
        ensures
            final(self).wf(),
            final(self).phases_spec() == old(self).phases_spec(),
            r == stage_at(old(self).phases_spec(), old(self).emitted() + 1),
            r is Some ==> final(self).emitted() == old(self).emitted() + 1,
            r is None ==> final(self).emitted() == old(self).emitted(),
            r matches Some(st) ==> ramp_in_range(st),
    {
        let i = self.index + 1;
        let p = self.phases;
        let stage = if i < p.attack_end {
            Some(Stage::Attack { elapsed: i, span: p.attack_end })
        } else if i < p.decay_end {
            Some(Stage::Decay { elapsed: i - p.attack_end, span: p.decay_end - p.attack_end })
        } else if i < p.sustain_end {
            Some(Stage::Sustain)
        } else if i < p.release_end {
            Some(
                Stage::Release { elapsed: i - p.sustain_end, span: p.release_end - p.sustain_end },
            )
        } else {
            None
        };
        if stage.is_some() {
            self.index = i;
        }
        stage
    }

    /// Samples still to come.
    pub fn remaining(&self) -> (r: u64)
        requires
            self.wf(),
        ensures
            r == samples_left(self.phases_spec(), self.emitted()),
    {
        if self.index + 1 < self.phases.release_end {
            self.phases.release_end - 1 - self.index
        } else {
            0
        }
    }
}

/// An envelope never produces more samples than its release end: it has
/// produced at most that many, and no sample numbered from there on has a
/// stage.
pub proof fn lemma_envelope_sample_bound(e: Envelope)
    requires
        e.wf(),
    ensures
        e.emitted() <= e.phases_spec().release_end,
        forall|i: nat| i >= e.phases_spec().release_end ==> stage_at(e.phases_spec(), i) is None,
{
}

/// A note shorter than attack, decay and release together gets no sustain:
/// the sustain ends where the decay does, and the envelope lasts exactly the
/// attack, decay and release.
pub proof fn lemma_short_note_has_no_sustain(attack: u32, decay: u32, release: u32, note: u32)
    requires
        note < attack + decay + release,
    ensures
        sustain_samples(attack as nat, decay as nat, release as nat, note as nat) == 0,
        ({
            let p = phases_of(attack as nat, decay as nat, release as nat, note as nat);
            p.sustain_end == p.decay_end && p.release_end == attack + decay + release
        }),
{
}

} // verus!
