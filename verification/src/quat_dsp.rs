//! The integer side of the four-channel synthesizer: waveforms, envelope
//! stages, the tracker pattern with its demo song, the sequencer's step
//! counter and the noise channel's shift register.  The audio itself is
//! computed in floating point by the caller.

use vstd::prelude::*;

verus! {

/// The waveform of a channel.
#[derive(Clone, Copy, Debug, PartialEq, Eq, Structural)]
pub enum Waveform {
    Square,
    Triangle,
    Sawtooth,
    Noise,
}

/// The stage of a channel's envelope.
#[derive(Clone, Copy, Debug, PartialEq, Eq, Structural)]
pub enum EnvelopeStage {
    Off,
    Attack,
    Decay,
    Sustain,
    Release,
}

/// One cell of the pattern: a note (0 rest, 1-48 C-3 to B-6) and a volume
/// (0-3).
#[derive(Clone, Copy, Debug)]
pub struct TrackerNote {
    pub note_index: u8,
    pub volume: u8,
}

/// Steps in the pattern.
pub const PATTERN_STEPS: usize = 32;

/// The demo song: on channel 0 the notes 13, 13, 16, 13, 18, 13, 16, 11
/// on steps 0, 4, 8, ... (each note at full volume, rests between), the
/// bass note 1 at volume 2 on channel 1 every fourth step, rests elsewhere
/// at volume 3.
pub open spec fn demo_note(step: int, ch: int) -> (u8, u8) {
    let melody = seq![13u8, 0, 13, 0, 16, 0, 13, 0, 18, 0, 13, 0, 16, 0, 11, 0];
    if ch == 0 && step % 2 == 0 {
        (melody[step / 2], 3)
    } else if ch == 1 && step % 4 == 0 {
        (1, 2)
    } else {
        (0, 3)
    }
}

/// The next state of the noise channel's 16-bit shift register: the taps
/// 0, 2, 3 and 5 are XORed into bit 15 as the register shifts right.
pub open spec fn lfsr_step(s: u16) -> u16 {
    let bit = ((s >> 0u16) ^ (s >> 2u16) ^ (s >> 3u16) ^ (s >> 5u16)) & 1u16;
    (s >> 1u16) | (bit << 15u16)
}

/// The demo pattern.
pub fn demo_pattern() -> (p: Vec<[TrackerNote; 4]>)
    ensures
        p@.len() == PATTERN_STEPS,
        forall|s: int, c: int|
            0 <= s < 32 && 0 <= c < 4 ==> (#[trigger] p@[s]@[c]).note_index == demo_note(s, c).0 && p@[s]@[c].volume
                == demo_note(s, c).1,
{
    let melody: [u8; 16] = [13, 0, 13, 0, 16, 0, 13, 0, 18, 0, 13, 0, 16, 0, 11, 0];
    assert(melody@ =~= seq![13u8, 0, 13, 0, 16, 0, 13, 0, 18, 0, 13, 0, 16, 0, 11, 0]);
    let mut p: Vec<[TrackerNote; 4]> = Vec::new();
    let mut s: usize = 0;
    while s < PATTERN_STEPS
        invariant
            s <= 32,
            melody@ == seq![13u8, 0, 13, 0, 16, 0, 13, 0, 18, 0, 13, 0, 16, 0, 11, 0],
            p@.len() == s,
            forall|k: int, c: int|
                0 <= k < s && 0 <= c < 4 ==> (#[trigger] p@[k]@[c]).note_index == demo_note(k, c).0
                    && p@[k]@[c].volume == demo_note(k, c).1,
        decreases 32 - s,
    {
        let mut row = [TrackerNote { note_index: 0, volume: 3 }; 4];
        if s % 2 == 0 {
            row[0] = TrackerNote { note_index: melody[s / 2], volume: 3 };
        }
        if s % 4 == 0 {
            row[1] = TrackerNote { note_index: 1, volume: 2 };
        }
        p.push(row);
        s = s + 1;
    }
    p
}

/// The noise channel's shift register, one step on.
pub fn lfsr_next(state: u16) -> (r: u16)
    ensures
        r == lfsr_step(state),
{
    let bit = ((state >> 0) ^ (state >> 2) ^ (state >> 3) ^ (state >> 5)) & 1;
    (state >> 1) | (bit << 15)
}

/// The stage after a note is released: a sounding envelope releases, a
/// silent one stays off.
pub fn release_stage(stage: EnvelopeStage) -> (r: EnvelopeStage)
    ensures
        r == (if stage == EnvelopeStage::Off {
            EnvelopeStage::Off
        } else {
            EnvelopeStage::Release
        }),
{
    if stage != EnvelopeStage::Off {
        EnvelopeStage::Release
    } else {
        EnvelopeStage::Off
    }
}

/// The sequencer step after `step`, wrapping after the pattern's last.
pub fn next_step(step: usize) -> (r: usize)
    ensures
        r == (step + 1) % 32,
{
    (step % 32 + 1) % 32
}

} // verus!
