//! The four-channel tracker: a 16-step pattern per channel, play control
//! and the export of the sound chip's registers.  The channels' synthesis
//! knobs (volume, duty, envelope, filter) are floating point and kept by
//! the caller, which also turns each volume into its register byte.

use vstd::prelude::*;
use crate::text::{dec_str, hex_pad, zero_pad, push_radix, lemma_radix_nonempty, digits_value, lemma_hex_byte};

verus! {

/// The waveform of a tracker channel.
#[derive(Clone, Copy, Debug, PartialEq, Eq, Structural)]
pub enum Waveform {
    Square,
    Triangle,
    Sawtooth,
    Noise,
}

/// The sequencer part of a channel: on or off, its waveform and its 16
/// steps (0 silence, 1-12 the notes C4 to B4).
#[derive(Clone, Copy, Debug)]
pub struct TrackerChannel {
    pub enabled: bool,
    pub waveform: Waveform,
    pub steps: [u8; 16],
}

/// The tracker.  `active_tab`: 0 sequencer, 1 synth editor, 2 export.
pub struct QuatTracker {
    pub channels: [TrackerChannel; 4],
    pub bpm: u32,
    pub is_playing: bool,
    pub current_step: usize,
    pub bitcrush_bits: u8,
    pub active_tab: usize,
    pub status_message: String,
}

/// The name of note `n`.
pub open spec fn note_label(n: u8) -> Seq<char> {
    if n == 0 {
        "---"@
    } else if n == 1 {
        "C-4"@
    } else if n == 2 {
        "C#4"@
    } else if n == 3 {
        "D-4"@
    } else if n == 4 {
        "D#4"@
    } else if n == 5 {
        "E-4"@
    } else if n == 6 {
        "F-4"@
    } else if n == 7 {
        "F#4"@
    } else if n == 8 {
        "G-4"@
    } else if n == 9 {
        "G#4"@
    } else if n == 10 {
        "A-4"@
    } else if n == 11 {
        "A#4"@
    } else if n == 12 {
        "B-4"@
    } else {
        "???"@
    }
}

/// The register code of a waveform.
pub open spec fn wave_code(w: Waveform) -> u8 {
    match w {
        Waveform::Square => 1,
        Waveform::Triangle => 2,
        Waveform::Sawtooth => 3,
        Waveform::Noise => 4,
    }
}

/// Two channels' steps packed in a byte, the first in the low nibble.
pub open spec fn pack_steps(a: u8, b: u8) -> u8 {
    (a & 0x0Fu8) | ((b & 0x0Fu8) << 4u8)
}

/// The register line of channel `i`.
pub open spec fn channel_line(i: int, w: Waveform, vol: u8) -> Seq<char> {
    "  .DB 0x"@ + hex_pad(wave_code(w) as nat, 2) + ", 0x"@ + hex_pad(vol as nat, 2) + " ; CH"@ + dec_str(
        i as nat,
    ) + " Waveform & Volume\n"@
}

/// The register lines of the first `n` channels.
pub open spec fn channel_lines(t: QuatTracker, vols: Seq<u8>, n: nat) -> Seq<char>
    decreases n,
{
    if n == 0 {
        Seq::empty()
    } else {
        channel_lines(t, vols, (n - 1) as nat) + channel_line(n - 1, t.channels@[n - 1].waveform, vols[n - 1])
    }
}

/// The sequence line of step `s`.
pub open spec fn step_line(t: QuatTracker, s: int) -> Seq<char> {
    let c = t.channels@;
    "  .DB 0x"@ + hex_pad(pack_steps(c[0].steps@[s], c[1].steps@[s]) as nat, 2) + ", 0x"@ + hex_pad(
        pack_steps(c[2].steps@[s], c[3].steps@[s]) as nat,
        2,
    ) + " ; Step "@ + zero_pad(dec_str(s as nat), 2) + seq!['\n']
}

/// The sequence lines of the first `n` steps.
pub open spec fn step_lines(t: QuatTracker, n: nat) -> Seq<char>
    decreases n,
{
    if n == 0 {
        Seq::empty()
    } else {
        step_lines(t, (n - 1) as nat) + step_line(t, n - 1)
    }
}

/// The register export of the tracker, with the channels' volume bytes.
pub open spec fn export_text(t: QuatTracker, vols: Seq<u8>) -> Seq<char> {
    "; --- QUATTRACKER DSP REGISTERS EXPORT ---\n"@ + "; BPM: "@ + dec_str(t.bpm as nat) + "\n; Bitcrush: "@
        + dec_str(t.bitcrush_bits as nat) + "-bit\n\n"@ + "SOUND_INIT_REGISTERS:\n"@ + channel_lines(t, vols, 4)
        + "\nSEQUENCE_DATA (16 Steps):\n"@ + step_lines(t, 16)
}

impl TrackerChannel {
    /// An enabled channel with waveform `waveform` and an empty pattern.
    pub fn new(waveform: Waveform) -> (c: TrackerChannel)
        ensures
            c.enabled,
            c.waveform == waveform,
            forall|i: int| 0 <= i < 16 ==> #[trigger] c.steps@[i] == 0,
    {
        TrackerChannel { enabled: true, waveform, steps: [0; 16] }
    }
}

impl QuatTracker {
    /// Square, square, triangle and noise channels, 128 BPM, stopped,
    /// 8-bit, with a demo melody on channel 0, a bass on 2 and a beat on 3.
    pub fn new() -> (t: QuatTracker)
        ensures
            t.channels@[0].waveform == Waveform::Square,
            t.channels@[1].waveform == Waveform::Square,
            t.channels@[2].waveform == Waveform::Triangle,
            t.channels@[3].waveform == Waveform::Noise,
            forall|i: int| 0 <= i < 4 ==> #[trigger] t.channels@[i].enabled,
            t.channels@[0].steps@ == seq![1u8, 0, 3, 0, 5, 0, 8, 0, 1, 0, 3, 0, 5, 0, 10, 0],
            forall|i: int| 0 <= i < 16 ==> #[trigger] t.channels@[1].steps@[i] == 0,
            t.channels@[2].steps@ == seq![1u8, 1, 0, 0, 1, 1, 0, 0, 1, 1, 0, 0, 1, 1, 0, 0],
            t.channels@[3].steps@ == seq![1u8, 0, 0, 0, 1, 0, 0, 0, 1, 0, 0, 0, 1, 0, 0, 0],
            t.bpm == 128,
            !t.is_playing,
            t.current_step == 0,
            t.bitcrush_bits == 8,
            t.active_tab == 0,
            t.status_message@ == "QuatTracker DSP Engine spreman."@,
    {
        let mut c0 = TrackerChannel::new(Waveform::Square);
        let c1 = TrackerChannel::new(Waveform::Square);
        let mut c2 = TrackerChannel::new(Waveform::Triangle);
        let mut c3 = TrackerChannel::new(Waveform::Noise);
        c0.steps = [1, 0, 3, 0, 5, 0, 8, 0, 1, 0, 3, 0, 5, 0, 10, 0];
        c2.steps = [1, 1, 0, 0, 1, 1, 0, 0, 1, 1, 0, 0, 1, 1, 0, 0];
        c3.steps = [1, 0, 0, 0, 1, 0, 0, 0, 1, 0, 0, 0, 1, 0, 0, 0];
        let t = QuatTracker {
            channels: [c0, c1, c2, c3],
            bpm: 128,
            is_playing: false,
            current_step: 0,
            bitcrush_bits: 8,
            active_tab: 0,
            status_message: String::from_str("QuatTracker DSP Engine spreman."),
        };
        assert(t.channels@[0].steps@ =~= seq![1u8, 0, 3, 0, 5, 0, 8, 0, 1, 0, 3, 0, 5, 0, 10, 0]);
        assert(t.channels@[2].steps@ =~= seq![1u8, 1, 0, 0, 1, 1, 0, 0, 1, 1, 0, 0, 1, 1, 0, 0]);
        assert(t.channels@[3].steps@ =~= seq![1u8, 0, 0, 0, 1, 0, 0, 0, 1, 0, 0, 0, 1, 0, 0, 0]);
        t
    }

    /// The name of note `note_idx`: `---` for a rest, `C-4` to `B-4` for
    /// 1-12, `???` otherwise.
    pub fn note_name(note_idx: u8) -> (r: &'static str)
        ensures
            r@ == note_label(note_idx),
    {
        match note_idx {
            0 => "---",
            1 => "C-4",
            2 => "C#4",
            3 => "D-4",
            4 => "D#4",
            5 => "E-4",
            6 => "F-4",
            7 => "F#4",
            8 => "G-4",
            9 => "G#4",
            10 => "A-4",
            11 => "A#4",
            12 => "B-4",
            _ => "???",
        }
    }

    /// Starts playback.
    pub fn play(&mut self)
        ensures
            final(self).is_playing,
            final(self).status_message@ == "Reprodukcija započeta..."@,
            final(self).current_step == old(self).current_step,
            final(self).channels == old(self).channels,
    {
        self.is_playing = true;
        self.status_message = String::from_str("Reprodukcija započeta...");
    }

    /// Stops playback and rewinds to step 0.
    pub fn stop(&mut self)
        ensures
            !final(self).is_playing,
            final(self).current_step == 0,
            final(self).status_message@ == "Sekvencer zaustavljen."@,
            final(self).channels == old(self).channels,
    {
        self.is_playing = false;
        self.current_step = 0;
        self.status_message = String::from_str("Sekvencer zaustavljen.");
    }

    /// One frame: while playing the sequencer moves one step (of 16).
    pub fn tick(&mut self)
        ensures
            final(self).current_step == (if old(self).is_playing {
                ((old(self).current_step + 1) % 16) as usize
            } else {
                old(self).current_step
            }),
            final(self).is_playing == old(self).is_playing,
            final(self).channels == old(self).channels,
            final(self).status_message == old(self).status_message,
    {
        if self.is_playing {
            self.current_step = (self.current_step % 16 + 1) % 16;
        }
    }

    /// A click on step `step` of channel `ch` moves it to the next note
    /// (12 wraps to a rest) and reports the change.
    pub fn cycle_note(&mut self, ch: usize, step: usize)
        requires
            ch < 4,
            step < 16,
            old(self).channels@[ch as int].steps@[step as int] < 255,
        ensures
            ({
                let v = ((old(self).channels@[ch as int].steps@[step as int] + 1) % 13) as u8;
                &&& final(self).channels@[ch as int].steps@ == old(self).channels@[ch as int].steps@.update(
                    step as int,
                    v,
                )
                &&& final(self).status_message@ == "CH"@ + dec_str(ch as nat) + " Step "@ + dec_str(step as nat)
                    + " promenjen na "@ + note_label(v)
            }),
            final(self).channels@[ch as int].waveform == old(self).channels@[ch as int].waveform,
            final(self).channels@[ch as int].enabled == old(self).channels@[ch as int].enabled,
            forall|i: int| 0 <= i < 4 && i != ch ==> #[trigger] final(self).channels@[i] == old(self).channels@[i],
            final(self).is_playing == old(self).is_playing,
            final(self).current_step == old(self).current_step,
    {
        let mut c = self.channels[ch];
        let v = (c.steps[step] + 1) % 13;
        c.steps[step] = v;
        self.channels[ch] = c;
        let mut m = String::from_str("CH");
        push_radix(&mut m, ch as u64, 10, 1);
        m.append(" Step ");
        push_radix(&mut m, step as u64, 10, 1);
        m.append(" promenjen na ");
        m.append(Self::note_name(v));
        proof {
            lemma_radix_nonempty(ch as nat, 10);
            lemma_radix_nonempty(step as nat, 10);
        }
        self.status_message = m;
    }

    /// The sound chip's register listing: tempo and bit depth, each
    /// channel's waveform code and volume byte (`volume_bytes`, from the
    /// channel's volume knob), then the 16 steps, two channels per byte.
    pub fn export_registers(&self, volume_bytes: [u8; 4]) -> (s: String)
        ensures
            s@ == export_text(*self, volume_bytes@),
    {
        let mut s = String::from_str("; --- QUATTRACKER DSP REGISTERS EXPORT ---\n");
        s.append("; BPM: ");
        push_radix(&mut s, self.bpm as u64, 10, 1);
        s.append("\n; Bitcrush: ");
        push_radix(&mut s, self.bitcrush_bits as u64, 10, 1);
        s.append("-bit\n\n");
        s.append("SOUND_INIT_REGISTERS:\n");
        proof {
            lemma_radix_nonempty(self.bpm as nat, 10);
            lemma_radix_nonempty(self.bitcrush_bits as nat, 10);
        }
        let ghost head = s@;
        let mut i: usize = 0;
        while i < 4
            invariant
                i <= 4,
                s@ == head + channel_lines(*self, volume_bytes@, i as nat),
            decreases 4 - i,
        {
            let wave_byte: u8 = match self.channels[i].waveform {
                Waveform::Square => 0x01,
                Waveform::Triangle => 0x02,
                Waveform::Sawtooth => 0x03,
                Waveform::Noise => 0x04,
            };
            let ghost before = s@;
            s.append("  .DB 0x");
            push_radix(&mut s, wave_byte as u64, 16, 2);
            s.append(", 0x");
            push_radix(&mut s, volume_bytes[i] as u64, 16, 2);
            s.append(" ; CH");
            push_radix(&mut s, i as u64, 10, 1);
            s.append(" Waveform & Volume\n");
            proof {
                lemma_radix_nonempty(i as nat, 10);
            }
            assert(s@ =~= before + channel_line(i as int, self.channels@[i as int].waveform, volume_bytes@[i as int]));
            i = i + 1;
        }
        s.append("\nSEQUENCE_DATA (16 Steps):\n");
        let ghost mid = s@;
        let mut step: usize = 0;
        while step < 16
            invariant
                step <= 16,
                s@ == mid + step_lines(*self, step as nat),
            decreases 16 - step,
        {
            let b0 = self.channels[0].steps[step];
            let b1 = self.channels[1].steps[step];
            let b2 = self.channels[2].steps[step];
            let b3 = self.channels[3].steps[step];
            let pack1 = (b0 & 0x0F) | ((b1 & 0x0F) << 4);
            let pack2 = (b2 & 0x0F) | ((b3 & 0x0F) << 4);
            let ghost before = s@;
            s.append("  .DB 0x");
            push_radix(&mut s, pack1 as u64, 16, 2);
            s.append(", 0x");
            push_radix(&mut s, pack2 as u64, 16, 2);
            s.append(" ; Step ");
            push_radix(&mut s, step as u64, 10, 2);
            crate::text::push_char(&mut s, '\n');
            assert(s@ =~= before + step_line(*self, step as int));
            step = step + 1;
        }
        s
    }
}

/// A channel's register line gives its waveform by the sound chip's fixed
/// codes (square 0x01, triangle 0x02, sawtooth 0x03, noise 0x04) and its
/// volume byte: the two hex digits after `  .DB 0x` read back as the code,
/// those after `, 0x` as the volume.
pub proof fn law_channel_line_codes(i: int, w: Waveform, vol: u8)
    ensures
        digits_value(channel_line(i, w, vol).subrange(8, 10), 16) == (match w {
            Waveform::Square => 1nat,
            Waveform::Triangle => 2nat,
            Waveform::Sawtooth => 3nat,
            Waveform::Noise => 4nat,
        }),
        digits_value(channel_line(i, w, vol).subrange(14, 16), 16) == vol,
{
    reveal_strlit("  .DB 0x");
    reveal_strlit(", 0x");
    let code = wave_code(w);
    lemma_hex_byte(code as nat);
    lemma_hex_byte(vol as nat);
    let l = channel_line(i, w, vol);
    let p1 = "  .DB 0x"@;
    let p2 = ", 0x"@;
    assert(p1.len() == 8);
    assert(p2.len() == 4);
    assert(l.subrange(8, 10) =~= hex_pad(code as nat, 2));
    assert(l.subrange(14, 16) =~= hex_pad(vol as nat, 2));
}

/// A sequence byte holds the first channel's step in its low nibble and
/// the second's in its high nibble.
pub proof fn law_packed_steps(a: u8, b: u8)
    ensures
        pack_steps(a, b) % 16 == a % 16,
        pack_steps(a, b) / 16 == b % 16,
{
    assert(((a & 0x0Fu8) | ((b & 0x0Fu8) << 4u8)) % 16 == a % 16 && ((a & 0x0Fu8) | ((b & 0x0Fu8) << 4u8))
        / 16 == b % 16) by (bit_vector);
}

} // verus!
