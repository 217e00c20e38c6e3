//! The tape recorder: the machine's RAM and the first 64 bytes of VRAM
//! saved as a tape image (`QUAT`, 256 RAM bytes, 64 VRAM bytes) and
//! loaded back.  The caller reads and writes the file and reports how it
//! went.

use vstd::prelude::*;
use crate::kernel::{QuatByte, QuatKernel};
use crate::text::{push_chars, chars_of, push_radix, lemma_radix_nonempty, dec_str};

verus! {

/// Bytes in a tape image.
pub const TAPE_IMAGE_LEN: usize = 324;

/// Why a tape file could not be used.
#[derive(Clone, Copy, Debug, PartialEq, Eq, Structural)]
pub enum TapeError {
    /// The file could not be created (saving) or opened (loading).
    Open,
    /// Writing or reading the file failed.
    Io,
}

/// The recorder.
pub struct QuatTAPE {
    pub current_filename: String,
    pub tape_status: String,
    pub is_spinning: bool,
    pub spin_frame: usize,
}

/// The header of a tape image: `QUAT`.
pub open spec fn tape_magic() -> Seq<u8> {
    seq![0x51u8, 0x55, 0x41, 0x54]
}

/// The tape image of kernel `k`: the header, RAM, then VRAM 0-63.
pub open spec fn tape_bytes(k: QuatKernel) -> Seq<u8> {
    tape_magic() + k.ram@.map_values(|b: QuatByte| b.0) + k.vram@.take(64).map_values(|b: QuatByte| b.0)
}

/// `d` is a tape image: long enough and starting with the header.
pub open spec fn image_ok(d: Seq<u8>) -> bool {
    d.len() >= 324 && d.take(4) == tape_magic()
}

/// Kernel `k1` is `k0` with RAM and VRAM 0-63 loaded from the image `d`.
pub open spec fn loaded_from(k0: QuatKernel, d: Seq<u8>, k1: QuatKernel) -> bool {
    &&& forall|i: int| 0 <= i < 256 ==> #[trigger] k1.ram@[i] == QuatByte(d[4 + i])
    &&& forall|i: int| 0 <= i < 256 ==> #[trigger] k1.vram@[i] == (if i < 64 {
        QuatByte(d[260 + i])
    } else {
        k0.vram@[i]
    })
    &&& k1.reg_a == k0.reg_a
    &&& k1.reg_b == k0.reg_b
    &&& k1.pc == k0.pc
    &&& k1.is_running == k0.is_running
    &&& k1.logs == k0.logs
}

impl QuatTAPE {
    /// The recorder, ready, with the file name `my_program.quat`.
    pub fn new() -> (t: QuatTAPE)
        ensures
            t.current_filename@ == "my_program.quat"@,
            t.tape_status@ == "Kasetofon u pripravnosti (READY)."@,
            !t.is_spinning,
            t.spin_frame == 0,
    {
        QuatTAPE {
            current_filename: String::from_str("my_program.quat"),
            tape_status: String::from_str("Kasetofon u pripravnosti (READY)."),
            is_spinning: false,
            spin_frame: 0,
        }
    }

    /// The tape image of the kernel's RAM and VRAM 0-63.
    pub fn tape_image(kernel: &QuatKernel) -> (d: Vec<u8>)
        ensures
            d@ == tape_bytes(*kernel),
            d@.len() == TAPE_IMAGE_LEN,
    {
        let mut data: Vec<u8> = Vec::new();
        data.push(0x51);
        data.push(0x55);
        data.push(0x41);
        data.push(0x54);
        let mut i: usize = 0;
        while i < 256
            invariant
                i <= 256,
                data@ == tape_magic() + kernel.ram@.take(i as int).map_values(|b: QuatByte| b.0),
            decreases 256 - i,
        {
            data.push(kernel.ram[i].0);
            assert(kernel.ram@.take(i + 1).map_values(|b: QuatByte| b.0) =~= kernel.ram@.take(
                i as int,
            ).map_values(|b: QuatByte| b.0).push(kernel.ram@[i as int].0));
            i = i + 1;
        }
        assert(kernel.ram@.take(256) =~= kernel.ram@);
        let ghost head = data@;
        let mut j: usize = 0;
        while j < 64
            invariant
                j <= 64,
                data@ == head + kernel.vram@.take(j as int).map_values(|b: QuatByte| b.0),
            decreases 64 - j,
        {
            data.push(kernel.vram[j].0);
            assert(kernel.vram@.take(j + 1).map_values(|b: QuatByte| b.0) =~= kernel.vram@.take(
                j as int,
            ).map_values(|b: QuatByte| b.0).push(kernel.vram@[j as int].0));
            j = j + 1;
        }
        data
    }

    /// Reports how writing the tape image went: success names the file and
    /// the byte count and starts the reels.
    pub fn save_to_tape(&mut self, written: Result<(), TapeError>)
        ensures
            written is Ok ==> final(self).tape_status@ == "✅ Uspešno snimljeno na traku: '"@
                + old(self).current_filename@ + "' ("@ + dec_str(324) + " bajtova)"@ && final(self).is_spinning,
            written == Err::<(), TapeError>(TapeError::Open) ==> final(self).tape_status@
                == "❌ Ne mogu da kreiram fajl!"@ && final(self).is_spinning == old(self).is_spinning,
            written == Err::<(), TapeError>(TapeError::Io) ==> final(self).tape_status@
                == "❌ Greška pri pisanju na disk!"@ && final(self).is_spinning == old(self).is_spinning,
            final(self).current_filename == old(self).current_filename,
            final(self).spin_frame == old(self).spin_frame,
    {
        match written {
            Ok(()) => {
                let mut m = String::from_str("✅ Uspešno snimljeno na traku: '");
                let name = chars_of(self.current_filename.as_str());
                push_chars(&mut m, &name);
                m.append("' (");
                push_radix(&mut m, TAPE_IMAGE_LEN as u64, 10, 1);
                proof {
                    lemma_radix_nonempty(324, 10);
                }
                m.append(" bajtova)");
                self.tape_status = m;
                self.is_spinning = true;
            },
            Err(TapeError::Open) => {
                self.tape_status = String::from_str("❌ Ne mogu da kreiram fajl!");
            },
            Err(TapeError::Io) => {
                self.tape_status = String::from_str("❌ Greška pri pisanju na disk!");
            },
        }
    }

    /// Loads the file's contents: a tape image fills RAM and VRAM 0-63 and
    /// starts the reels; other contents are refused.  A file that cannot
    /// be opened is reported; a failed read changes nothing.
    pub fn load_from_tape(&mut self, kernel: &mut QuatKernel, contents: Result<Vec<u8>, TapeError>)
        ensures
            match contents {
                Ok(d) => if image_ok(d@) {
                    &&& loaded_from(*old(kernel), d@, *final(kernel))
                    &&& final(self).tape_status@ == "✅ Uspešno učitano sa trake: '"@ + old(self).current_filename@
                        + "'"@
                    &&& final(self).is_spinning
                } else {
                    &&& *final(kernel) == *old(kernel)
                    &&& final(self).tape_status@ == "❌ Neispravan format Quat trake ili oštećen fajl!"@
                    &&& final(self).is_spinning == old(self).is_spinning
                },
                Err(TapeError::Open) => {
                    &&& *final(kernel) == *old(kernel)
                    &&& final(self).tape_status@ == "❌ Fajl '"@ + old(self).current_filename@ + "' nije pronađen!"@
                    &&& final(self).is_spinning == old(self).is_spinning
                },
                Err(TapeError::Io) => *final(kernel) == *old(kernel) && *final(self) == *old(self),
            },
            final(self).current_filename == old(self).current_filename,
            final(self).spin_frame == old(self).spin_frame,
    {
        match contents {
            Ok(buffer) => {
                if buffer.len() >= 324 && buffer[0] == 0x51 && buffer[1] == 0x55 && buffer[2] == 0x41 && buffer[3]
                    == 0x54 {
                    assert(buffer@.take(4) =~= tape_magic());
                    let mut i: usize = 0;
                    while i < 256
                        invariant
                            i <= 256,
                            buffer@.len() >= 324,
                            forall|k: int| 0 <= k < i ==> #[trigger] kernel.ram@[k] == QuatByte(buffer@[4 + k]),
                            kernel.vram == old(kernel).vram,
                            kernel.reg_a == old(kernel).reg_a,
                            kernel.reg_b == old(kernel).reg_b,
                            kernel.pc == old(kernel).pc,
                            kernel.is_running == old(kernel).is_running,
                            kernel.logs == old(kernel).logs,
                        decreases 256 - i,
                    {
                        kernel.ram[i] = QuatByte(buffer[4 + i]);
                        i = i + 1;
                    }
                    let mut j: usize = 0;
                    while j < 64
                        invariant
                            j <= 64,
                            buffer@.len() >= 324,
                            forall|k: int| 0 <= k < 256 ==> #[trigger] kernel.ram@[k] == QuatByte(buffer@[4 + k]),
                            forall|k: int| 0 <= k < 256 ==> #[trigger] kernel.vram@[k] == (if k < j {
                                QuatByte(buffer@[260 + k])
                            } else {
                                old(kernel).vram@[k]
                            }),
                            kernel.reg_a == old(kernel).reg_a,
                            kernel.reg_b == old(kernel).reg_b,
                            kernel.pc == old(kernel).pc,
                            kernel.is_running == old(kernel).is_running,
                            kernel.logs == old(kernel).logs,
                        decreases 64 - j,
                    {
                        kernel.vram[j] = QuatByte(buffer[260 + j]);
                        j = j + 1;
                    }
                    let mut m = String::from_str("✅ Uspešno učitano sa trake: '");
                    let name = chars_of(self.current_filename.as_str());
                    push_chars(&mut m, &name);
                    m.append("'");
                    self.tape_status = m;
                    self.is_spinning = true;
                } else {
                    proof {
                        if buffer@.len() >= 324 {
                            assert(buffer@.take(4)[0] == buffer@[0]);
                            assert(buffer@.take(4)[1] == buffer@[1]);
                            assert(buffer@.take(4)[2] == buffer@[2]);
                            assert(buffer@.take(4)[3] == buffer@[3]);
                        }
                    }
                    self.tape_status = String::from_str("❌ Neispravan format Quat trake ili oštećen fajl!");
                }
            },
            Err(TapeError::Open) => {
                let mut m = String::from_str("❌ Fajl '");
                let name = chars_of(self.current_filename.as_str());
                push_chars(&mut m, &name);
                m.append("' nije pronađen!");
                self.tape_status = m;
            },
            Err(TapeError::Io) => {},
        }
    }

    /// One frame of the reel animation: while spinning the reel turns a
    /// quarter.
    pub fn reel_tick(&mut self)
        ensures
            final(self).spin_frame == (if old(self).is_spinning {
                ((old(self).spin_frame + 1) % 4) as usize
            } else {
                old(self).spin_frame
            }),
            final(self).is_spinning == old(self).is_spinning,
            final(self).tape_status == old(self).tape_status,
            final(self).current_filename == old(self).current_filename,
    {
        if self.is_spinning {
            self.spin_frame = ((self.spin_frame % 4) + 1) % 4;
            assert((self.spin_frame as int) == (old(self).spin_frame + 1) % 4);
        }
    }
}

/// Saving a kernel and loading the image back restores its RAM and the
/// first 64 bytes of its VRAM, whatever the kernel loaded into held.
pub proof fn law_tape_round_trip(k: QuatKernel, k0: QuatKernel, k1: QuatKernel)
    requires
        loaded_from(k0, tape_bytes(k), k1),
    ensures
        image_ok(tape_bytes(k)),
        k1.ram@ == k.ram@,
        forall|i: int| 0 <= i < 64 ==> #[trigger] k1.vram@[i] == k.vram@[i],
        forall|i: int| 64 <= i < 256 ==> #[trigger] k1.vram@[i] == k0.vram@[i],
{
    let d = tape_bytes(k);
    assert(d.take(4) =~= tape_magic());
    assert forall|i: int| 0 <= i < 256 implies #[trigger] k1.ram@[i] == k.ram@[i] by {
        assert(d[4 + i] == k.ram@[i].0);
    }
    assert(k1.ram@ =~= k.ram@);
    assert forall|i: int| 0 <= i < 64 implies #[trigger] k1.vram@[i] == k.vram@[i] by {
        assert(d[260 + i] == k.vram@[i].0);
    }
}

} // verus!
