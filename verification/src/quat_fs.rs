//! The quat file system: files are byte ranges of kernel RAM, listed in an
//! inode table; new files go after the furthest one, from 0x60 up.

use vstd::prelude::*;
use crate::kernel::{QuatByte, QuatKernel};
use crate::text::{chars_of, dec_str, hex_pad, push_dec, push_radix, string_of, trim, trim_chars};

verus! {

/// A file: its name and the RAM range `start_block .. start_block + size`.
#[derive(Clone, Debug)]
pub struct QuatFile {
    pub name: String,
    pub start_block: u8,
    pub size: u8,
}

/// The file system: the inode table and the form for a new file.
pub struct QuatFS {
    pub files: Vec<QuatFile>,
    pub new_filename: String,
    pub new_file_data: String,
    pub status_msg: String,
}

/// The largest end (`start_block + size`) among `files`, if any.
pub open spec fn max_end(files: Seq<QuatFile>) -> Option<int>
    decreases files.len(),
{
    if files.len() == 0 {
        None
    } else {
        let e = files.last().start_block + files.last().size;
        match max_end(files.drop_last()) {
            Some(m) => Some(if m >= e {
                m
            } else {
                e
            }),
            None => Some(e),
        }
    }
}

/// Where the next file starts: after the furthest file, but never below
/// 0x60.
pub open spec fn next_start(files: Seq<QuatFile>) -> int {
    match max_end(files) {
        Some(m) => if m > 0x60 {
            m
        } else {
            0x60
        },
        None => 0x60,
    }
}

/// Every file ends by address 255.
pub open spec fn files_fit(files: Seq<QuatFile>) -> bool {
    forall|i: int| 0 <= i < files.len() ==> #[trigger] files[i].start_block + files[i].size <= 255
}

/// The bytes of the form's data (UTF-8).
pub open spec fn data_bytes(fs: QuatFS) -> Seq<u8> {
    vstd::utf8::encode_utf8(fs.new_file_data@)
}

/// Creating a file from the form would overflow the end address of a
/// listed file while the free space is searched, which cannot be done.
pub open spec fn create_file_panics(fs: QuatFS) -> bool {
    &&& trim(fs.new_filename@).len() > 0
    &&& data_bytes(fs).len() <= 32
    &&& !files_fit(fs.files@)
}

/// `fs1` and `k1` are the file system and the kernel after the form of
/// `fs0` was written to `k0` (see `QuatFS::create_file`).
pub open spec fn file_created(fs0: QuatFS, k0: QuatKernel, fs1: QuatFS, k1: QuatKernel) -> bool {
    let name = trim(fs0.new_filename@);
    let data = data_bytes(fs0);
    let size = data.len() as u8;
    let start = next_start(fs0.files@);
    if name.len() == 0 {
        &&& fs1.status_msg@ == "Greška: Ime fajla ne može biti prazno!"@
        &&& fs1.files == fs0.files
        &&& k1 == k0
        &&& fs1.new_filename == fs0.new_filename
        &&& fs1.new_file_data == fs0.new_file_data
    } else if data.len() > 32 {
        &&& fs1.status_msg@ == "Greška: Fajl ne može biti veći od 32 QuatBajta!"@
        &&& fs1.files == fs0.files
        &&& k1 == k0
        &&& fs1.new_filename == fs0.new_filename
        &&& fs1.new_file_data == fs0.new_file_data
    } else if start + size > 255 {
        &&& fs1.status_msg@ == "Greška: Nema dovoljno prostora na QuatFS disku!"@
        &&& fs1.files == fs0.files
        &&& k1 == k0
        &&& fs1.new_filename == fs0.new_filename
        &&& fs1.new_file_data == fs0.new_file_data
    } else {
        &&& fs1.files@.len() == fs0.files@.len() + 1
        &&& fs1.files@.drop_last() == fs0.files@
        &&& file_spec(name, start as u8, size, fs1.files@.last())
        &&& forall|i: int|
            0 <= i < 256 ==> #[trigger] k1.ram@[i] == (if start <= i < start
                + data.len() {
                QuatByte(data[i - start])
            } else {
                k0.ram@[i]
            })
        &&& fs1.status_msg@ == written_message(start as u8, size)
        &&& fs1.new_filename@.len() == 0
        &&& fs1.new_file_data@.len() == 0
        &&& k1.vram == k0.vram
        &&& k1.pc == k0.pc
        &&& k1.reg_a == k0.reg_a
        &&& k1.reg_b == k0.reg_b
        &&& k1.logs == k0.logs
        &&& k1.is_running == k0.is_running
    }
}

/// The status line after a file was written at `start` with size `size`.
pub open spec fn written_message(start: u8, size: u8) -> Seq<char> {
    "Fajl zapisan od bloka 0x"@ + hex_pad(start as nat, 2) + " (Veličina: "@ + dec_str(size as nat)
        + " QB)"@
}

pub open spec fn file_spec(name: Seq<char>, start: u8, size: u8, f: QuatFile) -> bool {
    f.name@ == name && f.start_block == start && f.size == size
}

impl QuatFS {
    /// The three factory files: `boot.sys` at 0x20 (16), `logo.art` at
    /// 0x30 (32), `hello.qasm` at 0x50 (8).
    pub fn new() -> (fs: QuatFS)
        ensures
            fs.files@.len() == 3,
            file_spec("boot.sys"@, 0x20, 16, fs.files@[0]),
            file_spec("logo.art"@, 0x30, 32, fs.files@[1]),
            file_spec("hello.qasm"@, 0x50, 8, fs.files@[2]),
            fs.new_filename@.len() == 0,
            fs.new_file_data@.len() == 0,
    {
        let mut fs = QuatFS {
            files: Vec::new(),
            new_filename: String::new(),
            new_file_data: String::new(),
            status_msg: String::from_str("QuatFS inicijalizovan (Format: 4^4 Block-Alloc)"),
        };
        fs.files.push(QuatFile { name: String::from_str("boot.sys"), start_block: 0x20, size: 16 });
        fs.files.push(QuatFile { name: String::from_str("logo.art"), start_block: 0x30, size: 32 });
        fs.files.push(QuatFile { name: String::from_str("hello.qasm"), start_block: 0x50, size: 8 });
        fs
    }

    /// Empties the inode table and zeroes RAM from 0x20 up.
    pub fn format_disk(&mut self, kernel: &mut QuatKernel)
        ensures
            final(self).files@.len() == 0,
            forall|i: int| 0 <= i < 0x20 ==> #[trigger] final(kernel).ram@[i] == old(kernel).ram@[i],
            forall|i: int| 0x20 <= i < 256 ==> #[trigger] final(kernel).ram@[i].0 == 0,
            final(self).new_filename == old(self).new_filename,
            final(self).new_file_data == old(self).new_file_data,
            final(self).status_msg@ == "Disk uspešno formatiran! Svi sektori su vraćeni na 0000_4."@,
            final(kernel).vram == old(kernel).vram,
            final(kernel).pc == old(kernel).pc,
            final(kernel).reg_a == old(kernel).reg_a,
            final(kernel).reg_b == old(kernel).reg_b,
            final(kernel).logs == old(kernel).logs,
            final(kernel).is_running == old(kernel).is_running,
    {
        self.files.clear();
        let mut i: usize = 0x20;
        while i < 256
            invariant
                0x20 <= i <= 256,
                forall|j: int| 0 <= j < 0x20 ==> #[trigger] kernel.ram@[j] == old(kernel).ram@[j],
                forall|j: int| 0x20 <= j < i ==> #[trigger] kernel.ram@[j].0 == 0,
                kernel.vram == old(kernel).vram,
                kernel.pc == old(kernel).pc,
                kernel.reg_a == old(kernel).reg_a,
                kernel.reg_b == old(kernel).reg_b,
                kernel.logs == old(kernel).logs,
                kernel.is_running == old(kernel).is_running,
            decreases 256 - i,
        {
            kernel.ram[i] = QuatByte(0);
            i = i + 1;
        }
        self.status_msg = String::from_str("Disk uspešno formatiran! Svi sektori su vraćeni na 0000_4.");
    }

    /// Writes the form's data as a new file after the furthest file (from
    /// 0x60 up).  It refuses an empty (trimmed) name, more than 32 bytes
    /// and a file that would end past address 255; otherwise the bytes go
    /// to RAM, the file is listed and the form is cleared.
    pub fn create_file(&mut self, kernel: &mut QuatKernel)
        requires
            !create_file_panics(*old(self)),
        ensures
            file_created(*old(self), *old(kernel), *final(self), *final(kernel)),
    {
        let name_chars = chars_of(self.new_filename.as_str());
        let name = trim_chars(&name_chars);
        if name.len() == 0 {
            self.status_msg = String::from_str("Greška: Ime fajla ne može biti prazno!");
            return;
        }
        let bytes = self.new_file_data.as_str().as_bytes();
        if bytes.len() > 32 {
            self.status_msg = String::from_str("Greška: Fajl ne može biti veći od 32 QuatBajta!");
            return;
        }
        let size = bytes.len() as u8;
        let mut last_end: u8 = 0x60;
        let mut k: usize = 0;
        while k < self.files.len()
            invariant
                k <= self.files@.len(),
                self.files@ == old(self).files@,
                files_fit(self.files@),
                last_end == next_start(self.files@.take(k as int)),
            decreases self.files@.len() - k,
        {
            assert(self.files@.take(k + 1).drop_last() =~= self.files@.take(k as int));
            assert(self.files@.take(k + 1).last() == self.files@[k as int]);
            let e = self.files[k].start_block + self.files[k].size;
            if e > last_end {
                last_end = e;
            }
            k = k + 1;
        }
        assert(self.files@.take(k as int) =~= self.files@);
        let start_block = last_end;
        if start_block as usize + size as usize > 255 {
            self.status_msg = String::from_str("Greška: Nema dovoljno prostora na QuatFS disku!");
            return;
        }
        let mut idx: usize = 0;
        while idx < bytes.len()
            invariant
                idx <= bytes@.len(),
                start_block as int + bytes@.len() <= 256,
                forall|i: int|
                    0 <= i < 256 ==> #[trigger] kernel.ram@[i] == (if start_block <= i < start_block + idx {
                        QuatByte(bytes@[i - start_block])
                    } else {
                        old(kernel).ram@[i]
                    }),
                kernel.vram == old(kernel).vram,
                kernel.pc == old(kernel).pc,
                kernel.reg_a == old(kernel).reg_a,
                kernel.reg_b == old(kernel).reg_b,
                kernel.logs == old(kernel).logs,
                kernel.is_running == old(kernel).is_running,
            decreases bytes@.len() - idx,
        {
            kernel.ram[start_block as usize + idx] = QuatByte(bytes[idx]);
            idx = idx + 1;
        }
        let name_str = string_of(&name);
        self.files.push(QuatFile { name: name_str, start_block, size });
        assert(self.files@.drop_last() =~= old(self).files@);
        let mut m = String::from_str("Fajl zapisan od bloka 0x");
        push_radix(&mut m, start_block as u64, 16, 2);
        m.append(" (Veličina: ");
        push_dec(&mut m, size as u64);
        m.append(" QB)");
        self.status_msg = m;
        self.new_filename = String::new();
        self.new_file_data = String::new();
    }
}

impl QuatFS {
    /// Writes the form as `create_file` does, unless that would run past
    /// RAM or overflow a file's end address (see `create_file_panics`):
    /// then nothing changes and the result is `false`.
    pub fn create_file_checked(&mut self, kernel: &mut QuatKernel) -> (ok: bool)
        ensures
            ok <==> !create_file_panics(*old(self)),
            ok ==> file_created(*old(self), *old(kernel), *final(self), *final(kernel)),
            !ok ==> *final(self) == *old(self) && *final(kernel) == *old(kernel),
    {
        let name_chars = chars_of(self.new_filename.as_str());
        let name = trim_chars(&name_chars);
        let n = self.new_file_data.as_str().as_bytes().len();
        if name.len() > 0 && n <= 32 {
            let mut k: usize = 0;
            while k < self.files.len()
                invariant
                    k <= self.files@.len(),
                    files_fit(self.files@.take(k as int)),
                    *self == *old(self),
                    *kernel == *old(kernel),
                    trim(self.new_filename@).len() > 0,
                    data_bytes(*self).len() <= 32,
                decreases self.files@.len() - k,
            {
                let f = &self.files[k];
                if f.start_block as u16 + f.size as u16 > 255 {
                    assert(!files_fit(self.files@)) by {
                        assert(self.files@[k as int] == *f);
                    }
                    return false;
                }
                assert forall|i: int| 0 <= i < k + 1 implies #[trigger] self.files@.take(k + 1)[i].start_block
                    + self.files@.take(k + 1)[i].size <= 255 by {
                    if i < k {
                        assert(self.files@.take(k + 1)[i] == self.files@.take(k as int)[i]);
                    }
                }
                k = k + 1;
            }
            assert(self.files@.take(k as int) =~= self.files@);
        }
        self.create_file(kernel);
        true
    }

    /// The delete button of file `idx`: it leaves the inode table (its
    /// blocks are not cleared).
    pub fn delete_file(&mut self, idx: usize)
        requires
            idx < old(self).files@.len(),
        ensures
            final(self).files@ == old(self).files@.remove(idx as int),
            final(self).status_msg@ == "Fajl uklonjen iz Inode tabele."@,
            final(self).new_filename == old(self).new_filename,
            final(self).new_file_data == old(self).new_file_data,
    {
        self.files.remove(idx);
        self.status_msg = String::from_str("Fajl uklonjen iz Inode tabele.");
    }
}

} // verus!
