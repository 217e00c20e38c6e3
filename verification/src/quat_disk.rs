//! The 3.5" floppy drive: a 1.44 MB image of 512-byte sectors, a stepping
//! head and an activity LED.  Head movement asks the caller for a click
//! sound, which the caller plays.

use vstd::prelude::*;
use crate::text::push_chars;
use crate::text::chars_of;

verus! {

/// Bytes per sector.
pub const SECTOR_SIZE: usize = 512;

/// Sectors on a disk.
pub const TOTAL_SECTORS: usize = 2880;

/// Bytes on a disk.
pub const FLOPPY_SIZE: usize = TOTAL_SECTORS * SECTOR_SIZE;

/// The click of the stepper motor that the drive asks for: its pitch
/// follows the target track, its length the number of tracks moved.
#[derive(Clone, Copy, Debug, PartialEq, Eq, Structural)]
pub struct DiskBeep {
    pub track: u8,
    pub duration_ms: u64,
}

/// The drive.
pub struct QuatDisk {
    pub image: Option<Vec<u8>>,
    pub label: String,
    pub current_track: u8,
    pub current_head: u8,
    pub motor_on: bool,
    pub write_protected: bool,
    pub activity_led: bool,
    pub led_timer: usize,
    pub active_sector: usize,
    pub status_msg: String,
}

/// The boot signature written at the start of a blank disk.
pub open spec fn boot_signature() -> Seq<u8> {
    seq![0x51u8, 0x55, 0x41, 0x54, 0x42, 0x4F, 0x4F, 0x54, 0x31, 0x2E, 0x30]
}

/// The image of a blank disk: the boot signature `QUATBOOT1.0` at 0, the
/// boot marker 0x55 0xAA at 510, zeros elsewhere.
pub open spec fn blank_image() -> Seq<u8> {
    Seq::new(
        FLOPPY_SIZE as nat,
        |i: int|
            if i < 11 {
                boot_signature()[i]
            } else if i == 510 {
                0x55u8
            } else if i == 511 {
                0xAAu8
            } else {
                0u8
            },
    )
}

/// The status line after a disk labelled `label` was inserted.
pub open spec fn inserted_message(label: Seq<char>) -> Seq<char> {
    "Disketa '"@ + label + "' uspešno ubijena u Drajv A:"@
}

/// The image `img` with `data` written from the start of sector `lba`.
pub open spec fn written_image(img: Seq<u8>, lba: usize, data: Seq<u8>) -> Seq<u8> {
    let start = lba * SECTOR_SIZE;
    img.subrange(0, start as int) + data + img.subrange(start + data.len(), img.len() as int)
}

/// The 512 bytes of sector `lba` of the image `img`.
pub open spec fn sector_of(img: Seq<u8>, lba: usize) -> Seq<u8> {
    let start = lba * SECTOR_SIZE;
    img.subrange(start as int, start + SECTOR_SIZE)
}

/// The track that holds sector `lba` (18 sectors, 2 heads per track),
/// kept in a byte.
pub open spec fn track_of(lba: usize) -> u8 {
    (lba / 36) as u8
}

/// The head move towards `target` (clamped to 79): the new track and the
/// click it asks for, if the head moves.
pub open spec fn seek_result(current: u8, target: u8) -> (u8, Option<DiskBeep>) {
    let t: u8 = if target > 79 {
        79
    } else {
        target
    };
    if t == current {
        (current, None)
    } else {
        let steps: int = if t > current {
            t - current
        } else {
            current - t
        };
        (t, Some(DiskBeep { track: t, duration_ms: (15 * (if steps < 1 { 1 } else { steps })) as u64 }))
    }
}

impl QuatDisk {
    /// An empty drive into which a blank boot disk `QUAT_DOS_BOOT` has been
    /// inserted.
    pub fn new() -> (d: QuatDisk)
        ensures
            d.image is Some,
            d.image->0@ == blank_image(),
            d.label@ == "QUAT_DOS_BOOT"@,
            d.current_track == 0,
            d.current_head == 0,
            !d.motor_on,
            !d.write_protected,
            !d.activity_led,
            d.led_timer == 0,
            d.active_sector == 0,
            d.status_msg@ == inserted_message("QUAT_DOS_BOOT"@),
    {
        let mut disk = QuatDisk {
            image: None,
            label: String::new(),
            current_track: 0,
            current_head: 0,
            motor_on: false,
            write_protected: false,
            activity_led: false,
            led_timer: 0,
            active_sector: 0,
            status_msg: String::from_str("Drajv A: Prazan (Ubacite 3.5\" disketu)"),
        };
        disk.insert_blank_disk("QUAT_DOS_BOOT");
        disk
    }

    /// Inserts a blank disk labelled `label` (see `blank_image`).
    pub fn insert_blank_disk(&mut self, label: &str)
        ensures
            final(self).image is Some,
            final(self).image->0@ == blank_image(),
            final(self).label@ == label@,
            final(self).status_msg@ == inserted_message(label@),
            final(self).current_track == old(self).current_track,
            final(self).current_head == old(self).current_head,
            final(self).motor_on == old(self).motor_on,
            final(self).write_protected == old(self).write_protected,
            final(self).activity_led == old(self).activity_led,
            final(self).led_timer == old(self).led_timer,
            final(self).active_sector == old(self).active_sector,
    {
        let mut raw: Vec<u8> = Vec::new();
        let mut i: usize = 0;
        while i < FLOPPY_SIZE
            invariant
                i <= FLOPPY_SIZE,
                raw@ =~= Seq::new(i as nat, |k: int| 0u8),
            decreases FLOPPY_SIZE - i,
        {
            raw.push(0);
            i = i + 1;
        }
        let sig: [u8; 11] = [0x51, 0x55, 0x41, 0x54, 0x42, 0x4F, 0x4F, 0x54, 0x31, 0x2E, 0x30];
        assert(sig@ =~= boot_signature());
        let mut j: usize = 0;
        while j < 11
            invariant
                j <= 11,
                sig@ == boot_signature(),
                raw@.len() == FLOPPY_SIZE,
                forall|k: int| 0 <= k < FLOPPY_SIZE ==> #[trigger] raw@[k] == (if k < j {
                    boot_signature()[k]
                } else {
                    0u8
                }),
            decreases 11 - j,
        {
            raw.set(j, sig[j]);
            j = j + 1;
        }
        raw.set(510, 0x55);
        raw.set(511, 0xAA);
        assert(raw@ =~= blank_image());
        self.image = Some(raw);
        self.label = String::from_str(label);
        let mut m = String::from_str("Disketa '");
        m.append(label);
        m.append("' uspešno ubijena u Drajv A:");
        self.status_msg = m;
    }

    /// Ejects the disk.
    pub fn eject(&mut self)
        ensures
            final(self).image is None,
            final(self).label@.len() == 0,
            final(self).status_msg@ == "Disketa izbačena."@,
            final(self).current_track == old(self).current_track,
            final(self).current_head == old(self).current_head,
            final(self).motor_on == old(self).motor_on,
            final(self).write_protected == old(self).write_protected,
            final(self).activity_led == old(self).activity_led,
            final(self).led_timer == old(self).led_timer,
            final(self).active_sector == old(self).active_sector,
    {
        self.image = None;
        self.label = String::new();
        self.status_msg = String::from_str("Disketa izbačena.");
    }

    /// Moves the head towards `target_track` (at most 79).  When it moves,
    /// the LED lights for 10 ticks and the click to play is returned.
    pub fn seek_track(&mut self, target_track: u8) -> (beep: Option<DiskBeep>)
        ensures
            (final(self).current_track, beep) == seek_result(old(self).current_track, target_track),
            beep is Some ==> final(self).activity_led && final(self).led_timer == 10,
            beep is None ==> final(self).activity_led == old(self).activity_led && final(self).led_timer
                == old(self).led_timer,
            final(self).image == old(self).image,
            final(self).label == old(self).label,
    {
        let target = if target_track > 79 {
            79
        } else {
            target_track
        };
        if target != self.current_track {
            let steps: u64 = if target > self.current_track {
                (target - self.current_track) as u64
            } else {
                (self.current_track - target) as u64
            };
            self.current_track = target;
            self.trigger_led(10);
            let n = if steps < 1 {
                1
            } else {
                steps
            };
            Some(DiskBeep { track: target, duration_ms: 15 * n })
        } else {
            None
        }
    }

    /// Writes `data` at sector `lba`: seeks to its track (whose click is
    /// returned), lights the LED for 20 ticks and copies the bytes into the
    /// image.  Without a disk nothing happens.
    pub fn write_sector(&mut self, lba: usize, data: &[u8]) -> (beep: Option<DiskBeep>)
        requires
            old(self).image is Some ==> lba * SECTOR_SIZE + data@.len() <= old(self).image->0@.len(),
        ensures
            old(self).image is None ==> *final(self) == *old(self) && beep is None,
            old(self).image is Some ==> {
                let img = old(self).image->0@;
                let start = lba * SECTOR_SIZE;
                &&& (final(self).current_track, beep) == seek_result(old(self).current_track, track_of(lba))
                &&& final(self).activity_led
                &&& final(self).led_timer == 20
                &&& final(self).image is Some
                &&& final(self).image->0@ == written_image(img, lba, data@)
                &&& final(self).label == old(self).label
            },
    {
        if self.image.is_none() {
            return None;
        }
        let image_len = self.image.as_ref().unwrap().len();
        let track = #[verifier::truncate] ((lba / (18 * 2)) as u8);
        let beep = self.seek_track(track);
        self.trigger_led(20);
        let start = lba * SECTOR_SIZE;
        let mut img = self.image.take().unwrap();
        let ghost before = img@;
        let mut i: usize = 0;
        while i < data.len()
            invariant
                i <= data@.len(),
                start + data@.len() <= before.len(),
                before.len() == image_len,
                img@.len() == before.len(),
                img@ =~= before.subrange(0, start as int) + data@.subrange(0, i as int) + before.subrange(
                    start + i,
                    before.len() as int,
                ),
            decreases data@.len() - i,
        {
            img.set(start + i, data[i]);
            i = i + 1;
        }
        self.image = Some(img);
        beep
    }

    /// Reads sector `lba`: seeks to its track (whose click is returned),
    /// lights the LED for 15 ticks and gives the sector's 512 bytes.
    /// Without a disk it gives nothing.
    pub fn read_sector(&mut self, lba: usize) -> (r: (Option<&[u8]>, Option<DiskBeep>))
        requires
            old(self).image is Some ==> lba * SECTOR_SIZE + SECTOR_SIZE <= old(self).image->0@.len(),
        ensures
            old(self).image is None ==> *final(self) == *old(self) && r.0 is None && r.1 is None,
            old(self).image is Some ==> {
                let img = old(self).image->0@;
                let start = lba * SECTOR_SIZE;
                &&& (final(self).current_track, r.1) == seek_result(old(self).current_track, track_of(lba))
                &&& final(self).activity_led
                &&& final(self).led_timer == 15
                &&& final(self).image == old(self).image
                &&& r.0 is Some
                &&& r.0->0@ == sector_of(img, lba)
            },
    {
        if self.image.is_none() {
            return (None, None);
        }
        let image_len = self.image.as_ref().unwrap().len();
        let track = #[verifier::truncate] ((lba / (18 * 2)) as u8);
        let beep = self.seek_track(track);
        self.trigger_led(15);
        let start = lba * SECTOR_SIZE;
        let img = self.image.as_ref().unwrap();
        let sector = vstd::slice::slice_subrange(img.as_slice(), start, start + SECTOR_SIZE);
        (Some(sector), beep)
    }

    fn trigger_led(&mut self, duration_ticks: usize)
        ensures
            final(self).activity_led,
            final(self).led_timer == duration_ticks,
            final(self).image == old(self).image,
            final(self).label == old(self).label,
            final(self).current_track == old(self).current_track,
    {
        self.activity_led = true;
        self.led_timer = duration_ticks;
    }

    /// One tick of the LED timer: it counts down and the LED goes dark
    /// when it reaches zero.
    pub fn tick(&mut self)
        ensures
            old(self).led_timer == 0 ==> *final(self) == *old(self),
            old(self).led_timer > 0 ==> {
                &&& final(self).led_timer == old(self).led_timer - 1
                &&& final(self).activity_led == (old(self).activity_led && old(self).led_timer > 1)
                &&& final(self).image == old(self).image
                &&& final(self).current_track == old(self).current_track
            },
    {
        if self.led_timer > 0 {
            self.led_timer -= 1;
            if self.led_timer == 0 {
                self.activity_led = false;
            }
        }
    }
}

/// Reading a sector gives back what was last written to it: the written
/// bytes first, then the rest of the sector as it was before.
pub proof fn law_read_after_write(img: Seq<u8>, lba: usize, data: Seq<u8>)
    requires
        data.len() <= SECTOR_SIZE,
        lba * SECTOR_SIZE + SECTOR_SIZE <= img.len(),
    ensures
        sector_of(written_image(img, lba, data), lba) == data + sector_of(img, lba).skip(data.len() as int),
        sector_of(written_image(img, lba, data), lba).len() == SECTOR_SIZE,
        written_image(img, lba, data).len() == img.len(),
{
    assert(sector_of(written_image(img, lba, data), lba) =~= data + sector_of(img, lba).skip(
        data.len() as int,
    ));
}

/// Writing at most one sector's bytes leaves every other sector as it was.
pub proof fn law_write_keeps_other_sectors(img: Seq<u8>, lba: usize, data: Seq<u8>, other: usize)
    requires
        data.len() <= SECTOR_SIZE,
        lba * SECTOR_SIZE + SECTOR_SIZE <= img.len(),
        other * SECTOR_SIZE + SECTOR_SIZE <= img.len(),
        other != lba,
    ensures
        sector_of(written_image(img, lba, data), other) == sector_of(img, other),
{
    let w = written_image(img, lba, data);
    let a = lba * SECTOR_SIZE;
    let b = other * SECTOR_SIZE;
    assert(a + SECTOR_SIZE <= b || b + SECTOR_SIZE <= a) by (nonlinear_arith)
        requires
            a == lba * 512,
            b == other * 512,
            other != lba,
    ;
    assert(sector_of(w, other) =~= sector_of(img, other));
}

} // verus!
