//! "Quat's Got Byte": an audition in front of judge Simon, who reads the
//! act, answers, and presses one of his four buzzers when he dislikes it.

use vstd::prelude::*;
use crate::text::{trim, lower_text, chars_of, trim_chars, lower_chars};

verus! {

/// The categories of an act.
#[derive(Clone, Copy, Debug, PartialEq, Eq, Structural)]
pub enum ByteCategory {
    DSPChiptuneSong,
    AssemblySpeedrun,
    SpriteArt,
    TechPitch,
}

/// The audition.
pub struct QuatByteAudition {
    pub category: ByteCategory,
    pub user_input: String,
    pub buzzers: [bool; 4],
    pub simon_dialogue: String,
    pub simon_mood: &'static str,
    pub audition_active: bool,
    pub score: u8,
}

/// `p` occurs in `s`.
pub open spec fn contains_text(s: Seq<char>, p: Seq<char>) -> bool {
    exists|i: int| 0 <= i && i + p.len() <= s.len() && #[trigger] s.subrange(i, i + p.len()) == p
}

/// The number of pressed buzzers.
pub open spec fn buzzes(b: [bool; 4]) -> nat {
    (if b@[0] {
        1nat
    } else {
        0
    }) + (if b@[1] {
        1nat
    } else {
        0
    }) + (if b@[2] {
        1nat
    } else {
        0
    }) + (if b@[3] {
        1nat
    } else {
        0
    })
}

/// The buzzers after the next free one is pressed.
pub open spec fn buzzed(b: [bool; 4]) -> Seq<bool> {
    if !b@[0] {
        b@.update(0, true)
    } else if !b@[1] {
        b@.update(1, true)
    } else if !b@[2] {
        b@.update(2, true)
    } else if !b@[3] {
        b@.update(3, true)
    } else {
        b@
    }
}

/// Simon's verdict on an act of category `c` with text `t`: his line, his
/// mood (none when it stays), whether he buzzes and the points awarded.
pub open spec fn verdict(c: ByteCategory, t: Seq<char>) -> (Seq<char>, Option<Seq<char>>, bool, nat) {
    match c {
        ByteCategory::DSPChiptuneSong => if contains_text(lower_text(t), "bas"@) || contains_text(
            lower_text(t),
            "ritam"@,
        ) {
            (
                "Hteo si ritam? Dobio sam glavobolju! Tvoj DSP šum zvuči kao pokvareni veš mašina u ERAM-u."@,
                Some("Besan"@),
                true,
                0,
            )
        } else {
            (
                "Hm... nije potpuno grozno. Zvuči kao osrednja igra za Commodore 64. Nastavi, slušam..."@,
                Some("Malo Impresioniran"@),
                false,
                10,
            )
        },
        ByteCategory::AssemblySpeedrun => if contains_text(t, "NOP"@) || trim(t).len() == 0 {
            (
                "Trošiš moje procesorske cikluse na NOP instrukcije?! Zujalica! Nemaš pojma sa registrima!"@,
                Some("Besan"@),
                true,
                0,
            )
        } else if contains_text(t, "MOV"@) || contains_text(t, "JMP"@) {
            (
                "Konačno neko ko razume sintaksu. Ali optimizacija ti je nula. Zasto si koristio B registar umesto A?!"@,
                Some("Skeptičan"@),
                false,
                25,
            )
        } else {
            ("Šta je ovo?! Sintaksna greška! Moji akumulatori krvare od ovog koda!"@, None, true, 0)
        },
        ByteCategory::SpriteArt => (
            "Tvoj sprajt ima 4 boje i sve četiri su pogrešne. Izgleda kao artifikacija pregrejanog VRAM-a."@,
            Some("Zgađen"@),
            true,
            0,
        ),
        ByteCategory::TechPitch => if vstd::utf8::encode_utf8(t).len() > 30 {
            (
                "Previše reči! Tvome konceptu treba više od 256B RAM-a, a to je neoprostivo u mom studiju!"@,
                Some("Besan"@),
                true,
                0,
            )
        } else {
            ("Kratko, ali da li je izvodljivo na 1.00 MHz? Dokaži mi ili letiš napolje!"@, None, false, 15)
        },
    }
}

/// The points of the verdict would push the score past 255.
pub open spec fn score_overflows(a: QuatByteAudition) -> bool {
    buzzes(a.buzzers) < 4 && a.score + verdict(a.category, a.user_input@).3 > 255
}

/// Tests whether the text `p` occurs in `s`.
fn text_contains(s: &[char], p: &str) -> (r: bool)
    ensures
        r == contains_text(s@, p@),
{
    let pc = chars_of(p);
    if pc.len() > s.len() {
        return false;
    }
    if pc.len() == 0 {
        assert(s@.subrange(0int, 0int + p@.len()) =~= p@);
        return true;
    }
    let slen = s.len();
    let n = slen - pc.len();
    let mut i: usize = 0;
    while i <= n
        invariant
            pc@ == p@,
            0 < pc@.len() <= s@.len(),
            slen == s@.len(),
            n == s@.len() - pc@.len(),
            n < slen,
            i <= n + 1,
            forall|k: int| 0 <= k < i ==> #[trigger] s@.subrange(k, k + pc@.len()) != pc@,
        decreases n + 1 - i,
    {
        let mut j: usize = 0;
        let mut same = true;
        assert(s@.subrange(i as int, i as int) =~= pc@.subrange(0, 0));
        while j < pc.len()
            invariant
                i + pc@.len() <= s@.len(),
                slen == s@.len(),
                j <= pc@.len(),
                same == (s@.subrange(i as int, i + j) == pc@.subrange(0, j as int)),
            decreases pc@.len() - j,
        {
            if s[i + j] != pc[j] {
                same = false;
            }
            proof {
                assert(s@.subrange(i as int, i + j + 1) =~= s@.subrange(i as int, i + j).push(s@[i + j]));
                assert(pc@.subrange(0, j + 1) =~= pc@.subrange(0, j as int).push(pc@[j as int]));
                if !same && s@.subrange(i as int, i + j + 1) == pc@.subrange(0, j + 1) {
                    if s@[i + j] != pc@[j as int] {
                        assert(s@.subrange(i as int, i + j + 1)[j as int] == s@[i + j]);
                    } else {
                        assert(s@.subrange(i as int, i + j + 1).subrange(0, j as int) =~= s@.subrange(i as int, i + j));
                        assert(pc@.subrange(0, j + 1).subrange(0, j as int) =~= pc@.subrange(0, j as int));
                    }
                }
            }
            j = j + 1;
        }
        assert(pc@.subrange(0, pc@.len() as int) =~= pc@);
        if same {
            assert(s@.subrange(i as int, i + pc@.len()) == pc@);
            return true;
        }
        i = i + 1;
    }
    proof {
        if contains_text(s@, p@) {
            let k = choose|k: int| 0 <= k && k + p@.len() <= s@.len() && #[trigger] s@.subrange(k, k + p@.len()) == p@;
            assert(s@.subrange(k, k + pc@.len()) == pc@);
        }
    }
    false
}

impl QuatByteAudition {
    /// Off stage, chiptune category, no buzzers, no points, Simon sceptical.
    pub fn new() -> (a: QuatByteAudition)
        ensures
            a.category == ByteCategory::DSPChiptuneSong,
            a.user_input@.len() == 0,
            a.buzzers@ == seq![false, false, false, false],
            a.simon_dialogue@ == "Izađi na binu. Nemam ceo dan, registri se pregrevaju. Šta si nam spremio?"@,
            a.simon_mood@ == "Skeptičan"@,
            !a.audition_active,
            a.score == 0,
    {
        let a = QuatByteAudition {
            category: ByteCategory::DSPChiptuneSong,
            user_input: String::new(),
            buzzers: [false; 4],
            simon_dialogue: String::from_str(
                "Izađi na binu. Nemam ceo dan, registri se pregrevaju. Šta si nam spremio?",
            ),
            simon_mood: "Skeptičan",
            audition_active: false,
            score: 0,
        };
        assert(a.buzzers@ =~= seq![false, false, false, false]);
        a
    }

    /// Presses the first buzzer not yet pressed.
    fn buzz_next(&mut self)
        ensures
            final(self).buzzers@ == buzzed(old(self).buzzers),
            final(self).category == old(self).category,
            final(self).user_input == old(self).user_input,
            final(self).simon_dialogue == old(self).simon_dialogue,
            final(self).simon_mood == old(self).simon_mood,
            final(self).audition_active == old(self).audition_active,
            final(self).score == old(self).score,
    {
        if !self.buzzers[0] {
            self.buzzers[0] = true;
        } else if !self.buzzers[1] {
            self.buzzers[1] = true;
        } else if !self.buzzers[2] {
            self.buzzers[2] = true;
        } else if !self.buzzers[3] {
            self.buzzers[3] = true;
        }
    }

    /// Simon judges the act: after four buzzers he throws the act off the
    /// stage; otherwise he answers according to `verdict`, buzzing or
    /// awarding its points.
    pub fn simon_evaluate(&mut self)
        requires
            !score_overflows(*old(self)),
        ensures
            final(self).category == old(self).category,
            final(self).user_input == old(self).user_input,
            buzzes(old(self).buzzers) == 4 ==> {
                &&& final(self).simon_dialogue@
                    == "DOSTA! 4 CRVENA X-A! Ovo je bio najgori nastup u istoriji $4^4$ arhitekture. Napusti binu odmah!"@
                &&& final(self).simon_mood@ == "Zgađen"@
                &&& !final(self).audition_active
                &&& final(self).buzzers == old(self).buzzers
                &&& final(self).score == old(self).score
            },
            buzzes(old(self).buzzers) < 4 ==> {
                let v = verdict(old(self).category, old(self).user_input@);
                &&& final(self).simon_dialogue@ == v.0
                &&& final(self).simon_mood@ == (match v.1 {
                    Some(m) => m,
                    None => old(self).simon_mood@,
                })
                &&& final(self).buzzers@ == (if v.2 {
                    buzzed(old(self).buzzers)
                } else {
                    old(self).buzzers@
                })
                &&& final(self).score == old(self).score + v.3
                &&& final(self).audition_active == old(self).audition_active
            },
    {
        let mut active: usize = 0;
        if self.buzzers[0] {
            active = active + 1;
        }
        if self.buzzers[1] {
            active = active + 1;
        }
        if self.buzzers[2] {
            active = active + 1;
        }
        if self.buzzers[3] {
            active = active + 1;
        }
        if active == 4 {
            self.simon_dialogue = String::from_str(
                "DOSTA! 4 CRVENA X-A! Ovo je bio najgori nastup u istoriji $4^4$ arhitekture. Napusti binu odmah!",
            );
            self.simon_mood = "Zgađen";
            self.audition_active = false;
            return;
        }
        let text = chars_of(self.user_input.as_str());
        match self.category {
            ByteCategory::DSPChiptuneSong => {
                let low = lower_chars(&text);
                if text_contains(&low, "bas") || text_contains(&low, "ritam") {
                    self.simon_dialogue = String::from_str(
                        "Hteo si ritam? Dobio sam glavobolju! Tvoj DSP šum zvuči kao pokvareni veš mašina u ERAM-u.",
                    );
                    self.buzz_next();
                    self.simon_mood = "Besan";
                } else {
                    self.simon_dialogue = String::from_str(
                        "Hm... nije potpuno grozno. Zvuči kao osrednja igra za Commodore 64. Nastavi, slušam...",
                    );
                    self.simon_mood = "Malo Impresioniran";
                    self.score += 10;
                }
            },
            ByteCategory::AssemblySpeedrun => {
                let trimmed = trim_chars(&text);
                if text_contains(&text, "NOP") || trimmed.len() == 0 {
                    self.simon_dialogue = String::from_str(
                        "Trošiš moje procesorske cikluse na NOP instrukcije?! Zujalica! Nemaš pojma sa registrima!",
                    );
                    self.buzz_next();
                    self.simon_mood = "Besan";
                } else if text_contains(&text, "MOV") || text_contains(&text, "JMP") {
                    self.simon_dialogue = String::from_str(
                        "Konačno neko ko razume sintaksu. Ali optimizacija ti je nula. Zasto si koristio B registar umesto A?!",
                    );
                    self.score += 25;
                    self.simon_mood = "Skeptičan";
                } else {
                    self.simon_dialogue = String::from_str(
                        "Šta je ovo?! Sintaksna greška! Moji akumulatori krvare od ovog koda!",
                    );
                    self.buzz_next();
                }
            },
            ByteCategory::SpriteArt => {
                self.simon_dialogue = String::from_str(
                    "Tvoj sprajt ima 4 boje i sve četiri su pogrešne. Izgleda kao artifikacija pregrejanog VRAM-a.",
                );
                self.buzz_next();
                self.simon_mood = "Zgađen";
            },
            ByteCategory::TechPitch => {
                if self.user_input.as_str().as_bytes().len() > 30 {
                    self.simon_dialogue = String::from_str(
                        "Previše reči! Tvome konceptu treba više od 256B RAM-a, a to je neoprostivo u mom studiju!",
                    );
                    self.buzz_next();
                    self.simon_mood = "Besan";
                } else {
                    self.simon_dialogue = String::from_str(
                        "Kratko, ali da li je izvodljivo na 1.00 MHz? Dokaži mi ili letiš napolje!",
                    );
                    self.score += 15;
                }
            },
        }
    }

    /// Judges the act as `simon_evaluate` does, unless its points would
    /// push the score past 255: then nothing changes and the result is
    /// `false`.
    pub fn simon_evaluate_checked(&mut self) -> (judged: bool)
        ensures
            judged <==> !score_overflows(*old(self)),
            !judged ==> *final(self) == *old(self),
            judged ==> final(self).category == old(self).category && final(self).user_input == old(
                self,
            ).user_input,
            judged && buzzes(old(self).buzzers) == 4 ==> {
                &&& final(self).simon_mood@ == "Zgađen"@
                &&& !final(self).audition_active
                &&& final(self).buzzers == old(self).buzzers
                &&& final(self).score == old(self).score
            },
            judged && buzzes(old(self).buzzers) < 4 ==> {
                let v = verdict(old(self).category, old(self).user_input@);
                &&& final(self).simon_dialogue@ == v.0
                &&& final(self).simon_mood@ == (match v.1 {
                    Some(m) => m,
                    None => old(self).simon_mood@,
                })
                &&& final(self).buzzers@ == (if v.2 {
                    buzzed(old(self).buzzers)
                } else {
                    old(self).buzzers@
                })
                &&& final(self).score == old(self).score + v.3
                &&& final(self).audition_active == old(self).audition_active
            },
    {
        let all_pressed = self.buzzers[0] && self.buzzers[1] && self.buzzers[2] && self.buzzers[3];
        if !all_pressed {
            let text = chars_of(self.user_input.as_str());
            let gain: u8 = match self.category {
                ByteCategory::DSPChiptuneSong => {
                    let low = lower_chars(&text);
                    if text_contains(&low, "bas") || text_contains(&low, "ritam") {
                        0
                    } else {
                        10
                    }
                },
                ByteCategory::AssemblySpeedrun => {
                    let trimmed = trim_chars(&text);
                    if text_contains(&text, "NOP") || trimmed.len() == 0 {
                        0
                    } else if text_contains(&text, "MOV") || text_contains(&text, "JMP") {
                        25
                    } else {
                        0
                    }
                },
                ByteCategory::SpriteArt => 0,
                ByteCategory::TechPitch => {
                    if self.user_input.as_str().as_bytes().len() > 30 {
                        0
                    } else {
                        15
                    }
                },
            };
            if self.score > 255 - gain {
                return false;
            }
        }
        self.simon_evaluate();
        true
    }

    /// Goes on stage: buzzers and score reset, Simon sceptical.
    pub fn start_audition(&mut self)
        ensures
            final(self).audition_active,
            final(self).buzzers@ == seq![false, false, false, false],
            final(self).score == 0,
            final(self).simon_dialogue@ == "Reflektori su na tebi. Pokaži šta znaš ili me ubedi argumentima!"@,
            final(self).simon_mood@ == "Skeptičan"@,
            final(self).category == old(self).category,
            final(self).user_input == old(self).user_input,
    {
        self.audition_active = true;
        self.buzzers = [false; 4];
        self.score = 0;
        self.simon_dialogue = String::from_str("Reflektori su na tebi. Pokaži šta znaš ili me ubedi argumentima!");
        self.simon_mood = "Skeptičan";
        assert(self.buzzers@ =~= seq![false, false, false, false]);
    }

    /// Leaves the stage.
    pub fn give_up(&mut self)
        ensures
            !final(self).audition_active,
            final(self).simon_dialogue@ == "Mudrom odlukom si izbegao potpunu sramotu. Sledeći!"@,
            final(self).buzzers == old(self).buzzers,
            final(self).score == old(self).score,
            final(self).simon_mood == old(self).simon_mood,
            final(self).category == old(self).category,
            final(self).user_input == old(self).user_input,
    {
        self.audition_active = false;
        self.simon_dialogue = String::from_str("Mudrom odlukom si izbegao potpunu sramotu. Sledeći!");
    }
}

} // verus!
