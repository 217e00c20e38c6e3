//! Text helpers shared by the shells and logs: number formatting and the
//! character classes used when tokenizing input.

use vstd::prelude::*;

verus! {

/// Appends one character to a string (std `String::push`): the new text is
/// the old text followed by `c`.
#[verifier::external_body]
pub(crate) fn push_char(s: &mut String, c: char)
    ensures
        final(s)@ == old(s)@.push(c),
{
    s.push(c);
}

/// The digit character for `d` (`0`-`9`, then upper-case `A`-`F`).
pub open spec fn digit_char(d: nat) -> char {
    if d < 10 {
        (('0' as nat) + d) as char
    } else {
        (('A' as nat) + (d - 10)) as char
    }
}

/// The digits of `n` in base `b` (2 <= b <= 16), most significant first,
/// without leading zeros ("0" for zero).
pub open spec fn radix_str(n: nat, b: nat) -> Seq<char>
    decreases n,
{
    if b < 2 {
        Seq::empty()
    } else if n < b {
        seq![digit_char(n)]
    } else {
        proof {
            vstd::arithmetic::div_mod::lemma_div_decreases(n as int, b as int);
        }
        radix_str(n / b, b).push(digit_char(n % b))
    }
}

/// `s` left-padded with `'0'` up to `width` characters.
pub open spec fn zero_pad(s: Seq<char>, width: nat) -> Seq<char> {
    if s.len() >= width {
        s
    } else {
        Seq::new((width - s.len()) as nat, |i: int| '0') + s
    }
}

/// Decimal text of `n`.
pub open spec fn dec_str(n: nat) -> Seq<char> {
    radix_str(n, 10)
}

/// Upper-case hexadecimal text of `n`, zero-padded to `width`.
pub open spec fn hex_pad(n: nat, width: nat) -> Seq<char> {
    zero_pad(radix_str(n, 16), width)
}

fn digit_of(d: u64) -> (c: char)
    requires
        d < 16,
    ensures
        c == digit_char(d as nat),
{
    match d {
        0 => '0',
        1 => '1',
        2 => '2',
        3 => '3',
        4 => '4',
        5 => '5',
        6 => '6',
        7 => '7',
        8 => '8',
        9 => '9',
        10 => 'A',
        11 => 'B',
        12 => 'C',
        13 => 'D',
        14 => 'E',
        _ => 'F',
    }
}

/// Appends the digits of `n` in base `base`, zero-padded to `width`.
pub fn push_radix(s: &mut String, n: u64, base: u64, width: usize)
    requires
        2 <= base <= 16,
    ensures
        final(s)@ == old(s)@ + zero_pad(radix_str(n as nat, base as nat), width as nat),
{
    let mut digits: Vec<char> = Vec::new();
    let mut m = n;
    while m >= base
        invariant
            2 <= base <= 16,
            radix_str(n as nat, base as nat) =~= radix_str(m as nat, base as nat) + digits@,
        decreases m,
    {
        let d = digit_of(m % base);
        digits.insert(0, d);
        m = m / base;
    }
    let first = digit_of(m);
    digits.insert(0, first);
    assert(digits@ =~= radix_str(n as nat, base as nat));
    let ghost start = s@;
    let mut k = digits.len();
    while k < width
        invariant
            digits@ =~= radix_str(n as nat, base as nat),
            digits.len() <= k,
            k <= width || k == digits.len(),
            s@ =~= start + Seq::new((k - digits.len()) as nat, |i: int| '0'),
        decreases width - k,
    {
        push_char(s, '0');
        k = k + 1;
    }
    let ghost padded = s@;
    let mut j: usize = 0;
    while j < digits.len()
        invariant
            j <= digits.len(),
            s@ =~= padded + digits@.subrange(0, j as int),
        decreases digits.len() - j,
    {
        push_char(s, digits[j]);
        j = j + 1;
    }
}

/// The characters of `s`, in order.
pub fn chars_of(s: &str) -> (v: Vec<char>)
    ensures
        v@ == s@,
{
    broadcast use vstd::string::group_string_axioms;
    let mut v: Vec<char> = Vec::new();
    for c in it: s.chars()
        invariant
            it.seq() == s@,
            v@ =~= s@.take(it.index() as int),
    {
        v.push(c);
    }
    v
}

/// A string holding the characters `cs`.
pub fn string_of(cs: &[char]) -> (s: String)
    ensures
        s@ == cs@,
{
    let mut s = String::new();
    let mut i: usize = 0;
    while i < cs.len()
        invariant
            i <= cs@.len(),
            s@ =~= cs@.subrange(0, i as int),
        decreases cs@.len() - i,
    {
        push_char(&mut s, cs[i]);
        i = i + 1;
    }
    s
}

/// Unicode `White_Space`, the class that `char::is_whitespace` tests.
pub open spec fn is_ws(c: char) -> bool {
    let n = c as u32;
    (9 <= n <= 13) || n == 32 || n == 0x85 || n == 0xA0 || n == 0x1680 || (0x2000 <= n <= 0x200A)
        || n == 0x2028 || n == 0x2029 || n == 0x202F || n == 0x205F || n == 0x3000
}

/// Tests whether `c` is white space (Unicode `White_Space`).
pub fn is_whitespace(c: char) -> (b: bool)
    ensures
        b == is_ws(c),
{
    let n = c as u32;
    (9 <= n && n <= 13) || n == 32 || n == 0x85 || n == 0xA0 || n == 0x1680 || (0x2000 <= n && n
        <= 0x200A) || n == 0x2028 || n == 0x2029 || n == 0x202F || n == 0x205F || n == 0x3000
}

/// `s` without its leading white space.
pub open spec fn trim_start(s: Seq<char>) -> Seq<char>
    decreases s.len(),
{
    if s.len() > 0 && is_ws(s[0]) {
        trim_start(s.drop_first())
    } else {
        s
    }
}

/// `s` without its trailing white space.
pub open spec fn trim_end(s: Seq<char>) -> Seq<char>
    decreases s.len(),
{
    if s.len() > 0 && is_ws(s.last()) {
        trim_end(s.drop_last())
    } else {
        s
    }
}

/// `s` without leading and trailing white space (`str::trim`).
pub open spec fn trim(s: Seq<char>) -> Seq<char> {
    trim_end(trim_start(s))
}

/// The longest prefix of `s` that holds no white space.
pub open spec fn word_prefix(s: Seq<char>) -> Seq<char>
    decreases s.len(),
{
    if s.len() == 0 || is_ws(s[0]) {
        Seq::empty()
    } else {
        seq![s[0]] + word_prefix(s.drop_first())
    }
}

/// The white-space separated words of `s` (`str::split_whitespace`).
pub open spec fn words(s: Seq<char>) -> Seq<Seq<char>>
    decreases s.len(),
{
    let t = trim_start(s);
    if t.len() == 0 {
        Seq::empty()
    } else {
        proof {
            lemma_trim_start_len(s);
            lemma_word_prefix(t);
        }
        seq![word_prefix(t)] + words(t.skip(word_prefix(t).len() as int))
    }
}

pub proof fn lemma_trim_start_len(s: Seq<char>)
    ensures
        trim_start(s).len() <= s.len(),
        trim_start(s).len() > 0 ==> !is_ws(trim_start(s)[0]),
        trim_start(s) == s.skip(s.len() - trim_start(s).len()),
    decreases s.len(),
{
    if s.len() > 0 && is_ws(s[0]) {
        lemma_trim_start_len(s.drop_first());
        assert(s.drop_first().skip(s.drop_first().len() - trim_start(s).len()) =~= s.skip(
            s.len() - trim_start(s).len(),
        ));
    } else {
        assert(s.skip(0) =~= s);
    }
}

pub proof fn lemma_trim_end_len(s: Seq<char>)
    ensures
        trim_end(s).len() <= s.len(),
        trim_end(s).len() > 0 ==> !is_ws(trim_end(s).last()),
        trim_end(s) == s.take(trim_end(s).len() as int),
    decreases s.len(),
{
    if s.len() > 0 && is_ws(s.last()) {
        lemma_trim_end_len(s.drop_last());
        assert(s.drop_last().take(trim_end(s).len() as int) =~= s.take(trim_end(s).len() as int));
    } else {
        assert(s.take(s.len() as int) =~= s);
    }
}

pub proof fn lemma_word_prefix(s: Seq<char>)
    ensures
        word_prefix(s).len() <= s.len(),
        s.len() > 0 && !is_ws(s[0]) ==> word_prefix(s).len() > 0,
        word_prefix(s) == s.take(word_prefix(s).len() as int),
        forall|i: int| 0 <= i < word_prefix(s).len() ==> !is_ws(#[trigger] s[i]),
        word_prefix(s).len() < s.len() ==> is_ws(s[word_prefix(s).len() as int]),
    decreases s.len(),
{
    if s.len() == 0 || is_ws(s[0]) {
    } else {
        lemma_word_prefix(s.drop_first());
        assert(seq![s[0]] + s.drop_first().take(word_prefix(s.drop_first()).len() as int) =~= s.take(
            word_prefix(s).len() as int,
        ));
        assert forall|i: int| 0 <= i < word_prefix(s).len() implies !is_ws(#[trigger] s[i]) by {
            if i > 0 {
                assert(s[i] == s.drop_first()[i - 1]);
            }
        }
        if word_prefix(s).len() < s.len() {
            assert(s[word_prefix(s).len() as int] == s.drop_first()[word_prefix(s.drop_first()).len() as int]);
        }
    }
}

/// The characters of `cs` without leading and trailing white space.
pub fn trim_chars(cs: &[char]) -> (r: Vec<char>)
    ensures
        r@ == trim(cs@),
{
    let mut lo: usize = 0;
    assert(cs@.skip(0) =~= cs@);
    while lo < cs.len() && is_whitespace(cs[lo])
        invariant
            lo <= cs@.len(),
            trim_start(cs@) == trim_start(cs@.skip(lo as int)),
        decreases cs@.len() - lo,
    {
        assert(cs@.skip(lo as int).drop_first() =~= cs@.skip(lo + 1));
        lo = lo + 1;
    }
    let ghost t = cs@.skip(lo as int);
    assert(trim_start(t) == t);
    let mut hi: usize = cs.len();
    while hi > lo && is_whitespace(cs[hi - 1])
        invariant
            lo <= hi <= cs@.len(),
            trim_end(t) == trim_end(cs@.subrange(lo as int, hi as int)),
        decreases hi,
    {
        assert(cs@.subrange(lo as int, hi as int).drop_last() =~= cs@.subrange(lo as int, hi - 1));
        hi = hi - 1;
    }
    assert(cs@.subrange(lo as int, cs@.len() as int) =~= t);
    let mut r: Vec<char> = Vec::new();
    let mut i = lo;
    while i < hi
        invariant
            lo <= i <= hi <= cs@.len(),
            r@ =~= cs@.subrange(lo as int, i as int),
        decreases hi - i,
    {
        r.push(cs[i]);
        i = i + 1;
    }
    r
}

/// The white-space separated words of `cs`.
pub fn split_words(cs: &[char]) -> (ws: Vec<Vec<char>>)
    ensures
        ws@.map_values(|w: Vec<char>| w@) == words(cs@),
{
    let mut ws: Vec<Vec<char>> = Vec::new();
    let mut i: usize = 0;
    assert(cs@.skip(0) =~= cs@);
    assert(ws@.map_values(|w: Vec<char>| w@) =~= Seq::<Seq<char>>::empty());
    while i < cs.len()
        invariant
            i <= cs@.len(),
            words(cs@) == ws@.map_values(|w: Vec<char>| w@) + words(cs@.skip(i as int)),
        decreases cs@.len() - i,
    {
        let ghost rest = cs@.skip(i as int);
        if is_whitespace(cs[i]) {
            proof {
                assert(rest.drop_first() =~= cs@.skip(i + 1));
                assert(trim_start(rest) == trim_start(rest.drop_first()));
                lemma_words_ws_head(rest);
            }
            i = i + 1;
        } else {
            let mut j = i;
            let mut w: Vec<char> = Vec::new();
            while j < cs.len() && !is_whitespace(cs[j])
                invariant
                    i <= j <= cs@.len(),
                    w@ =~= cs@.subrange(i as int, j as int),
                    forall|k: int| i <= k < j ==> !is_ws(#[trigger] cs@[k]),
                decreases cs@.len() - j,
            {
                w.push(cs[j]);
                j = j + 1;
            }
            proof {
                lemma_words_word_head(rest, (j - i) as nat);
                assert(rest.take((j - i) as int) =~= w@);
                assert(rest.skip((j - i) as int) =~= cs@.skip(j as int));
            }
            let ghost before = ws@.map_values(|w: Vec<char>| w@);
            ws.push(w);
            assert(ws@.map_values(|w: Vec<char>| w@) =~= before.push(cs@.subrange(i as int, j as int)));
            i = j;
        }
    }
    assert(cs@.skip(i as int) =~= Seq::<char>::empty());
    assert(words(Seq::<char>::empty()) =~= Seq::<Seq<char>>::empty());
    ws
}

proof fn lemma_words_ws_head(s: Seq<char>)
    requires
        s.len() > 0,
        is_ws(s[0]),
    ensures
        words(s) == words(s.drop_first()),
{
}

proof fn lemma_words_word_head(s: Seq<char>, n: nat)
    requires
        0 < n <= s.len(),
        forall|k: int| 0 <= k < n ==> !is_ws(#[trigger] s[k]),
        n < s.len() ==> is_ws(s[n as int]),
    ensures
        words(s) == seq![s.take(n as int)] + words(s.skip(n as int)),
{
    lemma_word_prefix(s);
    assert(trim_start(s) == s);
    if word_prefix(s).len() < n {
        assert(is_ws(s[word_prefix(s).len() as int]));
    }
    if word_prefix(s).len() > n {
        assert(!is_ws(s[n as int]));
    }
    assert(word_prefix(s).len() == n);
}

/// The value of the digit `c` in base `base` (`char::to_digit`): `0`-`9`,
/// then letters of either case from 10 on, when below `base`.
pub open spec fn digit_value(c: char, base: nat) -> Option<nat> {
    let n = c as u32;
    let v: int = if 48 <= n <= 57 {
        n - 48
    } else if 97 <= n <= 122 {
        n - 97 + 10
    } else if 65 <= n <= 90 {
        n - 65 + 10
    } else {
        99
    };
    if v < base {
        Some(v as nat)
    } else {
        None
    }
}

/// Every character of `s` is a digit in base `base`.
pub open spec fn all_digits(s: Seq<char>, base: nat) -> bool {
    forall|i: int| 0 <= i < s.len() ==> (#[trigger] digit_value(s[i], base)) is Some
}

/// The value of the digit string `s` in base `base`.
pub open spec fn digits_value(s: Seq<char>, base: nat) -> nat
    decreases s.len(),
{
    if s.len() == 0 {
        0
    } else {
        digits_value(s.drop_last(), base) * base + digit_value(s.last(), base)->0
    }
}

/// What `from_str_radix` (and `str::parse`) gives for an unsigned integer
/// type whose largest value is `max`: an optional `+`, then at least one
/// digit, and a value that fits.
pub open spec fn parse_unsigned(s: Seq<char>, base: nat, max: nat) -> Option<nat> {
    let ds = if s.len() > 0 && s[0] == '+' {
        s.drop_first()
    } else {
        s
    };
    if ds.len() == 0 || !all_digits(ds, base) || digits_value(ds, base) > max {
        None
    } else {
        Some(digits_value(ds, base))
    }
}

fn digit_of_char(c: char, base: u64) -> (r: Option<u64>)
    requires
        base <= 36,
    ensures
        r is Some <==> digit_value(c, base as nat) is Some,
        r is Some ==> r->0 == digit_value(c, base as nat)->0,
{
    let n = c as u32;
    let v: u64 = if 48 <= n && n <= 57 {
        (n - 48) as u64
    } else if 97 <= n && n <= 122 {
        (n - 97 + 10) as u64
    } else if 65 <= n && n <= 90 {
        (n - 65 + 10) as u64
    } else {
        99
    };
    if v < base {
        Some(v)
    } else {
        None
    }
}

/// Parses an unsigned integer (no larger than `max`) written in base
/// `base`, as `from_str_radix` does.
pub fn parse_unsigned_chars(cs: &[char], base: u64, max: u64) -> (r: Option<u64>)
    requires
        2 <= base <= 16,
    ensures
        r is Some <==> parse_unsigned(cs@, base as nat, max as nat) is Some,
        r is Some ==> r->0 == parse_unsigned(cs@, base as nat, max as nat)->0,
{
    let start: usize = if cs.len() > 0 && cs[0] == '+' {
        1
    } else {
        0
    };
    let ghost ds = cs@.skip(start as int);
    proof {
        if start == 1 {
            assert(ds =~= cs@.drop_first());
        } else {
            assert(ds =~= cs@);
        }
    }
    if start >= cs.len() {
        return None;
    }
    let cap: u128 = max as u128 + 1;
    let mut acc: u128 = 0;
    let mut i = start;
    while i < cs.len()
        invariant
            start <= i <= cs@.len(),
            start == (if cs@.len() > 0 && cs@[0] == '+' { 1usize } else { 0usize }),
            ds == cs@.skip(start as int),
            2 <= base <= 16,
            cap == max + 1,
            acc <= cap,
            all_digits(cs@.subrange(start as int, i as int), base as nat),
            acc == if digits_value(cs@.subrange(start as int, i as int), base as nat) < cap {
                digits_value(cs@.subrange(start as int, i as int), base as nat) as int
            } else {
                cap as int
            },
        decreases cs@.len() - i,
    {
        let d = digit_of_char(cs[i], base);
        match d {
            None => {
                proof {
                    let k = i - start;
                    assert(0 <= k < ds.len());
                    assert(ds[k] == cs@[i as int]);
                    assert(!(digit_value(ds[k], base as nat) is Some));
                    assert(!all_digits(ds, base as nat));
                    if start == 1 {
                        assert(ds =~= cs@.drop_first());
                    } else {
                        assert(ds =~= cs@);
                    }
                }
                return None;
            },
            Some(dv) => {
                let ghost prev = cs@.subrange(start as int, i as int);
                let ghost next = cs@.subrange(start as int, i + 1);
                proof {
                    assert(next.drop_last() =~= prev);
                    assert(next.last() == cs@[i as int]);
                    assert forall|k: int| 0 <= k < next.len() implies (#[trigger] digit_value(
                        next[k],
                        base as nat,
                    )) is Some by {
                        if k < prev.len() {
                            assert(next[k] == prev[k]);
                        }
                    }
                    let v = digits_value(prev, base as nat);
                    assert(digits_value(next, base as nat) == v * base + dv);
                    assert(v * base >= v) by (nonlinear_arith)
                        requires
                            base >= 2,
                    ;
                    if v >= cap {
                        assert(cap * base >= cap) by (nonlinear_arith)
                            requires
                                base >= 2,
                                cap >= 1,
                        ;
                    }
                }
                assert(acc * (base as u128) <= cap * 16) by (nonlinear_arith)
                    requires
                        acc <= cap,
                        base <= 16,
                ;
                let nv = acc * (base as u128) + (dv as u128);
                acc = if nv < cap {
                    nv
                } else {
                    cap
                };
            },
        }
        i = i + 1;
    }
    assert(cs@.subrange(start as int, cs@.len() as int) =~= ds);
    if acc < cap {
        Some(acc as u64)
    } else {
        None
    }
}

/// What `str::to_uppercase` gives for the text `s` (Unicode upper-case
/// mapping, which may change a string's length).
pub uninterp spec fn upper_text(s: Seq<char>) -> Seq<char>;

/// What `str::to_lowercase` gives for the text `s` (Unicode lower-case
/// mapping).
pub uninterp spec fn lower_text(s: Seq<char>) -> Seq<char>;

/// std `str::to_uppercase`: the result is the upper-case form of `s`,
/// named by `upper_text`; nothing more is claimed of it.
#[verifier::external_body]
pub(crate) fn to_upper(s: &str) -> (r: String)
    ensures
        r@ == upper_text(s@),
{
    s.to_uppercase()
}

/// std `str::to_lowercase`: the result is the lower-case form of `s`,
/// named by `lower_text`; nothing more is claimed of it.
#[verifier::external_body]
pub(crate) fn to_lower(s: &str) -> (r: String)
    ensures
        r@ == lower_text(s@),
{
    s.to_lowercase()
}

/// The upper-case form of the characters `cs`, as characters.
pub fn upper_chars(cs: &[char]) -> (r: Vec<char>)
    ensures
        r@ == upper_text(cs@),
{
    let s = string_of(cs);
    let u = to_upper(s.as_str());
    chars_of(u.as_str())
}

/// The lower-case form of the characters `cs`, as characters.
pub fn lower_chars(cs: &[char]) -> (r: Vec<char>)
    ensures
        r@ == lower_text(cs@),
{
    let s = string_of(cs);
    let u = to_lower(s.as_str());
    chars_of(u.as_str())
}

/// Tests whether two character sequences are equal.
pub fn same_chars(a: &[char], b: &[char]) -> (r: bool)
    ensures
        r == (a@ == b@),
{
    if a.len() != b.len() {
        return false;
    }
    let mut i: usize = 0;
    while i < a.len()
        invariant
            a@.len() == b@.len(),
            i <= a@.len(),
            a@.subrange(0, i as int) == b@.subrange(0, i as int),
        decreases a@.len() - i,
    {
        if a[i] != b[i] {
            assert(a@[i as int] != b@[i as int]);
            return false;
        }
        assert(a@.subrange(0, i + 1) =~= a@.subrange(0, i as int).push(a@[i as int]));
        assert(b@.subrange(0, i + 1) =~= b@.subrange(0, i as int).push(b@[i as int]));
        i = i + 1;
    }
    assert(a@ =~= a@.subrange(0, i as int));
    assert(b@ =~= b@.subrange(0, i as int));
    true
}

/// Tests whether the characters `cs` spell the text `t`.
pub fn chars_are(cs: &[char], t: &str) -> (r: bool)
    ensures
        r == (cs@ == t@),
{
    let tc = chars_of(t);
    same_chars(cs, &tc)
}

/// `s` starts with `p`.
pub open spec fn starts_with(s: Seq<char>, p: Seq<char>) -> bool {
    s.len() >= p.len() && s.take(p.len() as int) == p
}

/// Tests whether `cs` starts with the text `t`.
pub fn chars_start_with(cs: &[char], t: &str) -> (r: bool)
    ensures
        r == starts_with(cs@, t@),
{
    let tc = chars_of(t);
    if cs.len() < tc.len() {
        return false;
    }
    let mut head: Vec<char> = Vec::new();
    let mut i: usize = 0;
    while i < tc.len()
        invariant
            tc@.len() <= cs@.len(),
            i <= tc@.len(),
            head@ =~= cs@.subrange(0, i as int),
        decreases tc@.len() - i,
    {
        head.push(cs[i]);
        i = i + 1;
    }
    same_chars(&head, &tc)
}

/// The index of the first `c` in `s`, or `s.len()` when there is none.
pub open spec fn first_char(s: Seq<char>, c: char) -> nat
    decreases s.len(),
{
    if s.len() == 0 {
        0
    } else if s[0] == c {
        0
    } else {
        1 + first_char(s.drop_first(), c)
    }
}

/// The index of the first `//` in `s`, or `s.len()` when there is none.
pub open spec fn first_slashes(s: Seq<char>) -> nat
    decreases s.len(),
{
    if s.len() < 2 {
        s.len()
    } else if s[0] == '/' && s[1] == '/' {
        0
    } else {
        1 + first_slashes(s.drop_first())
    }
}

pub proof fn lemma_first_char(s: Seq<char>, c: char)
    ensures
        first_char(s, c) <= s.len(),
        forall|i: int| 0 <= i < first_char(s, c) ==> s[i] != c,
        first_char(s, c) < s.len() ==> s[first_char(s, c) as int] == c,
    decreases s.len(),
{
    if s.len() > 0 && s[0] != c {
        lemma_first_char(s.drop_first(), c);
        assert forall|i: int| 0 <= i < first_char(s, c) implies s[i] != c by {
            if i > 0 {
                assert(s[i] == s.drop_first()[i - 1]);
            }
        }
    }
}

pub proof fn lemma_first_slashes(s: Seq<char>)
    ensures
        first_slashes(s) <= s.len(),
        forall|i: int| 0 <= i < first_slashes(s) && i + 1 < s.len() ==> !(#[trigger] s[i] == '/' && s[i + 1] == '/'),
        first_slashes(s) < s.len() ==> first_slashes(s) + 1 < s.len() && s[first_slashes(s) as int] == '/'
            && s[(first_slashes(s) + 1) as int] == '/',
    decreases s.len(),
{
    if s.len() >= 2 && !(s[0] == '/' && s[1] == '/') {
        lemma_first_slashes(s.drop_first());
        assert forall|i: int| 0 <= i < first_slashes(s) && i + 1 < s.len() implies !(#[trigger] s[i] == '/' && s[i
            + 1] == '/') by {
            if i > 0 {
                assert(s[i] == s.drop_first()[i - 1]);
                assert(s[i + 1] == s.drop_first()[i]);
            }
        }
    }
}

/// The text of `cs` before its first `c` (all of it when there is none).
pub fn before_char(cs: &[char], c: char) -> (r: Vec<char>)
    ensures
        r@ == cs@.take(first_char(cs@, c) as int),
{
    proof {
        lemma_first_char(cs@, c);
    }
    let mut r: Vec<char> = Vec::new();
    let mut i: usize = 0;
    while i < cs.len() && cs[i] != c
        invariant
            i <= cs@.len(),
            i <= first_char(cs@, c),
            first_char(cs@, c) <= cs@.len(),
            forall|j: int| 0 <= j < first_char(cs@, c) ==> cs@[j] != c,
            first_char(cs@, c) < cs@.len() ==> cs@[first_char(cs@, c) as int] == c,
            r@ =~= cs@.take(i as int),
        decreases cs@.len() - i,
    {
        r.push(cs[i]);
        i = i + 1;
    }
    r
}

/// The text of `cs` before its first `//` (all of it when there is none).
pub fn before_slashes(cs: &[char]) -> (r: Vec<char>)
    ensures
        r@ == cs@.take(first_slashes(cs@) as int),
{
    proof {
        lemma_first_slashes(cs@);
    }
    let mut r: Vec<char> = Vec::new();
    let mut i: usize = 0;
    while i < cs.len() && !(i + 1 < cs.len() && cs[i] == '/' && cs[i + 1] == '/')
        invariant
            i <= cs@.len(),
            i <= first_slashes(cs@),
            first_slashes(cs@) <= cs@.len(),
            forall|j: int| 0 <= j < first_slashes(cs@) && j + 1 < cs@.len() ==> !(#[trigger] cs@[j] == '/' && cs@[j + 1] == '/'),
            first_slashes(cs@) < cs@.len() ==> first_slashes(cs@) + 1 < cs@.len() && cs@[first_slashes(cs@) as int] == '/'
                && cs@[(first_slashes(cs@) + 1) as int] == '/',
            r@ =~= cs@.take(i as int),
        decreases cs@.len() - i,
    {
        r.push(cs[i]);
        i = i + 1;
    }
    proof {
        if i < first_slashes(cs@) {
            assert(i + 1 < cs@.len() && cs@[i as int] == '/' && cs@[i + 1] == '/');
        }
        if i == cs@.len() && first_slashes(cs@) < cs@.len() {
            assert(false);
        }
    }
    r
}

/// `s` without every trailing `c` (`str::trim_end_matches`).
pub open spec fn trim_end_char(s: Seq<char>, c: char) -> Seq<char>
    decreases s.len(),
{
    if s.len() > 0 && s.last() == c {
        trim_end_char(s.drop_last(), c)
    } else {
        s
    }
}

/// `s` without every leading `c`.
pub open spec fn trim_start_char(s: Seq<char>, c: char) -> Seq<char>
    decreases s.len(),
{
    if s.len() > 0 && s[0] == c {
        trim_start_char(s.drop_first(), c)
    } else {
        s
    }
}

/// `s` without leading and trailing `c` (`str::trim_matches`).
pub open spec fn trim_char(s: Seq<char>, c: char) -> Seq<char> {
    trim_end_char(trim_start_char(s, c), c)
}

/// The characters of `cs` without every trailing `c`.
pub fn trim_end_chars_of(cs: &[char], c: char) -> (r: Vec<char>)
    ensures
        r@ == trim_end_char(cs@, c),
{
    let mut hi = cs.len();
    assert(cs@.subrange(0, hi as int) =~= cs@);
    while hi > 0 && cs[hi - 1] == c
        invariant
            hi <= cs@.len(),
            trim_end_char(cs@, c) == trim_end_char(cs@.subrange(0, hi as int), c),
        decreases hi,
    {
        assert(cs@.subrange(0, hi as int).drop_last() =~= cs@.subrange(0, hi - 1));
        hi = hi - 1;
    }
    let mut r: Vec<char> = Vec::new();
    let mut i: usize = 0;
    while i < hi
        invariant
            i <= hi <= cs@.len(),
            r@ =~= cs@.subrange(0, i as int),
        decreases hi - i,
    {
        r.push(cs[i]);
        i = i + 1;
    }
    r
}

/// The characters of `cs` without leading and trailing `c`.
pub fn trim_chars_of(cs: &[char], c: char) -> (r: Vec<char>)
    ensures
        r@ == trim_char(cs@, c),
{
    let mut lo: usize = 0;
    assert(cs@.skip(0) =~= cs@);
    while lo < cs.len() && cs[lo] == c
        invariant
            lo <= cs@.len(),
            trim_start_char(cs@, c) == trim_start_char(cs@.skip(lo as int), c),
        decreases cs@.len() - lo,
    {
        assert(cs@.skip(lo as int).drop_first() =~= cs@.skip(lo + 1));
        lo = lo + 1;
    }
    let mut rest: Vec<char> = Vec::new();
    let mut i = lo;
    while i < cs.len()
        invariant
            lo <= i <= cs@.len(),
            rest@ =~= cs@.subrange(lo as int, i as int),
        decreases cs@.len() - i,
    {
        rest.push(cs[i]);
        i = i + 1;
    }
    assert(rest@ =~= cs@.skip(lo as int));
    trim_end_chars_of(&rest, c)
}

/// The lines of `s` (`str::lines`): split at each `\n`, a `\r` just before
/// a `\n` dropped, no empty last line after a final `\n`.
pub open spec fn lines(s: Seq<char>) -> Seq<Seq<char>>
    decreases s.len(),
{
    if s.len() == 0 {
        Seq::empty()
    } else {
        let k = first_char(s, '\n');
        if k >= s.len() {
            seq![s]
        } else {
            proof {
                lemma_first_char(s, '\n');
            }
            let l = s.take(k as int);
            let l2 = if l.len() > 0 && l.last() == '\r' {
                l.drop_last()
            } else {
                l
            };
            seq![l2] + lines(s.skip((k + 1) as int))
        }
    }
}

/// The lines of `cs` (`str::lines`).
pub fn split_lines(cs: &[char]) -> (ls: Vec<Vec<char>>)
    ensures
        ls@.map_values(|l: Vec<char>| l@) == lines(cs@),
{
    let mut ls: Vec<Vec<char>> = Vec::new();
    let mut i: usize = 0;
    assert(cs@.skip(0) =~= cs@);
    assert(ls@.map_values(|l: Vec<char>| l@) =~= Seq::<Seq<char>>::empty());
    while i < cs.len()
        invariant
            i <= cs@.len(),
            lines(cs@) == ls@.map_values(|l: Vec<char>| l@) + lines(cs@.skip(i as int)),
        decreases cs@.len() - i,
    {
        let ghost rest = cs@.skip(i as int);
        let mut j = i;
        let mut line: Vec<char> = Vec::new();
        while j < cs.len() && cs[j] != '\n'
            invariant
                i <= j <= cs@.len(),
                line@ =~= cs@.subrange(i as int, j as int),
                forall|k: int| i <= k < j ==> cs@[k] != '\n',
            decreases cs@.len() - j,
        {
            line.push(cs[j]);
            j = j + 1;
        }
        proof {
            lemma_first_char(rest, '\n');
            let k = first_char(rest, '\n');
            if k < j - i {
                assert(rest[k as int] == cs@[i + k]);
            }
            if k > j - i {
                assert(rest[j - i] == cs@[j as int]);
            }
            assert(k == j - i);
            assert(rest.take(k as int) =~= line@);
        }
        let ghost before = ls@.map_values(|l: Vec<char>| l@);
        if j < cs.len() {
            if line.len() > 0 && line[line.len() - 1] == '\r' {
                line.pop();
            }
            proof {
                assert(rest.skip(j - i + 1) =~= cs@.skip(j + 1));
            }
            ls.push(line);
            assert(ls@.map_values(|l: Vec<char>| l@) =~= before.push(ls@.last()@));
            i = j + 1;
        } else {
            ls.push(line);
            assert(ls@.map_values(|l: Vec<char>| l@) =~= before.push(ls@.last()@));
            assert(rest.take(rest.len() as int) =~= rest);
            assert(cs@.skip(j as int) =~= Seq::<char>::empty());
            i = j;
        }
    }
    assert(cs@.skip(i as int) =~= Seq::<char>::empty());
    ls
}

pub proof fn lemma_radix_nonempty(n: nat, b: nat)
    requires
        2 <= b,
    ensures
        radix_str(n, b).len() >= 1,
        zero_pad(radix_str(n, b), 1) == radix_str(n, b),
    decreases n,
{
    if n >= b {
        vstd::arithmetic::div_mod::lemma_div_decreases(n as int, b as int);
        lemma_radix_nonempty(n / b, b);
    }
}

/// Appends the decimal text of `n`.
pub fn push_dec(s: &mut String, n: u64)
    ensures
        final(s)@ == old(s)@ + dec_str(n as nat),
{
    proof {
        lemma_radix_nonempty(n as nat, 10);
    }
    push_radix(s, n, 10, 1);
}

/// Appends the characters `cs`.
pub fn push_chars(s: &mut String, cs: &[char])
    ensures
        final(s)@ == old(s)@ + cs@,
{
    let ghost start = s@;
    let mut i: usize = 0;
    while i < cs.len()
        invariant
            i <= cs@.len(),
            s@ =~= start + cs@.subrange(0, i as int),
        decreases cs@.len() - i,
    {
        push_char(s, cs[i]);
        i = i + 1;
    }
}

/// A hexadecimal digit reads back as its value.
pub proof fn lemma_hex_digit(d: nat)
    requires
        d < 16,
    ensures
        digit_value(digit_char(d), 16) == Some(d),
{
    if d < 10 {
        assert(digit_char(d) as u32 == 48 + d);
    } else {
        assert(digit_char(d) as u32 == 65 + d - 10);
    }
}

/// The two-digit hexadecimal text of a byte is its two hex digits, and it
/// reads back as the byte.
pub proof fn lemma_hex_byte(v: nat)
    requires
        v < 256,
    ensures
        hex_pad(v, 2) == seq![digit_char(v / 16), digit_char(v % 16)],
        all_digits(hex_pad(v, 2), 16),
        digits_value(hex_pad(v, 2), 16) == v,
{
    let h = hex_pad(v, 2);
    if v < 16 {
        assert(radix_str(v, 16) == seq![digit_char(v)]);
        assert(h =~= seq![digit_char(0), digit_char(v)]);
    } else {
        assert(v / 16 < 16);
        assert(radix_str(v / 16, 16) == seq![digit_char(v / 16)]);
        assert(radix_str(v, 16) == seq![digit_char(v / 16)].push(digit_char(v % 16)));
        assert(h =~= seq![digit_char(v / 16), digit_char(v % 16)]);
    }
    lemma_hex_digit(v / 16);
    lemma_hex_digit(v % 16);
    let h1 = seq![digit_char(v / 16)];
    assert(h.drop_last() =~= h1);
    assert(h1.drop_last() =~= Seq::<char>::empty());
    assert(digits_value(Seq::<char>::empty(), 16) == 0);
    assert(digits_value(h1, 16) == v / 16);
    assert(digits_value(h, 16) == (v / 16) * 16 + v % 16);
}

} // verus!
