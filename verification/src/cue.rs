//! Cue-sheet vocabulary and timing arithmetic.
//!
//! The cue-sheet commands collect track timestamps typed as `MM:SS` or
//! `MM:SS:MIL` and convert track running times in milliseconds into
//! minute/second/millisecond triples. The parsing and the arithmetic live
//! here; assembling and writing the sheet itself does not.

use crate::date::{is_digit, spec_digit_value};
use vstd::prelude::*;

verus! {

/// The file formats a cue sheet can declare.
#[allow(non_camel_case_types)]
#[derive(Clone, Copy, Debug, PartialEq, Eq, Structural)]
pub enum cue_file_format {
    BINARY,
    MOTOROLA,
    AIFF,
    WAVE,
    MP3,
}

/// The per-track flags a cue sheet can carry.
#[allow(non_camel_case_types)]
#[derive(Clone, Copy, Debug, PartialEq, Eq, Structural)]
pub enum cue_track_flag {
    PRE,
    DCP,
    _4CH,
    SCMS,
}

/// The track modes a cue sheet can declare.
#[allow(non_camel_case_types)]
#[derive(Clone, Copy, Debug, PartialEq, Eq, Structural)]
pub enum cue_track_mode {
    AUDIO,
    CDG,
    MODE1_2048,
    MODE1_2352,
    MODE2_2336,
    MODE2_2352,
    CDI_2336,
    CDI_2352,
}

/// A track timestamp: minutes and seconds, with or without milliseconds.
#[derive(Clone, Copy, Debug, PartialEq, Eq, Structural)]
pub enum DurationFormat {
    MinSec(u32, u32),
    MinSecMil(u32, u32, u32),
}

/// A typed timestamp that does not fit the `MM:SS[:MIL]` shape.
#[derive(Clone, Copy, Debug, PartialEq, Eq, Structural)]
pub struct CueDurationFormatError;

/// Whether `c` is blank space around a typed segment.
pub open spec fn spec_is_space(c: char) -> bool {
    c == ' ' || c == '\t' || c == '\r' || c == '\n'
}

/// The segment without its leading blanks.
pub open spec fn spec_trim_front(s: Seq<char>) -> Seq<char>
    decreases s.len(),
{
    if s.len() > 0 && spec_is_space(s[0]) {
        spec_trim_front(s.skip(1))
    } else {
        s
    }
}

/// The segment without its trailing blanks.
pub open spec fn spec_trim_back(s: Seq<char>) -> Seq<char>
    decreases s.len(),
{
    if s.len() > 0 && spec_is_space(s.last()) {
        spec_trim_back(s.drop_last())
    } else {
        s
    }
}

/// The segment without blanks on either side.
pub open spec fn spec_trim(s: Seq<char>) -> Seq<char> {
    spec_trim_back(spec_trim_front(s))
}

/// The numeric value of a digit string, most significant first.
pub open spec fn spec_digits_value(s: Seq<char>) -> int
    decreases s.len(),
{
    if s.len() == 0 {
        0
    } else {
        spec_digits_value(s.drop_last()) * 10 + spec_digit_value(s.last())
    }
}

/// Whether every character of `s` is a decimal digit.
pub open spec fn spec_all_digits(s: Seq<char>) -> bool {
    forall|i: int| 0 <= i < s.len() ==> is_digit(#[trigger] s[i])
}

/// A number segment: one or more decimal digits whose value fits 32 bits.
/// Anything else does not parse.
pub open spec fn spec_parse_u32(s: Seq<char>) -> Option<u32> {
    if s.len() > 0 && spec_all_digits(s) && spec_digits_value(s) <= u32::MAX {
        Some(spec_digits_value(s) as u32)
    } else {
        None
    }
}

/// Splitting a character sequence on every colon. The result always has at
/// least one segment; empty segments are kept.
pub open spec fn spec_split_colon(s: Seq<char>) -> Seq<Seq<char>>
    decreases s.len(),
{
    if s.len() == 0 {
        seq![Seq::empty()]
    } else if s[0] == ':' {
        seq![Seq::<char>::empty()] + spec_split_colon(s.skip(1))
    } else {
        let rest = spec_split_colon(s.skip(1));
        seq![seq![s[0]] + rest[0]] + rest.skip(1)
    }
}

/// A split always yields at least one segment.
pub proof fn lemma_split_nonempty(s: Seq<char>)
    ensures
        spec_split_colon(s).len() >= 1,
    decreases s.len(),
{
    if s.len() > 0 {
        lemma_split_nonempty(s.skip(1));
    }
}

/// How a typed timestamp reads: two or three colon-separated number
/// segments, blanks around each ignored, `MM:SS` or `MM:SS:MIL`; segments
/// beyond the third are ignored. Anything else does not parse.
pub open spec fn spec_parse_timestamp(s: Seq<char>) -> Option<DurationFormat> {
    let segs = spec_split_colon(s);
    if segs.len() < 2 {
        None
    } else {
        match (spec_parse_u32(spec_trim(segs[0])), spec_parse_u32(spec_trim(segs[1]))) {
            (Some(m), Some(sec)) => if segs.len() == 2 {
                Some(DurationFormat::MinSec(m, sec))
            } else {
                match spec_parse_u32(spec_trim(segs[2])) {
                    Some(mil) => Some(DurationFormat::MinSecMil(m, sec, mil)),
                    None => None,
                }
            },
            _ => None,
        }
    }
}

/// Trimming the first `k` blank characters off the front.
proof fn lemma_trim_front_skip(s: Seq<char>, k: int)
    requires
        0 <= k <= s.len(),
        forall|i: int| 0 <= i < k ==> spec_is_space(#[trigger] s[i]),
        k < s.len() ==> !spec_is_space(s[k]),
    ensures
        spec_trim_front(s) == s.skip(k),
    decreases k,
{
    if k == 0 {
        if s.len() > 0 {
            assert(!spec_is_space(s[0]));
        }
        assert(s.skip(0) =~= s);
    } else {
        assert(spec_is_space(s[0]));
        lemma_trim_front_skip(s.skip(1), k - 1);
        assert(s.skip(1).skip(k - 1) =~= s.skip(k));
    }
}

/// Trimming the last blanks off the back, keeping the first `k` characters.
proof fn lemma_trim_back_take(s: Seq<char>, k: int)
    requires
        0 <= k <= s.len(),
        forall|i: int| k <= i < s.len() ==> spec_is_space(#[trigger] s[i]),
        k > 0 ==> !spec_is_space(s[k - 1]),
    ensures
        spec_trim_back(s) == s.take(k),
    decreases s.len() - k,
{
    if k == s.len() {
        if s.len() > 0 {
            assert(!spec_is_space(s.last()));
        }
        assert(s.take(k) =~= s);
    } else {
        assert(spec_is_space(s.last()));
        lemma_trim_back_take(s.drop_last(), k);
        assert(s.drop_last().take(k) =~= s.take(k));
    }
}

/// Trims blanks off both ends of a segment.
fn trim_chars(v: &Vec<char>) -> (r: Vec<char>)
    ensures
        r@ == spec_trim(v@),
{
    let n = v.len();
    let mut a: usize = 0;
    while a < n && (v[a] == ' ' || v[a] == '\t' || v[a] == '\r' || v[a] == '\n')
        invariant
            n == v@.len(),
            a <= n,
            forall|i: int| 0 <= i < a ==> spec_is_space(#[trigger] v@[i]),
        decreases n - a,
    {
        a += 1;
    }
    proof {
        lemma_trim_front_skip(v@, a as int);
    }
    let mut b: usize = n;
    while b > a && (v[b - 1] == ' ' || v[b - 1] == '\t' || v[b - 1] == '\r' || v[b - 1] == '\n')
        invariant
            n == v@.len(),
            a <= b <= n,
            forall|i: int| 0 <= i < a ==> spec_is_space(#[trigger] v@[i]),
            forall|i: int| b <= i < n ==> spec_is_space(#[trigger] v@[i]),
        decreases b,
    {
        b -= 1;
    }
    let ghost front = v@.skip(a as int);
    proof {
        if b > a {
            assert(!spec_is_space(v@[b - 1]));
        }
        assert(forall|i: int|
            (b - a) <= i < front.len() ==> spec_is_space(#[trigger] front[i]));
        lemma_trim_back_take(front, b - a);
    }
    let mut r: Vec<char> = Vec::new();
    let mut i: usize = a;
    while i < b
        invariant
            a <= i <= b <= n == v@.len(),
            r@ =~= v@.subrange(a as int, i as int),
        decreases b - i,
    {
        r.push(v[i]);
        i += 1;
    }
    proof {
        assert(v@.subrange(a as int, b as int) =~= front.take(b - a));
        assert(r@ =~= spec_trim(v@));
    }
    r
}

/// Reads a number segment: decimal digits only, value within 32 bits.
fn parse_u32_chars(v: &Vec<char>) -> (r: Option<u32>)
    ensures
        r == spec_parse_u32(v@),
{
    let n = v.len();
    if n == 0 {
        return None;
    }
    let mut acc: u64 = 0;
    let mut i: usize = 0;
    while i < n
        invariant
            n == v@.len(),
            i <= n,
            spec_all_digits(v@.take(i as int)),
            acc == spec_digits_value(v@.take(i as int)),
            acc <= u32::MAX,
        decreases n - i,
    {
        let d = crate::date::digit_value(v[i]);
        match d {
            None => {
                proof {
                    assert(!is_digit(v@[i as int]));
                }
                return None;
            },
            Some(d) => {
                let next: u64 = acc * 10 + (d as u64);
                proof {
                    assert(v@.take(i + 1).drop_last() =~= v@.take(i as int));
                    assert(v@.take(i + 1).last() == v@[i as int]);
                }
                if next > 0xffff_ffff {
                    proof {
                        lemma_digits_value_grows(v@, i + 1);
                    }
                    return None;
                }
                acc = next;
                i += 1;
            },
        }
    }
    proof {
        assert(v@.take(n as int) =~= v@);
    }
    Some(acc as u32)
}

/// Once the digits read so far exceed the 32-bit range, the whole segment
/// does.
proof fn lemma_digits_value_grows(s: Seq<char>, k: int)
    requires
        0 <= k <= s.len(),
    ensures
        spec_digits_value(s) >= spec_digits_value(s.take(k)),
        spec_all_digits(s) ==> spec_digits_value(s) >= 0,
    decreases s.len() - k,
{
    lemma_digits_value_nonneg_structure(s);
    if k < s.len() {
        lemma_digits_value_grows(s, k + 1);
        lemma_digits_value_nonneg_structure(s.take(k));
        lemma_digits_value_nonneg_structure(s.take(k + 1));
        assert(s.take(k + 1).drop_last() =~= s.take(k));
        assert(spec_digits_value(s.take(k + 1)) == spec_digits_value(s.take(k)) * 10
            + spec_digit_value(s.take(k + 1).last()));
    } else {
        assert(s.take(k) =~= s);
    }
}

/// A digits value is never negative.
proof fn lemma_digits_value_nonneg_structure(s: Seq<char>)
    ensures
        spec_digits_value(s) >= 0,
    decreases s.len(),
{
    if s.len() > 0 {
        lemma_digits_value_nonneg_structure(s.drop_last());
    }
}

/// Prepends an already-read character to the first segment of a split.
pub open spec fn prepend_first(pre: Seq<char>, segs: Seq<Seq<char>>) -> Seq<Seq<char>> {
    seq![pre + segs[0]] + segs.skip(1)
}

/// Composing prepends onto the first segment.
proof fn lemma_prepend_first_compose(pre: Seq<char>, c: char, segs: Seq<Seq<char>>)
    requires
        segs.len() >= 1,
    ensures
        prepend_first(pre, prepend_first(seq![c], segs)) == prepend_first(pre.push(c), segs),
{
    assert(pre + (seq![c] + segs[0]) =~= pre.push(c) + segs[0]);
    assert(prepend_first(seq![c], segs).skip(1) =~= segs.skip(1));
    assert(prepend_first(pre, prepend_first(seq![c], segs)) =~= prepend_first(
        pre.push(c),
        segs,
    ));
}

/// The views of a vector of character vectors.
pub open spec fn segs_view(v: Seq<Vec<char>>) -> Seq<Seq<char>> {
    Seq::new(v.len(), |i: int| v[i]@)
}

/// Splits the characters on every colon, keeping empty segments.
fn split_colon(v: &Vec<char>) -> (r: Vec<Vec<char>>)
    ensures
        segs_view(r@) == spec_split_colon(v@),
        r@.len() >= 1,
{
    let n = v.len();
    let mut done: Vec<Vec<char>> = Vec::new();
    let mut acc: Vec<char> = Vec::new();
    let mut j: usize = 0;
    proof {
        lemma_split_nonempty(v@.skip(0));
        assert(v@.skip(0) =~= v@);
        assert(segs_view(done@) + prepend_first(acc@, spec_split_colon(v@.skip(0)))
            =~= spec_split_colon(v@)) by {
            let segs = spec_split_colon(v@);
            assert(acc@ + segs[0] =~= segs[0]);
            assert(prepend_first(acc@, segs) =~= segs);
        }
    }
    while j < n
        invariant
            n == v@.len(),
            j <= n,
            spec_split_colon(v@.skip(j as int)).len() >= 1,
            spec_split_colon(v@) == segs_view(done@) + prepend_first(
                acc@,
                spec_split_colon(v@.skip(j as int)),
            ),
        decreases n - j,
    {
        let ghost s = v@.skip(j as int);
        proof {
            assert(s[0] == v@[j as int]);
            assert(s.skip(1) =~= v@.skip(j + 1));
            lemma_split_nonempty(v@.skip(j + 1));
        }
        let c = v[j];
        if c == ':' {
            proof {
                let segs = spec_split_colon(v@.skip(j + 1));
                assert(spec_split_colon(s) == seq![Seq::<char>::empty()] + segs);
                assert(prepend_first(acc@, seq![Seq::<char>::empty()] + segs) =~= seq![acc@]
                    + segs) by {
                    assert((seq![Seq::<char>::empty()] + segs)[0] =~= Seq::<char>::empty());
                    assert(acc@ + Seq::<char>::empty() =~= acc@);
                    assert((seq![Seq::<char>::empty()] + segs).skip(1) =~= segs);
                }
                assert(segs_view(done@.push(acc)) =~= segs_view(done@) + seq![acc@]);
            }
            done.push(acc);
            acc = Vec::new();
            j += 1;
            proof {
                let segs = spec_split_colon(v@.skip(j as int));
                assert(prepend_first(Seq::<char>::empty(), segs) =~= segs) by {
                    assert(Seq::<char>::empty() + segs[0] =~= segs[0]);
                    assert(seq![segs[0]] + segs.skip(1) =~= segs);
                }
                assert(spec_split_colon(v@) =~= segs_view(done@) + prepend_first(acc@, segs));
            }
        } else {
            proof {
                let segs = spec_split_colon(v@.skip(j + 1));
                assert(spec_split_colon(s) == prepend_first(seq![c], segs));
                lemma_prepend_first_compose(acc@, c, segs);
            }
            acc.push(c);
            j += 1;
        }
    }
    proof {
        assert(v@.skip(n as int).len() == 0);
        let segs = spec_split_colon(v@.skip(n as int));
        assert(segs =~= seq![Seq::<char>::empty()]);
        assert(prepend_first(acc@, segs) =~= seq![acc@]) by {
            assert(acc@ + segs[0] =~= acc@);
            assert(segs.skip(1) =~= Seq::<Seq<char>>::empty());
        }
        assert(segs_view(done@.push(acc)) =~= segs_view(done@) + seq![acc@]);
    }
    done.push(acc);
    proof {
        assert(segs_view(done@) =~= spec_split_colon(v@));
    }
    done
}

/// Reads a typed track timestamp: `MM:SS` or `MM:SS:MIL`, blanks around
/// each segment ignored, segments past the third ignored. Fails with
/// [`CueDurationFormatError`] exactly when the text does not fit that
/// shape.
pub fn parse_timestamp(s: &str) -> (r: Result<DurationFormat, CueDurationFormatError>)
    ensures
        match r {
            Ok(d) => spec_parse_timestamp(s@) == Some(d),
            Err(_) => spec_parse_timestamp(s@) is None,
        },
{
    let v = crate::util::chars_of(s);
    let segs = split_colon(&v);
    if segs.len() < 2 {
        return Err(CueDurationFormatError);
    }
    let t0 = trim_chars(&segs[0]);
    let t1 = trim_chars(&segs[1]);
    let minute = parse_u32_chars(&t0);
    let second = parse_u32_chars(&t1);
    proof {
        assert(segs@[0]@ == spec_split_colon(s@)[0]);
        assert(segs@[1]@ == spec_split_colon(s@)[1]);
    }
    match (minute, second) {
        (Some(m), Some(sec)) => {
            if segs.len() == 2 {
                Ok(DurationFormat::MinSec(m, sec))
            } else {
                let t2 = trim_chars(&segs[2]);
                proof {
                    assert(segs@[2]@ == spec_split_colon(s@)[2]);
                }
                match parse_u32_chars(&t2) {
                    Some(mil) => Ok(DurationFormat::MinSecMil(m, sec, mil)),
                    None => Err(CueDurationFormatError),
                }
            }
        },
        _ => Err(CueDurationFormatError),
    }
}

/// Splits a running time in milliseconds into minutes, seconds and
/// milliseconds.
pub fn min_sec_mil_of_millies(milliemes: u64) -> (r: (u32, u32, u32))
    requires
        milliemes / 1000 / 60 <= u32::MAX,
    ensures
        r.0 == milliemes / 1000 / 60,
        r.1 == milliemes / 1000 % 60,
        r.2 == milliemes % 1000,
{
    let secondes = milliemes / 1000;
    let milliemes_rest = milliemes % 1000;
    let minutes = secondes / 60;
    let secondes_rest = secondes % 60;
    (minutes as u32, secondes_rest as u32, milliemes_rest as u32)
}

/// The timestamp of a running time in milliseconds.
pub fn convert_mille_to_duration(milliemes: u64) -> (r: DurationFormat)
    requires
        milliemes / 1000 / 60 <= u32::MAX,
    ensures
        r == DurationFormat::MinSecMil(
            (milliemes / 1000 / 60) as u32,
            (milliemes / 1000 % 60) as u32,
            (milliemes % 1000) as u32,
        ),
{
    let parts = min_sec_mil_of_millies(milliemes);
    DurationFormat::MinSecMil(parts.0, parts.1, parts.2)
}

} // verus!
