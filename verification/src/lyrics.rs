use crate::text::{
    chars_eq, chars_of, extend_chars, extend_str, lower_chars, lower_seq, parse_decimal,
    parse_unsigned, push_zero_padded, starts_with_chars, string_from_chars, sub_chars, trim,
    trim_chars, trim_end, trim_end_chars, trim_start, trim_start_chars, zero_padded,
};
use crate::id3::{
    decode_latin1, frame_walk, frames_view, from_utf16_lossy, from_utf8_lossy, latin1, slice_to_vec,
    syncsafe, syncsafe_size, utf16_decode, utf16_units, utf16_units_of, utf8_lossy, walk_frames,
    Frame,
};
use vstd::prelude::*;

verus! {

// ---------------------------------------------------------------------------
// Searching and splitting character sequences
// ---------------------------------------------------------------------------

/// Index of the first `c` in `s`, or `s.len()` when there is none.
pub open spec fn first_index(s: Seq<char>, c: char) -> int
    decreases s.len(),
{
    if s.len() == 0 {
        0
    } else if s[0] == c {
        0
    } else {
        1 + first_index(s.drop_first(), c)
    }
}

pub proof fn lemma_first_index(s: Seq<char>, c: char, i: int)
    requires
        0 <= i <= s.len(),
        forall|k: int| 0 <= k < i ==> s[k] != c,
        i == s.len() || s[i] == c,
    ensures
        first_index(s, c) == i,
    decreases i,
{
    if i > 0 {
        lemma_first_index(s.drop_first(), c, i - 1);
    }
}

pub proof fn lemma_first_index_bounds(s: Seq<char>, c: char)
    ensures
        0 <= first_index(s, c) <= s.len(),
        first_index(s, c) < s.len() ==> s[first_index(s, c)] == c,
        forall|k: int| 0 <= k < first_index(s, c) ==> s[k] != c,
    decreases s.len(),
{
    if s.len() > 0 && s[0] != c {
        lemma_first_index_bounds(s.drop_first(), c);
        assert forall|k: int| 0 <= k < first_index(s, c) implies s[k] != c by {
            if k > 0 {
                assert(s[k] == s.drop_first()[k - 1]);
            }
        }
    }
}

/// Position of the first `c` at or after `from`, or `s.len()`.
pub fn find_char(s: &[char], from: usize, c: char) -> (i: usize)
    requires
        from <= s.len(),
    ensures
        from <= i <= s.len(),
        i == from + first_index(s@.skip(from as int), c),
        forall|k: int| from <= k < i ==> s@[k] != c,
        i < s.len() ==> s@[i as int] == c,
{
    let mut i = from;
    while i < s.len() && s[i] != c
        invariant
            from <= i <= s.len(),
            forall|k: int| from <= k < i ==> s@[k] != c,
        decreases s.len() - i,
    {
        i += 1;
    }
    proof {
        lemma_first_index(s@.skip(from as int), c, i - from);
    }
    i
}

pub open spec fn strip_cr(line: Seq<char>) -> Seq<char> {
    if line.len() > 0 && line.last() == '\r' {
        line.drop_last()
    } else {
        line
    }
}

/// `str::lines`: pieces between `\n` characters, a `\r` before a `\n` dropped, and no
/// empty piece after a final `\n`.
pub open spec fn split_lines(s: Seq<char>) -> Seq<Seq<char>>
    decreases s.len(),
{
    if s.len() == 0 {
        seq![]
    } else {
        let k = first_index(s, '\n');
        if k >= s.len() {
            seq![s]
        } else if k < 0 {
            seq![]
        } else {
            seq![strip_cr(s.take(k))] + split_lines(s.skip(k + 1))
        }
    }
}

pub fn split_lines_chars(s: &[char]) -> (out: Vec<Vec<char>>)
    ensures
        out@.map_values(|l: Vec<char>| l@) == split_lines(s@),
{
    let mut out: Vec<Vec<char>> = Vec::new();
    let mut pos: usize = 0;
    assert(s@.skip(0) == s@);
    assert(out@.map_values(|l: Vec<char>| l@) + split_lines(s@) =~= split_lines(s@));
    while pos < s.len()
        invariant
            pos <= s.len(),
            out@.map_values(|l: Vec<char>| l@) + split_lines(s@.skip(pos as int)) == split_lines(
                s@,
            ),
        decreases s.len() - pos,
    {
        let ghost rest = s@.skip(pos as int);
        let nl = find_char(s, pos, '\n');
        proof {
            lemma_first_index_bounds(rest, '\n');
        }
        let ghost before = out@.map_values(|l: Vec<char>| l@);
        if nl == s.len() {
            let piece = sub_chars(s, pos, s.len());
            assert(piece@ == rest);
            out.push(piece);
            assert(out@.map_values(|l: Vec<char>| l@) =~= before.push(rest));
            assert(s@.skip(s.len() as int) =~= Seq::<char>::empty());
            assert(split_lines(rest) == seq![rest]);
            assert(before + seq![rest] =~= before.push(rest));
            pos = s.len();
        } else {
            let mut end = nl;
            if end > pos && s[end - 1] == '\r' {
                end = end - 1;
            }
            let piece = sub_chars(s, pos, end);
            assert(piece@ == strip_cr(rest.take(nl - pos)));
            out.push(piece);
            assert(rest.skip(nl - pos + 1) =~= s@.skip(nl + 1));
            assert(split_lines(rest) == seq![strip_cr(rest.take(nl - pos))] + split_lines(
                rest.skip(nl - pos + 1),
            ));
            assert(out@.map_values(|l: Vec<char>| l@) =~= before.push(piece@));
            assert(before.push(piece@) + split_lines(s@.skip(nl + 1)) =~= before + (seq![piece@]
                + split_lines(s@.skip(nl + 1))));
            pos = nl + 1;
        }
    }
    assert(s@.skip(pos as int) =~= Seq::<char>::empty());
    assert(out@.map_values(|l: Vec<char>| l@) + seq![] =~= out@.map_values(|l: Vec<char>| l@));
    out
}

// ---------------------------------------------------------------------------
// Timestamps
// ---------------------------------------------------------------------------

pub open spec fn sat_add(a: int, b: int) -> int {
    if a + b > u32::MAX {
        u32::MAX as int
    } else {
        a + b
    }
}

pub open spec fn sat_mul(a: int, b: int) -> int {
    if a * b > u32::MAX {
        u32::MAX as int
    } else {
        a * b
    }
}

/// Hundredths of a second written after the `.` of a timestamp: none means 0, one digit
/// counts tens of hundredths, otherwise the first two characters are read.
pub open spec fn fraction_hundredths(f: Seq<char>) -> Option<nat> {
    if f.len() == 0 {
        Some(0)
    } else if f.len() == 1 {
        match parse_unsigned(f, u32::MAX as nat) {
            Some(v) => Some(sat_mul(v as int, 10) as nat),
            None => None,
        }
    } else {
        parse_unsigned(f.take(2), u32::MAX as nat)
    }
}

pub open spec fn count_char(s: Seq<char>, c: char) -> nat
    decreases s.len(),
{
    if s.len() == 0 {
        0
    } else {
        count_char(s.drop_last(), c) + if s.last() == c {
            1nat
        } else {
            0nat
        }
    }
}

/// The three texts of `mm:ss[.xx]`: exactly one `:` and at most one `.` after it; a
/// missing fraction reads as `0`.
pub open spec fn clock_parts(content: Seq<char>) -> Option<(Seq<char>, Seq<char>, Seq<char>)> {
    let colon = first_index(content, ':');
    if count_char(content, ':') != 1 || count_char(content.skip(colon + 1), '.') > 1 {
        None
    } else {
        let seconds_part = content.skip(colon + 1);
        let dot = first_index(seconds_part, '.');
        Some(
            (
                content.take(colon),
                seconds_part.take(dot),
                if dot < seconds_part.len() {
                    seconds_part.skip(dot + 1)
                } else {
                    "0"@
                },
            ),
        )
    }
}

/// Minutes, seconds and hundredths combined into milliseconds, with saturation.
pub open spec fn clock_millis(m: nat, s: nat, h: nat) -> u32 {
    sat_add(sat_add(sat_mul(m as int, 60000), sat_mul(s as int, 1000)), sat_mul(h as int, 10))
        as u32
}

/// The milliseconds written by `mm:ss[.xx]`, each part an unsigned decimal.
pub open spec fn clock_value(content: Seq<char>) -> Option<u32> {
    match clock_parts(content) {
        Some((mt, st, ft)) => match (
            parse_unsigned(mt, u32::MAX as nat),
            parse_unsigned(st, u32::MAX as nat),
            fraction_hundredths(ft),
        ) {
            (Some(m), Some(s), Some(h)) => Some(clock_millis(m, s, h)),
            _ => None,
        },
        None => None,
    }
}

/// A `[mm:ss.xx]` token.
pub open spec fn lrc_timestamp(token: Seq<char>) -> Option<u32> {
    if token.len() >= 2 && token[0] == '[' && token.last() == ']' {
        clock_value(token.subrange(1, token.len() - 1))
    } else {
        None
    }
}

/// A `<mm:ss.xx>` word timing token.
pub open spec fn word_timestamp(token: Seq<char>) -> Option<u32> {
    if token.len() >= 2 && token[0] == '<' && token.last() == '>' {
        clock_value(token.subrange(1, token.len() - 1))
    } else {
        None
    }
}

fn count_char_in(s: &[char], c: char) -> (n: usize)
    ensures
        n == count_char(s@, c),
{
    let mut n: usize = 0;
    let mut i: usize = 0;
    while i < s.len()
        invariant
            i <= s.len(),
            n == count_char(s@.take(i as int), c),
            n <= i,
        decreases s.len() - i,
    {
        assert(s@.take(i + 1).drop_last() == s@.take(i as int));
        if s[i] == c {
            n += 1;
        }
        i += 1;
    }
    assert(s@.take(s.len() as int) == s@);
    n
}

fn sat_add_u32(a: u32, b: u32) -> (r: u32)
    ensures
        r == sat_add(a as int, b as int),
{
    a.saturating_add(b)
}

fn sat_mul_u32(a: u32, b: u32) -> (r: u32)
    ensures
        r == sat_mul(a as int, b as int),
{
    if b == 0 {
        assert(a * b == 0) by (nonlinear_arith)
            requires
                b == 0,
        ;
        return 0;
    }
    if a > u32::MAX / b {
        assert(a * b > u32::MAX) by (nonlinear_arith)
            requires
                b > 0,
                a > u32::MAX / b,
        ;
        u32::MAX
    } else {
        assert(a * b <= u32::MAX) by (nonlinear_arith)
            requires
                b > 0,
                a <= u32::MAX / b,
        ;
        a * b
    }
}

fn fraction_value(f: &[char]) -> (r: Option<u32>)
    ensures
        match r {
            Some(v) => fraction_hundredths(f@) == Some(v as nat),
            None => fraction_hundredths(f@) is None,
        },
{
    if f.len() == 0 {
        Some(0)
    } else if f.len() == 1 {
        match parse_decimal(f, u32::MAX) {
            Some(v) => Some(sat_mul_u32(v, 10)),
            None => None,
        }
    } else {
        let head = sub_chars(f, 0, 2);
        assert(head@ == f@.take(2));
        parse_decimal(head.as_slice(), u32::MAX)
    }
}

fn split_clock(content: &[char]) -> (r: Option<(Vec<char>, Vec<char>, Vec<char>)>)
    ensures
        match r {
            Some((a, b, c)) => clock_parts(content@) == Some((a@, b@, c@)),
            None => clock_parts(content@) is None,
        },
{
    let colon = find_char(content, 0, ':');
    assert(content@.skip(0) == content@);
    if count_char_in(content, ':') != 1 {
        return None;
    }
    proof {
        lemma_first_index_bounds(content@, ':');
    }
    if colon >= content.len() {
        proof {
            lemma_count_absent(content@, ':');
        }
        return None;
    }
    let seconds_part = sub_chars(content, colon + 1, content.len());
    assert(seconds_part@ == content@.skip(colon + 1));
    if count_char_in(seconds_part.as_slice(), '.') > 1 {
        return None;
    }
    let minutes_text = sub_chars(content, 0, colon);
    assert(minutes_text@ == content@.take(colon as int));
    let dot = find_char(seconds_part.as_slice(), 0, '.');
    assert(seconds_part@.skip(0) == seconds_part@);
    let seconds_text = sub_chars(seconds_part.as_slice(), 0, dot);
    assert(seconds_text@ == seconds_part@.take(dot as int));
    let fraction_text = if dot < seconds_part.len() {
        sub_chars(seconds_part.as_slice(), dot + 1, seconds_part.len())
    } else {
        chars_of("0")
    };
    assert(dot < seconds_part.len() ==> fraction_text@ == seconds_part@.skip(dot + 1));
    Some((minutes_text, seconds_text, fraction_text))
}

/// The milliseconds of an `mm:ss.xx` clock text.
pub fn parse_clock(content: &[char]) -> (r: Option<u32>)
    ensures
        r == clock_value(content@),
{
    match split_clock(content) {
        Some((mt, st, ft)) => {
            let m = parse_decimal(mt.as_slice(), u32::MAX);
            let s = parse_decimal(st.as_slice(), u32::MAX);
            let h = fraction_value(ft.as_slice());
            match (m, s, h) {
                (Some(m), Some(s), Some(h)) => {
                    let a = sat_mul_u32(m, 60000);
                    let b = sat_mul_u32(s, 1000);
                    let c = sat_mul_u32(h, 10);
                    Some(sat_add_u32(sat_add_u32(a, b), c))
                },
                _ => None,
            }
        },
        None => None,
    }
}

pub proof fn lemma_count_absent(s: Seq<char>, c: char)
    requires
        forall|k: int| 0 <= k < s.len() ==> s[k] != c,
    ensures
        count_char(s, c) == 0,
    decreases s.len(),
{
    if s.len() > 0 {
        lemma_count_absent(s.drop_last(), c);
    }
}

/// Parses one `[mm:ss.xx]` token.
pub fn parse_single_lrc_timestamp(token: &[char]) -> (r: Option<u32>)
    ensures
        r == lrc_timestamp(token@),
{
    if !(token.len() >= 2 && token[0] == '[' && token[token.len() - 1] == ']') {
        return None;
    }
    let content = sub_chars(token, 1, token.len() - 1);
    parse_clock(content.as_slice())
}

/// Parses one `<mm:ss.xx>` word timing token.
pub fn parse_word_timestamp(token: &[char]) -> (r: Option<u32>)
    ensures
        r == word_timestamp(token@),
{
    if !(token.len() >= 2 && token[0] == '<' && token[token.len() - 1] == '>') {
        return None;
    }
    let content = sub_chars(token, 1, token.len() - 1);
    parse_clock(content.as_slice())
}


// ---------------------------------------------------------------------------
// Line timestamps and word timing tags
// ---------------------------------------------------------------------------

/// The leading `[mm:ss.xx]` tokens of a line and the rest of it with leading white space
/// removed. Reading stops at the first token that is not a timestamp.
pub open spec fn line_timestamps(s: Seq<char>) -> (Seq<u32>, Seq<char>)
    decreases s.len(),
{
    if s.len() > 0 && s[0] == '[' {
        let close = first_index(s, ']');
        if 0 <= close < s.len() {
            match lrc_timestamp(s.take(close + 1)) {
                Some(ms) => {
                    let rest = line_timestamps(s.skip(close + 1));
                    (seq![ms] + rest.0, rest.1)
                },
                None => (seq![], trim_start(s)),
            }
        } else {
            (seq![], trim_start(s))
        }
    } else {
        (seq![], trim_start(s))
    }
}

pub fn parse_line_timestamps(s: &[char]) -> (r: (Vec<u32>, Vec<char>))
    ensures
        r.0@ == line_timestamps(s@).0,
        r.1@ == line_timestamps(s@).1,
{
    let mut out: Vec<u32> = Vec::new();
    let mut pos: usize = 0;
    assert(s@.skip(0) == s@);
    loop
        invariant
            pos <= s.len(),
            out@ + line_timestamps(s@.skip(pos as int)).0 == line_timestamps(s@).0,
            line_timestamps(s@.skip(pos as int)).1 == line_timestamps(s@).1,
        ensures
            pos <= s.len(),
            out@ + line_timestamps(s@.skip(pos as int)).0 == line_timestamps(s@).0,
            line_timestamps(s@.skip(pos as int)).1 == line_timestamps(s@).1,
            line_timestamps(s@.skip(pos as int)).0 == Seq::<u32>::empty(),
        decreases s.len() - pos,
    {
        let ghost rest = s@.skip(pos as int);
        if !(pos < s.len() && s[pos] == '[') {
            assert(line_timestamps(rest).0 == Seq::<u32>::empty());
            break;
        }
        let close = find_char(s, pos, ']');
        proof {
            lemma_first_index_bounds(rest, ']');
        }
        if close >= s.len() {
            assert(line_timestamps(rest).0 == Seq::<u32>::empty());
            break;
        }
        let token = sub_chars(s, pos, close + 1);
        assert(token@ == rest.take(close - pos + 1));
        match parse_single_lrc_timestamp(token.as_slice()) {
            Some(ms) => {
                let ghost prev = out@;
                out.push(ms);
                assert(rest.skip(close - pos + 1) =~= s@.skip(close + 1));
                assert(out@ + line_timestamps(s@.skip(close + 1)).0 =~= prev + (seq![ms]
                    + line_timestamps(s@.skip(close + 1)).0));
                pos = close + 1;
            },
            None => {
                assert(line_timestamps(rest).0 == Seq::<u32>::empty());
                break;
            },
        }
    }
    let ghost rest = s@.skip(pos as int);
    let tail = sub_chars(s, pos, s.len());
    assert(tail@ == rest);
    let text = trim_start_chars(tail.as_slice());
    assert(out@ + Seq::<u32>::empty() =~= out@);
    (out, text)
}

/// A line with its `<mm:ss.xx>` word timing tags removed (other `<...>` text is kept), and
/// whether any tag was removed.
pub open spec fn strip_words(s: Seq<char>) -> (Seq<char>, bool)
    decreases s.len(),
{
    let open = first_index(s, '<');
    if open < 0 || open >= s.len() {
        (s, false)
    } else {
        let tail = s.skip(open);
        let close = first_index(tail, '>');
        if close < 0 || close >= tail.len() {
            (s, false)
        } else {
            let token = tail.take(close + 1);
            let rest = strip_words(tail.skip(close + 1));
            if word_timestamp(token) is Some {
                (s.take(open) + rest.0, true)
            } else {
                (s.take(open) + token + rest.0, rest.1)
            }
        }
    }
}

/// The text of a line once word timing tags are removed and white space is trimmed.
pub open spec fn stripped_text(s: Seq<char>) -> (Seq<char>, bool) {
    (trim(strip_words(s).0), strip_words(s).1)
}

#[verifier::rlimit(40)]
pub fn strip_word_timestamps(s: &[char]) -> (r: (Vec<char>, bool))
    ensures
        r.0@ == stripped_text(s@).0,
        r.1 == stripped_text(s@).1,
{
    let mut out: Vec<char> = Vec::new();
    let mut had = false;
    let mut pos: usize = 0;
    assert(s@.skip(0) == s@);
    loop
        invariant
            pos <= s.len(),
            out@ + strip_words(s@.skip(pos as int)).0 == strip_words(s@).0,
            (had || strip_words(s@.skip(pos as int)).1) == strip_words(s@).1,
        ensures
            pos <= s.len(),
            out@ + strip_words(s@.skip(pos as int)).0 == strip_words(s@).0,
            (had || strip_words(s@.skip(pos as int)).1) == strip_words(s@).1,
            strip_words(s@.skip(pos as int)) == (s@.skip(pos as int), false),
        decreases s.len() - pos,
    {
        let ghost rem = s@.skip(pos as int);
        let open = find_char(s, pos, '<');
        proof {
            lemma_first_index_bounds(rem, '<');
        }
        if open >= s.len() {
            assert(strip_words(rem) == (rem, false));
            break;
        }
        let ghost tail = rem.skip(open - pos);
        assert(tail =~= s@.skip(open as int));
        let close = find_char(s, open, '>');
        proof {
            lemma_first_index_bounds(tail, '>');
        }
        if close >= s.len() {
            assert(strip_words(rem) == (rem, false));
            break;
        }
        let prefix = sub_chars(s, pos, open);
        assert(prefix@ == rem.take(open - pos));
        let token = sub_chars(s, open, close + 1);
        assert(token@ == tail.take(close - open + 1));
        assert(tail.skip(close - open + 1) =~= s@.skip(close + 1));
        let ghost before = out@;
        extend_chars(&mut out, prefix.as_slice());
        if parse_word_timestamp(token.as_slice()).is_some() {
            had = true;
            assert(out@ + strip_words(s@.skip(close + 1)).0 =~= before + strip_words(rem).0);
        } else {
            extend_chars(&mut out, token.as_slice());
            assert(out@ + strip_words(s@.skip(close + 1)).0 =~= before + strip_words(rem).0);
        }
        pos = close + 1;
    }
    let tail = sub_chars(s, pos, s.len());
    assert(tail@ == s@.skip(pos as int));
    let ghost before = out@;
    extend_chars(&mut out, tail.as_slice());
    let text = trim_chars(out.as_slice());
    (text, had)
}

/// Header lines such as `[ar:artist]` or `[length:3:20]` (case-insensitive).
pub open spec fn is_metadata_line(line: Seq<char>) -> bool {
    let lower = lower_seq(line);
    ||| lower.take(4) == "[ar:"@ && lower.len() >= 4
    ||| lower.take(4) == "[ti:"@ && lower.len() >= 4
    ||| lower.take(4) == "[al:"@ && lower.len() >= 4
    ||| lower.take(4) == "[by:"@ && lower.len() >= 4
    ||| lower.take(8) == "[offset:"@ && lower.len() >= 8
    ||| lower.take(8) == "[length:"@ && lower.len() >= 8
}

fn has_prefix(s: &[char], prefix: &str) -> (r: bool)
    ensures
        r == (prefix@.len() <= s@.len() && s@.take(prefix@.len() as int) == prefix@),
{
    let p = chars_of(prefix);
    starts_with_chars(s, p.as_slice())
}

pub fn is_metadata_lrc_line(line: &[char]) -> (r: bool)
    ensures
        r == is_metadata_line(line@),
{
    let lower = lower_chars(line);
    let s = lower.as_slice();
    proof {
        reveal_strlit("[ar:");
        reveal_strlit("[ti:");
        reveal_strlit("[al:");
        reveal_strlit("[by:");
        reveal_strlit("[offset:");
        reveal_strlit("[length:");
    }
    has_prefix(s, "[ar:") || has_prefix(s, "[ti:") || has_prefix(s, "[al:") || has_prefix(
        s,
        "[by:",
    ) || has_prefix(s, "[offset:") || has_prefix(s, "[length:")
}


// ---------------------------------------------------------------------------
// Documents
// ---------------------------------------------------------------------------

#[derive(Debug, Clone, Copy, PartialEq, Eq, Structural)]
pub enum LyricsTimingPrecision {
    Untimed,
    Line,
    Word,
}

#[derive(Debug, Clone, Copy, PartialEq, Eq, Structural)]
pub enum LyricsSource {
    Sidecar,
    Embedded,
    Created,
}

#[derive(Debug)]
pub struct LyricLine {
    pub timestamp_ms: Option<u32>,
    pub text: String,
}

pub struct LineView {
    pub timestamp_ms: Option<u32>,
    pub text: Seq<char>,
}

impl View for LyricLine {
    type V = LineView;

    open spec fn view(&self) -> LineView {
        LineView { timestamp_ms: self.timestamp_ms, text: self.text@ }
    }
}

impl LyricLine {
    pub fn copy(&self) -> (r: Self)
        ensures
            r@ == self@,
    {
        LyricLine { timestamp_ms: self.timestamp_ms, text: self.text.clone() }
    }
}

#[derive(Debug)]
pub struct LyricsDocument {
    pub lines: Vec<LyricLine>,
    pub source: LyricsSource,
    pub precision: LyricsTimingPrecision,
}

pub open spec fn lines_view(lines: Seq<LyricLine>) -> Seq<LineView> {
    lines.map_values(|l: LyricLine| l@)
}

/// Lines are ordered by timestamp, untimed lines last.
pub open spec fn sort_key(l: LineView) -> u32 {
    match l.timestamp_ms {
        Some(t) => t,
        None => u32::MAX,
    }
}

/// `x` placed after every trailing element whose key is not larger than its own.
pub open spec fn insert_by_key(sorted: Seq<LineView>, x: LineView) -> Seq<LineView>
    decreases sorted.len(),
{
    if sorted.len() == 0 {
        seq![x]
    } else if sort_key(sorted.last()) <= sort_key(x) {
        sorted.push(x)
    } else {
        insert_by_key(sorted.drop_last(), x).push(sorted.last())
    }
}

/// Stable sort by `sort_key` (what `sort_by_key` produces).
pub open spec fn sort_lines(s: Seq<LineView>) -> Seq<LineView>
    decreases s.len(),
{
    if s.len() == 0 {
        s
    } else {
        insert_by_key(sort_lines(s.drop_last()), s.last())
    }
}

pub open spec fn is_sorted_by_key(s: Seq<LineView>) -> bool {
    forall|i: int, j: int| 0 <= i <= j < s.len() ==> sort_key(s[i]) <= sort_key(s[j])
}

proof fn lemma_insert_position(sorted: Seq<LineView>, x: LineView, p: int)
    requires
        0 <= p <= sorted.len(),
        p == 0 || sort_key(sorted[p - 1]) <= sort_key(x),
        forall|k: int| p <= k < sorted.len() ==> sort_key(sorted[k]) > sort_key(x),
    ensures
        insert_by_key(sorted, x) == sorted.take(p).push(x) + sorted.skip(p),
    decreases sorted.len(),
{
    if sorted.len() == 0 {
        assert(sorted.take(p).push(x) + sorted.skip(p) =~= seq![x]);
    } else if p == sorted.len() {
        assert(sorted.take(p) =~= sorted);
        assert(sorted.take(p).push(x) + sorted.skip(p) =~= sorted.push(x));
    } else {
        lemma_insert_position(sorted.drop_last(), x, p);
        assert(sorted.drop_last().take(p) =~= sorted.take(p));
        assert((sorted.take(p).push(x) + sorted.drop_last().skip(p)).push(sorted.last())
            =~= sorted.take(p).push(x) + sorted.skip(p));
    }
}

/// Ordering key of a line: its timestamp, or `u32::MAX` when it has none.
fn line_key(line: &LyricLine) -> (k: u32)
    ensures
        k == sort_key(line@),
{
    match line.timestamp_ms {
        Some(t) => t,
        None => u32::MAX,
    }
}

/// Inserts a line after every trailing line whose key is not larger.
fn insert_line(sorted: &mut Vec<LyricLine>, x: LyricLine)
    ensures
        lines_view(final(sorted)@) == insert_by_key(lines_view(old(sorted)@), x@),
{
    let ghost before = lines_view(sorted@);
    let key = match x.timestamp_ms {
        Some(t) => t,
        None => u32::MAX,
    };
    let mut p = sorted.len();
    while p > 0 && line_key(&sorted[p - 1]) > key
        invariant
            p <= sorted.len(),
            before == lines_view(sorted@),
            forall|k: int| p <= k < sorted.len() ==> sort_key(before[k]) > key,
        decreases p,
    {
        p -= 1;
    }
    proof {
        lemma_insert_position(before, x@, p as int);
    }
    let ghost xv = x@;
    sorted.insert(p, x);
    assert(lines_view(sorted@) =~= before.take(p as int).push(xv) + before.skip(p as int));
}

/// Stable sort of lines by timestamp, untimed lines last.
pub fn sort_lines_by_timestamp(lines: Vec<LyricLine>) -> (out: Vec<LyricLine>)
    ensures
        lines_view(out@) == sort_lines(lines_view(lines@)),
{
    let ghost input = lines_view(lines@);
    let mut out: Vec<LyricLine> = Vec::new();
    let mut i: usize = 0;
    while i < lines.len()
        invariant
            i <= lines.len(),
            input == lines_view(lines@),
            lines_view(out@) == sort_lines(input.take(i as int)),
        decreases lines.len() - i,
    {
        assert(input.take(i + 1).drop_last() =~= input.take(i as int));
        let x = lines[i].copy();
        insert_line(&mut out, x);
        i += 1;
    }
    assert(input.take(lines.len() as int) =~= input);
    out
}

/// What one raw LRC line contributes: `None` when it is blank or a header, otherwise its
/// timestamps, its text and whether it carried word timing tags.
pub open spec fn lrc_line(raw: Seq<char>) -> Option<(Seq<u32>, Seq<char>, bool)> {
    let line = trim_end(raw);
    if line.len() == 0 || is_metadata_line(line) {
        None
    } else {
        let (ts, rest) = line_timestamps(line);
        let (text, words) = stripped_text(rest);
        Some((ts, text, words))
    }
}

/// One untimed line for text without timestamps, one line per timestamp otherwise.
pub open spec fn entries_for(ts: Seq<u32>, text: Seq<char>) -> Seq<LineView> {
    if ts.len() == 0 {
        seq![LineView { timestamp_ms: None, text }]
    } else {
        Seq::new(ts.len(), |k: int| LineView { timestamp_ms: Some(ts[k]), text })
    }
}

/// Lines and precision gathered from the raw lines, in order: any word tag makes the
/// precision `Word`; otherwise any timestamp makes it `Line`.
pub open spec fn lrc_fold(lines: Seq<Seq<char>>) -> (Seq<LineView>, LyricsTimingPrecision)
    decreases lines.len(),
{
    if lines.len() == 0 {
        (seq![], LyricsTimingPrecision::Untimed)
    } else {
        let prev = lrc_fold(lines.drop_last());
        match lrc_line(lines.last()) {
            None => prev,
            Some((ts, text, words)) => {
                let p1 = if words {
                    LyricsTimingPrecision::Word
                } else {
                    prev.1
                };
                let p2 = if ts.len() > 0 && p1 == LyricsTimingPrecision::Untimed {
                    LyricsTimingPrecision::Line
                } else {
                    p1
                };
                (prev.0 + entries_for(ts, text), p2)
            },
        }
    }
}

/// Lines of an LRC text, sorted by timestamp, and their timing precision.
pub open spec fn parsed_lrc(input: Seq<char>) -> (Seq<LineView>, LyricsTimingPrecision) {
    let (lines, precision) = lrc_fold(split_lines(input));
    (sort_lines(lines), precision)
}

fn lrc_line_exec(raw: &[char]) -> (r: Option<(Vec<u32>, Vec<char>, bool)>)
    ensures
        match r {
            Some((ts, text, words)) => lrc_line(raw@) == Some((ts@, text@, words)),
            None => lrc_line(raw@) is None,
        },
{
    let line = trim_end_chars(raw);
    if line.len() == 0 || is_metadata_lrc_line(line.as_slice()) {
        return None;
    }
    let (ts, rest) = parse_line_timestamps(line.as_slice());
    let (text, words) = strip_word_timestamps(rest.as_slice());
    Some((ts, text, words))
}

fn push_entries(out: &mut Vec<LyricLine>, ts: &Vec<u32>, text: &Vec<char>)
    ensures
        lines_view(final(out)@) == lines_view(old(out)@) + entries_for(ts@, text@),
{
    let ghost before = lines_view(out@);
    if ts.len() == 0 {
        out.push(LyricLine { timestamp_ms: None, text: string_from_chars(text.as_slice()) });
        assert(lines_view(out@) =~= before + entries_for(ts@, text@));
        return ;
    }
    let mut k: usize = 0;
    while k < ts.len()
        invariant
            k <= ts.len(),
            ts.len() > 0,
            lines_view(out@) == before + entries_for(ts@, text@).take(k as int),
        decreases ts.len() - k,
    {
        let ghost prev = lines_view(out@);
        out.push(LyricLine { timestamp_ms: Some(ts[k]), text: string_from_chars(text.as_slice()) });
        assert(entries_for(ts@, text@).take(k + 1) =~= entries_for(ts@, text@).take(k as int).push(
            LineView { timestamp_ms: Some(ts@[k as int]), text: text@ },
        ));
        assert(lines_view(out@) =~= prev.push(
            LineView { timestamp_ms: Some(ts@[k as int]), text: text@ },
        ));
        k += 1;
    }
    assert(entries_for(ts@, text@).take(ts.len() as int) =~= entries_for(ts@, text@));
}

pub open spec fn lines_of_vecs(v: Seq<Vec<char>>) -> Seq<Seq<char>> {
    v.map_values(|l: Vec<char>| l@)
}

/// Parses LRC text: header lines and blank lines are skipped, each timestamp of a line
/// gives one entry with the line's text, untimed text gives an untimed entry, word timing
/// tags are removed, and the entries are sorted by timestamp.
pub fn parse_lrc(input: &str) -> (doc: LyricsDocument)
    ensures
        lines_view(doc.lines@) == parsed_lrc(input@).0,
        doc.precision == parsed_lrc(input@).1,
        doc.source == LyricsSource::Sidecar,
{
    let cs = chars_of(input);
    let raw_lines = split_lines_chars(cs.as_slice());
    let ghost ls = lines_of_vecs(raw_lines@);
    let mut lines: Vec<LyricLine> = Vec::new();
    let mut precision = LyricsTimingPrecision::Untimed;
    let mut i: usize = 0;
    while i < raw_lines.len()
        invariant
            i <= raw_lines.len(),
            ls == lines_of_vecs(raw_lines@),
            (lines_view(lines@), precision) == lrc_fold(ls.take(i as int)),
        decreases raw_lines.len() - i,
    {
        assert(ls.take(i + 1).drop_last() =~= ls.take(i as int));
        assert(ls.take(i + 1).last() == raw_lines@[i as int]@);
        match lrc_line_exec(raw_lines[i].as_slice()) {
            None => {},
            Some((ts, text, words)) => {
                if words {
                    precision = LyricsTimingPrecision::Word;
                }
                if ts.len() > 0 && precision == LyricsTimingPrecision::Untimed {
                    precision = LyricsTimingPrecision::Line;
                }
                push_entries(&mut lines, &ts, &text);
            },
        }
        i += 1;
    }
    assert(ls.take(raw_lines.len() as int) =~= ls);
    let sorted = sort_lines_by_timestamp(lines);
    LyricsDocument { lines: sorted, source: LyricsSource::Sidecar, precision }
}

/// Non-blank lines with trailing white space removed, untimed.
pub open spec fn plain_fold(lines: Seq<Seq<char>>) -> Seq<LineView>
    decreases lines.len(),
{
    if lines.len() == 0 {
        seq![]
    } else {
        let prev = plain_fold(lines.drop_last());
        let t = trim_end(lines.last());
        if t.len() == 0 {
            prev
        } else {
            prev.push(LineView { timestamp_ms: None, text: t })
        }
    }
}

/// Non-blank lines with trailing white space removed.
pub open spec fn nonblank_lines(lines: Seq<Seq<char>>) -> Seq<Seq<char>>
    decreases lines.len(),
{
    if lines.len() == 0 {
        seq![]
    } else {
        let prev = nonblank_lines(lines.drop_last());
        let t = trim_end(lines.last());
        if t.len() == 0 {
            prev
        } else {
            prev.push(t)
        }
    }
}

/// Untimed lyrics from plain text: one line per non-blank input line.
pub fn parse_plain_text(input: &str) -> (doc: LyricsDocument)
    ensures
        lines_view(doc.lines@) == plain_fold(split_lines(input@)),
        doc.source == LyricsSource::Embedded,
        doc.precision == LyricsTimingPrecision::Untimed,
{
    let cs = chars_of(input);
    let raw_lines = split_lines_chars(cs.as_slice());
    let ghost ls = lines_of_vecs(raw_lines@);
    let mut lines: Vec<LyricLine> = Vec::new();
    let mut i: usize = 0;
    while i < raw_lines.len()
        invariant
            i <= raw_lines.len(),
            ls == lines_of_vecs(raw_lines@),
            lines_view(lines@) == plain_fold(ls.take(i as int)),
        decreases raw_lines.len() - i,
    {
        assert(ls.take(i + 1).drop_last() =~= ls.take(i as int));
        assert(ls.take(i + 1).last() == raw_lines@[i as int]@);
        let t = trim_end_chars(raw_lines[i].as_slice());
        if t.len() > 0 {
            let ghost prev = lines_view(lines@);
            lines.push(LyricLine { timestamp_ms: None, text: string_from_chars(t.as_slice()) });
            assert(lines_view(lines@) =~= prev.push(LineView { timestamp_ms: None, text: t@ }));
        }
        i += 1;
    }
    assert(ls.take(raw_lines.len() as int) =~= ls);
    LyricsDocument { lines, source: LyricsSource::Embedded, precision: LyricsTimingPrecision::Untimed }
}

/// The non-blank lines of a text file, trailing white space removed, for seeding lyrics.
pub fn nonblank_text_lines(input: &str) -> (out: Vec<String>)
    ensures
        out@.map_values(|s: String| s@) == nonblank_lines(split_lines(input@)),
{
    let cs = chars_of(input);
    let raw_lines = split_lines_chars(cs.as_slice());
    let ghost ls = lines_of_vecs(raw_lines@);
    let mut out: Vec<String> = Vec::new();
    let mut i: usize = 0;
    while i < raw_lines.len()
        invariant
            i <= raw_lines.len(),
            ls == lines_of_vecs(raw_lines@),
            out@.map_values(|s: String| s@) == nonblank_lines(ls.take(i as int)),
        decreases raw_lines.len() - i,
    {
        assert(ls.take(i + 1).drop_last() =~= ls.take(i as int));
        assert(ls.take(i + 1).last() == raw_lines@[i as int]@);
        let t = trim_end_chars(raw_lines[i].as_slice());
        if t.len() > 0 {
            let ghost prev = out@.map_values(|s: String| s@);
            out.push(string_from_chars(t.as_slice()));
            assert(out@.map_values(|s: String| s@) =~= prev.push(t@));
        }
        i += 1;
    }
    assert(ls.take(raw_lines.len() as int) =~= ls);
    out
}


// ---------------------------------------------------------------------------
// Writing LRC text
// ---------------------------------------------------------------------------

/// `[mm:ss.xx]` for a time in milliseconds (minutes are not wrapped into hours).
pub open spec fn lrc_stamp(t: u32) -> Seq<char> {
    "["@ + zero_padded((t / 60000) as nat, 2) + ":"@ + zero_padded(((t % 60000) / 1000) as nat, 2)
        + "."@ + zero_padded(((t % 1000) / 10) as nat, 2) + "]"@
}

/// One LRC line: the timestamp if any, the text, and a line feed.
pub open spec fn lrc_line_text(l: LineView) -> Seq<char> {
    let stamp = match l.timestamp_ms {
        Some(t) => lrc_stamp(t),
        None => seq![],
    };
    stamp + l.text + "\n"@
}

pub open spec fn lrc_text(lines: Seq<LineView>) -> Seq<char>
    decreases lines.len(),
{
    if lines.len() == 0 {
        seq![]
    } else {
        lrc_text(lines.drop_last()) + lrc_line_text(lines.last())
    }
}

pub fn format_lrc_timestamp(timestamp_ms: u32) -> (out: Vec<char>)
    ensures
        out@ == lrc_stamp(timestamp_ms),
{
    let mut out = chars_of("[");
    push_zero_padded(&mut out, (timestamp_ms / 60000) as u64, 2);
    extend_str(&mut out, ":");
    push_zero_padded(&mut out, ((timestamp_ms % 60000) / 1000) as u64, 2);
    extend_str(&mut out, ".");
    push_zero_padded(&mut out, ((timestamp_ms % 1000) / 10) as u64, 2);
    extend_str(&mut out, "]");
    out
}

/// LRC text for a document: one line per entry, each ending with a line feed.
pub fn to_lrc(doc: &LyricsDocument) -> (out: String)
    ensures
        out@ == lrc_text(lines_view(doc.lines@)),
{
    let ghost ls = lines_view(doc.lines@);
    let mut out: Vec<char> = Vec::new();
    let mut i: usize = 0;
    while i < doc.lines.len()
        invariant
            i <= doc.lines.len(),
            ls == lines_view(doc.lines@),
            out@ == lrc_text(ls.take(i as int)),
        decreases doc.lines.len() - i,
    {
        assert(ls.take(i + 1).drop_last() =~= ls.take(i as int));
        let ghost before = out@;
        let line = &doc.lines[i];
        match line.timestamp_ms {
            Some(t) => {
                let stamp = format_lrc_timestamp(t);
                extend_chars(&mut out, stamp.as_slice());
            },
            None => {},
        }
        extend_str(&mut out, line.text.as_str());
        extend_str(&mut out, "\n");
        assert(out@ =~= before + lrc_line_text(ls[i as int]));
        i += 1;
    }
    assert(ls.take(doc.lines.len() as int) =~= ls);
    string_from_chars(out.as_slice())
}

/// Seeded timestamps: line `k` at `k * max(interval, 1)` seconds (index taken modulo 2^32,
/// arithmetic saturating).
pub open spec fn seeded_timestamp(k: int, interval_seconds: u32) -> u32 {
    let step = sat_mul(if interval_seconds == 0 {
        1
    } else {
        interval_seconds as int
    }, 1000);
    sat_mul((k as u32) as int, step) as u32
}

pub fn build_seeded_from_lines(lines: Vec<String>, interval_seconds: u32) -> (doc: LyricsDocument)
    ensures
        doc.lines@.len() == lines@.len(),
        forall|k: int|
            0 <= k < lines@.len() ==> (#[trigger] doc.lines@[k])@ == (LineView {
                timestamp_ms: Some(seeded_timestamp(k, interval_seconds)),
                text: lines@[k]@,
            }),
        doc.source == LyricsSource::Created,
        doc.precision == LyricsTimingPrecision::Line,
{
    let base = if interval_seconds == 0 {
        1
    } else {
        interval_seconds
    };
    let step = sat_mul_u32(base, 1000);
    let mut out: Vec<LyricLine> = Vec::new();
    let mut k: usize = 0;
    while k < lines.len()
        invariant
            k <= lines.len(),
            step == sat_mul(if interval_seconds == 0 { 1 } else { interval_seconds as int }, 1000),
            out@.len() == k,
            forall|j: int|
                0 <= j < k ==> (#[trigger] out@[j])@ == (LineView {
                    timestamp_ms: Some(seeded_timestamp(j, interval_seconds)),
                    text: lines@[j]@,
                }),
        decreases lines.len() - k,
    {
        let idx: u32 = k as u32;
        let ts = sat_mul_u32(idx, step);
        out.push(LyricLine { timestamp_ms: Some(ts), text: lines[k].clone() });
        k += 1;
    }
    LyricsDocument { lines: out, source: LyricsSource::Created, precision: LyricsTimingPrecision::Line }
}

/// Whether some line, after leading white space, opens with a real `[mm:ss.xx]` timestamp.
pub open spec fn looks_like_lrc_spec(input: Seq<char>) -> bool {
    exists|k: int|
        0 <= k < split_lines(input).len() && {
            let t = trim_start(#[trigger] split_lines(input)[k]);
            t.len() > 0 && t[0] == '[' && line_timestamps(t).0.len() > 0
        }
}

pub fn looks_like_lrc(input: &str) -> (r: bool)
    ensures
        r == looks_like_lrc_spec(input@),
{
    let cs = chars_of(input);
    let raw_lines = split_lines_chars(cs.as_slice());
    let ghost ls = split_lines(input@);
    assert(lines_of_vecs(raw_lines@) == ls);
    let mut i: usize = 0;
    while i < raw_lines.len()
        invariant
            i <= raw_lines.len(),
            lines_of_vecs(raw_lines@) == ls,
            ls == split_lines(input@),
            forall|k: int|
                0 <= k < i ==> {
                    let t = trim_start(#[trigger] ls[k]);
                    !(t.len() > 0 && t[0] == '[' && line_timestamps(t).0.len() > 0)
                },
        decreases raw_lines.len() - i,
    {
        assert(ls[i as int] == raw_lines@[i as int]@);
        let t = trim_start_chars(raw_lines[i].as_slice());
        if t.len() > 0 && t[0] == '[' {
            let (ts, _rest) = parse_line_timestamps(t.as_slice());
            if ts.len() > 0 {
                assert(ls == split_lines(input@));
                assert(trim_start(ls[i as int]) == t@);
                return true;
            }
        }
        i += 1;
    }
    false
}


// ---------------------------------------------------------------------------
// Lyrics embedded in ID3v2 USLT frames
// ---------------------------------------------------------------------------

/// One unsynchronised-lyrics frame: its language code and its trimmed text.
pub struct UsltFrame {
    pub language: Vec<u8>,
    pub text: String,
}

/// Lyric text by the frame's encoding byte: 0 Latin-1, 1 UTF-16 with a byte-order mark
/// (little-endian without one), 2 UTF-16 big-endian, 3 UTF-8 (lossy).
pub open spec fn uslt_text(encoding: u8, bytes: Seq<u8>) -> Option<Seq<char>> {
    if encoding == 0 {
        Some(latin1(bytes))
    } else if encoding == 1 {
        if bytes.len() >= 2 && bytes[0] == 0xFF && bytes[1] == 0xFE {
            Some(utf16_decode(utf16_units(bytes.skip(2), true)))
        } else if bytes.len() >= 2 && bytes[0] == 0xFE && bytes[1] == 0xFF {
            Some(utf16_decode(utf16_units(bytes.skip(2), false)))
        } else {
            Some(utf16_decode(utf16_units(bytes, true)))
        }
    } else if encoding == 2 {
        Some(utf16_decode(utf16_units(bytes, false)))
    } else if encoding == 3 {
        Some(utf8_lossy(bytes))
    } else {
        None
    }
}

pub fn decode_id3_text(encoding: u8, bytes: &[u8]) -> (r: Option<String>)
    ensures
        match r {
            Some(t) => uslt_text(encoding, bytes@) == Some(t@),
            None => uslt_text(encoding, bytes@) is None,
        },
{
    if encoding == 0 {
        let cs = decode_latin1(bytes);
        Some(string_from_chars(cs.as_slice()))
    } else if encoding == 1 {
        let units = if bytes.len() >= 2 && bytes[0] == 0xFF && bytes[1] == 0xFE {
            utf16_units_of(&bytes[2..bytes.len()], true)
        } else if bytes.len() >= 2 && bytes[0] == 0xFE && bytes[1] == 0xFF {
            utf16_units_of(&bytes[2..bytes.len()], false)
        } else {
            utf16_units_of(bytes, true)
        };
        proof {
            if bytes.len() >= 2 {
                assert(bytes@.subrange(2, bytes@.len() as int) == bytes@.skip(2));
            }
        }
        Some(from_utf16_lossy(units.as_slice()))
    } else if encoding == 2 {
        let units = utf16_units_of(bytes, false);
        Some(from_utf16_lossy(units.as_slice()))
    } else if encoding == 3 {
        Some(from_utf8_lossy(bytes))
    } else {
        None
    }
}

/// Index of the first zero byte, or the length when there is none.
pub open spec fn first_zero(s: Seq<u8>) -> int
    decreases s.len(),
{
    if s.len() == 0 {
        0
    } else if s[0] == 0 {
        0
    } else {
        1 + first_zero(s.drop_first())
    }
}

/// Index of the first two-byte chunk (from the start, in steps of two) that is `00 00`,
/// counted in chunks, or `s.len() / 2` when there is none.
pub open spec fn first_zero_chunk(s: Seq<u8>) -> int
    decreases s.len(),
{
    if s.len() < 2 {
        0
    } else if s[0] == 0 && s[1] == 0 {
        0
    } else {
        1 + first_zero_chunk(s.skip(2))
    }
}

proof fn lemma_first_zero(s: Seq<u8>, i: int)
    requires
        0 <= i <= s.len(),
        forall|k: int| 0 <= k < i ==> s[k] != 0,
        i == s.len() || s[i] == 0,
    ensures
        first_zero(s) == i,
    decreases i,
{
    if i > 0 {
        lemma_first_zero(s.drop_first(), i - 1);
    }
}

/// The two-byte unit `k` is `00 00`.
pub open spec fn zero_unit_at(s: Seq<u8>, k: int) -> bool {
    s[2 * k] == 0 && s[2 * k + 1] == 0
}

proof fn lemma_first_zero_chunk(s: Seq<u8>, c: int)
    requires
        0 <= c <= s.len() / 2,
        forall|k: int| 0 <= k < c ==> !#[trigger] zero_unit_at(s, k),
        c == s.len() / 2 || (s[2 * c] == 0 && s[2 * c + 1] == 0),
    ensures
        first_zero_chunk(s) == c,
    decreases c,
{
    if c > 0 {
        assert(!zero_unit_at(s, 0));
        assert forall|k: int| 0 <= k < c - 1 implies !#[trigger] zero_unit_at(s.skip(2), k) by {
            assert(!zero_unit_at(s, k + 1));
            assert(s.skip(2)[2 * k] == s[2 * (k + 1)]);
            assert(s.skip(2)[2 * k + 1] == s[2 * (k + 1) + 1]);
        }
        if c - 1 < s.skip(2).len() / 2 {
            assert(s.skip(2)[2 * (c - 1)] == s[2 * c]);
            assert(s.skip(2)[2 * (c - 1) + 1] == s[2 * c + 1]);
        }
        lemma_first_zero_chunk(s.skip(2), c - 1);
    }
}

/// Where the lyric text starts after the description: past its terminator (one zero byte,
/// or an aligned `00 00` pair for UTF-16), or at the start when there is none.
pub open spec fn uslt_text_start(encoding: u8, rest: Seq<u8>) -> Option<int> {
    if encoding == 0 || encoding == 3 {
        let i = first_zero(rest);
        Some(
            if i < rest.len() {
                i + 1
            } else {
                0
            },
        )
    } else if encoding == 1 || encoding == 2 {
        let c = first_zero_chunk(rest);
        Some(
            if c < rest.len() / 2 {
                c * 2 + 2
            } else {
                0
            },
        )
    } else {
        None
    }
}

/// A USLT payload `encoding | language[3] | description | text`: its language and its
/// trimmed text, when the encoding is known and the text is not blank.
pub open spec fn uslt_payload(p: Seq<u8>) -> Option<(Seq<u8>, Seq<char>)> {
    if p.len() < 4 {
        None
    } else {
        let rest = p.skip(4);
        match uslt_text_start(p[0], rest) {
            None => None,
            Some(start) => match uslt_text(p[0], rest.skip(start)) {
                None => None,
                Some(t) => if trim(t).len() == 0 {
                    None
                } else {
                    Some((p.subrange(1, 4), trim(t)))
                },
            },
        }
    }
}

fn uslt_text_start_exec(encoding: u8, rest: &[u8]) -> (r: Option<usize>)
    ensures
        match r {
            Some(i) => uslt_text_start(encoding, rest@) == Some(i as int) && i <= rest.len(),
            None => uslt_text_start(encoding, rest@) is None,
        },
{
    if encoding == 0 || encoding == 3 {
        let mut i: usize = 0;
        while i < rest.len() && rest[i] != 0
            invariant
                i <= rest.len(),
                forall|k: int| 0 <= k < i ==> rest@[k] != 0,
            decreases rest.len() - i,
        {
            i += 1;
        }
        proof {
            lemma_first_zero(rest@, i as int);
        }
        Some(
            if i < rest.len() {
                i + 1
            } else {
                0
            },
        )
    } else if encoding == 1 || encoding == 2 {
        let n = rest.len() / 2;
        let mut c: usize = 0;
        while c < n && !(rest[2 * c] == 0 && rest[2 * c + 1] == 0)
            invariant
                n == rest.len() / 2,
                c <= n,
                forall|k: int| 0 <= k < c ==> !#[trigger] zero_unit_at(rest@, k),
            decreases n - c,
        {
            c += 1;
        }
        proof {
            lemma_first_zero_chunk(rest@, c as int);
        }
        Some(
            if c < n {
                c * 2 + 2
            } else {
                0
            },
        )
    } else {
        None
    }
}

pub open spec fn uslt_frame_view(f: UsltFrame) -> (Seq<u8>, Seq<char>) {
    (f.language@, f.text@)
}

pub fn decode_uslt_payload(payload: &[u8]) -> (r: Option<UsltFrame>)
    ensures
        match r {
            Some(f) => uslt_payload(payload@) == Some(uslt_frame_view(f)),
            None => uslt_payload(payload@) is None,
        },
{
    if payload.len() < 4 {
        return None;
    }
    let encoding = payload[0];
    let rest = &payload[4..payload.len()];
    assert(rest@ == payload@.skip(4));
    let start = match uslt_text_start_exec(encoding, rest) {
        Some(s) => s,
        None => return None,
    };
    let tail = &rest[start..rest.len()];
    assert(tail@ == rest@.skip(start as int));
    let text = match decode_id3_text(encoding, tail) {
        Some(t) => t,
        None => return None,
    };
    let tc = chars_of(text.as_str());
    let trimmed = trim_chars(tc.as_slice());
    if trimmed.len() == 0 {
        return None;
    }
    let language = slice_to_vec(payload, 1, 4);
    Some(UsltFrame { language, text: string_from_chars(trimmed.as_slice()) })
}

pub open spec fn id3_magic(bytes: Seq<u8>) -> bool {
    bytes.len() >= 10 && bytes[0] == 0x49 && bytes[1] == 0x44 && bytes[2] == 0x33
}

/// The frame id holding unsynchronised lyrics: `ULT` in version 2.2, `USLT` after.
pub open spec fn uslt_id(major: u8) -> Seq<u8> {
    if major == 2 {
        seq![0x55u8, 0x4C, 0x54]
    } else {
        seq![0x55u8, 0x53, 0x4C, 0x54]
    }
}

/// The tag body of an ID3v2.2–2.4 tag, cut at the end of the data when it claims more.
pub open spec fn uslt_tag_body(bytes: Seq<u8>) -> Option<Seq<u8>> {
    if !id3_magic(bytes) || !(bytes[3] == 2 || bytes[3] == 3 || bytes[3] == 4) {
        None
    } else {
        let end = 10 + syncsafe(bytes[6], bytes[7], bytes[8], bytes[9]);
        Some(
            bytes.subrange(
                10,
                if end < bytes.len() {
                    end as int
                } else {
                    bytes.len() as int
                },
            ),
        )
    }
}

pub open spec fn uslt_collect(frames: Seq<(Seq<u8>, Seq<u8>)>, wanted: Seq<u8>) -> Seq<
    (Seq<u8>, Seq<char>),
>
    decreases frames.len(),
{
    if frames.len() == 0 {
        seq![]
    } else {
        let prev = uslt_collect(frames.drop_last(), wanted);
        let (id, payload) = frames.last();
        if id == wanted && uslt_payload(payload) is Some {
            prev.push(uslt_payload(payload)->0)
        } else {
            prev
        }
    }
}

/// The decodable lyrics frames of a file that starts with an ID3v2 tag, in tag order.
pub open spec fn uslt_frames(bytes: Seq<u8>) -> Seq<(Seq<u8>, Seq<char>)> {
    match uslt_tag_body(bytes) {
        None => seq![],
        Some(tag) => uslt_collect(frame_walk(tag, bytes[3]), uslt_id(bytes[3])),
    }
}

fn bytes_eq(a: &[u8], b: &[u8]) -> (r: bool)
    ensures
        r == (a@ == b@),
{
    if a.len() != b.len() {
        return false;
    }
    let mut i: usize = 0;
    while i < a.len()
        invariant
            a.len() == b.len(),
            i <= a.len(),
            forall|k: int| 0 <= k < i ==> a@[k] == b@[k],
        decreases a.len() - i,
    {
        if a[i] != b[i] {
            return false;
        }
        i += 1;
    }
    assert(a@ =~= b@);
    true
}

/// The decodable USLT frames among `frames` whose id is `wanted`, in order.
fn collect_uslt(frames: &Vec<Frame>, wanted: &[u8]) -> (out: Vec<UsltFrame>)
    ensures
        out@.map_values(|f: UsltFrame| uslt_frame_view(f)) == uslt_collect(
            frames_view(frames@),
            wanted@,
        ),
{
    let ghost fv = frames_view(frames@);
    let mut out: Vec<UsltFrame> = Vec::new();
    let mut i: usize = 0;
    while i < frames.len()
        invariant
            i <= frames.len(),
            fv == frames_view(frames@),
            out@.map_values(|f: UsltFrame| uslt_frame_view(f)) == uslt_collect(
                fv.take(i as int),
                wanted@,
            ),
        decreases frames.len() - i,
    {
        assert(fv.take(i + 1).drop_last() =~= fv.take(i as int));
        let frame = &frames[i];
        if bytes_eq(frame.id.as_slice(), wanted) {
            match decode_uslt_payload(frame.payload.as_slice()) {
                Some(f) => {
                    let ghost prev = out@.map_values(|f: UsltFrame| uslt_frame_view(f));
                    out.push(f);
                    assert(out@.map_values(|f: UsltFrame| uslt_frame_view(f)) =~= prev.push(
                        uslt_frame_view(f),
                    ));
                },
                None => {},
            }
        }
        i += 1;
    }
    assert(fv.take(frames.len() as int) =~= fv);
    out
}

pub fn parse_id3v2_uslt_frames(bytes: &[u8]) -> (out: Vec<UsltFrame>)
    ensures
        out@.map_values(|f: UsltFrame| uslt_frame_view(f)) == uslt_frames(bytes@),
{
    if bytes.len() < 10 || bytes[0] != 0x49 || bytes[1] != 0x44 || bytes[2] != 0x33 {
        let out: Vec<UsltFrame> = Vec::new();
        assert(out@.map_values(|f: UsltFrame| uslt_frame_view(f)) =~= seq![]);
        return out;
    }
    let major = bytes[3];
    if !(major == 2 || major == 3 || major == 4) {
        let out: Vec<UsltFrame> = Vec::new();
        assert(out@.map_values(|f: UsltFrame| uslt_frame_view(f)) =~= seq![]);
        return out;
    }
    let wanted: Vec<u8> = if major == 2 {
        vec![0x55u8, 0x4C, 0x54]
    } else {
        vec![0x55u8, 0x53, 0x4C, 0x54]
    };
    assert(wanted@ == uslt_id(major));
    let tag_size = syncsafe_size(&bytes[6..10]);
    let end: usize = if (tag_size as u64) < (bytes.len() - 10) as u64 {
        10 + tag_size as usize
    } else {
        bytes.len()
    };
    let tag = &bytes[10..end];
    assert(uslt_tag_body(bytes@) == Some(tag@));
    let frames = walk_frames(tag, major);
    collect_uslt(&frames, wanted.as_slice())
}

pub open spec fn lower_byte(b: u8) -> u8 {
    if 65 <= b <= 90 {
        (b + 32) as u8
    } else {
        b
    }
}

/// A language code equal to `eng` ignoring ASCII case.
pub open spec fn is_english(lang: Seq<u8>) -> bool {
    lang.len() == 3 && lower_byte(lang[0]) == 0x65 && lower_byte(lang[1]) == 0x6E && lower_byte(
        lang[2],
    ) == 0x67
}

/// The lyrics chosen from a tag: the first English frame, else the first frame.
pub open spec fn chosen_uslt(frames: Seq<(Seq<u8>, Seq<char>)>) -> Option<Seq<char>> {
    if exists|i: int| 0 <= i < frames.len() && is_english(#[trigger] frames[i].0) {
        let i = choose|i: int|
            0 <= i < frames.len() && is_english(#[trigger] frames[i].0) && forall|j: int|
                0 <= j < i ==> !is_english(#[trigger] frames[j].0);
        Some(frames[i].1)
    } else if frames.len() > 0 {
        Some(frames[0].1)
    } else {
        None
    }
}

fn lower_byte_exec(b: u8) -> (r: u8)
    ensures
        r == lower_byte(b),
{
    if 65 <= b && b <= 90 {
        b + 32
    } else {
        b
    }
}

/// Lyrics from the ID3v2 USLT frames at the start of a file: English preferred, otherwise
/// the first frame that decodes to non-blank text.
pub fn select_uslt_lyrics(bytes: &[u8]) -> (r: Option<String>)
    ensures
        match r {
            Some(t) => chosen_uslt(uslt_frames(bytes@)) == Some(t@),
            None => chosen_uslt(uslt_frames(bytes@)) is None,
        },
{
    let frames = parse_id3v2_uslt_frames(bytes);
    let ghost fv = frames@.map_values(|f: UsltFrame| uslt_frame_view(f));
    let mut i: usize = 0;
    while i < frames.len()
        invariant
            i <= frames.len(),
            fv == frames@.map_values(|f: UsltFrame| uslt_frame_view(f)),
            fv == uslt_frames(bytes@),
            forall|j: int| 0 <= j < i ==> !is_english(#[trigger] fv[j].0),
        decreases frames.len() - i,
    {
        let lang = &frames[i].language;
        if lang.len() == 3 && lower_byte_exec(lang[0]) == 0x65 && lower_byte_exec(lang[1]) == 0x6E
            && lower_byte_exec(lang[2]) == 0x67 {
            assert(is_english(fv[i as int].0));
            assert(0 <= i < fv.len() && is_english(fv[i as int].0) && forall|j: int|
                0 <= j < i ==> !is_english(#[trigger] fv[j].0));
            proof {
                let k = choose|k: int|
                    0 <= k < fv.len() && is_english(#[trigger] fv[k].0) && forall|j: int|
                        0 <= j < k ==> !is_english(#[trigger] fv[j].0);
                assert(0 <= k < fv.len() && is_english(fv[k].0) && forall|j: int|
                    0 <= j < k ==> !is_english(#[trigger] fv[j].0));
                if k < i {
                    assert(!is_english(fv[k].0));
                }
                if k > i {
                    assert(!is_english(fv[i as int].0));
                }
            }
            return Some(frames[i].text.clone());
        }
        i += 1;
    }
    if frames.len() > 0 {
        Some(frames[0].text.clone())
    } else {
        None
    }
}


// ---------------------------------------------------------------------------
// Choosing where a track's lyrics come from
// ---------------------------------------------------------------------------

pub open spec fn doc_view(doc: LyricsDocument) -> (Seq<LineView>, LyricsSource, LyricsTimingPrecision) {
    (lines_view(doc.lines@), doc.source, doc.precision)
}

/// The lyrics of a track from the texts found for it: the sidecar in the lyrics directory
/// first, then a sidecar beside the track, both read as LRC; else the embedded text, read
/// as LRC when it looks like LRC and as plain lines otherwise.
pub open spec fn lyrics_from(sidecar: Option<Seq<char>>, legacy: Option<Seq<char>>, embedded: Option<Seq<char>>) -> Option<(Seq<LineView>, LyricsSource, LyricsTimingPrecision)> {
    match sidecar {
        Some(t) => Some((parsed_lrc(t).0, LyricsSource::Sidecar, parsed_lrc(t).1)),
        None => match legacy {
            Some(t) => Some((parsed_lrc(t).0, LyricsSource::Sidecar, parsed_lrc(t).1)),
            None => match embedded {
                Some(t) => if looks_like_lrc_spec(t) {
                    Some((parsed_lrc(t).0, LyricsSource::Embedded, parsed_lrc(t).1))
                } else {
                    Some((plain_fold(split_lines(t)), LyricsSource::Embedded, LyricsTimingPrecision::Untimed))
                },
                None => None,
            },
        },
    }
}

pub open spec fn opt_chars(o: Option<&str>) -> Option<Seq<char>> {
    match o {
        Some(s) => Some(s@),
        None => None,
    }
}

/// A sidecar file wins over embedded lyrics, whatever they hold.
pub fn load_lyrics_from_sources(sidecar: Option<&str>, legacy_sidecar: Option<&str>, embedded: Option<&str>) -> (r: Option<LyricsDocument>)
    ensures
        match r {
            Some(doc) => lyrics_from(opt_chars(sidecar), opt_chars(legacy_sidecar), opt_chars(embedded)) == Some(doc_view(doc)),
            None => lyrics_from(opt_chars(sidecar), opt_chars(legacy_sidecar), opt_chars(embedded)) is None,
        },
{
    match sidecar {
        Some(t) => {
            let mut doc = parse_lrc(t);
            doc.source = LyricsSource::Sidecar;
            return Some(doc);
        },
        None => {},
    }
    match legacy_sidecar {
        Some(t) => {
            let mut doc = parse_lrc(t);
            doc.source = LyricsSource::Sidecar;
            return Some(doc);
        },
        None => {},
    }
    match embedded {
        Some(t) => {
            let mut doc = if looks_like_lrc(t) {
                parse_lrc(t)
            } else {
                parse_plain_text(t)
            };
            doc.source = LyricsSource::Embedded;
            Some(doc)
        },
        None => None,
    }
}

/// Sidecar lyrics take precedence over embedded ones: whenever a sidecar text is found, the
/// loaded document is that sidecar read as LRC.
pub proof fn sidecar_lyrics_take_precedence(sidecar: Seq<char>, legacy: Option<Seq<char>>, embedded: Option<Seq<char>>)
    ensures
        lyrics_from(Some(sidecar), legacy, embedded) == Some(
            (parsed_lrc(sidecar).0, LyricsSource::Sidecar, parsed_lrc(sidecar).1),
        ),
{
}

/// A metadata tag that may hold lyrics: its key mentions lyrics, or is `uslt` or `sylt`.
pub open spec fn lyric_tag_key(key_lower: Seq<char>) -> bool {
    crate::text::has_substring(key_lower, "lyric"@) || key_lower == "uslt"@ || key_lower == "sylt"@
}

/// How good a lyrics tag is: LRC-like text 3, a `sylt` tag 2, any other 1.
pub open spec fn tag_score(key_lower: Seq<char>, value: Seq<char>) -> nat {
    if looks_like_lrc_spec(value) {
        3
    } else if key_lower == "sylt"@ {
        2
    } else {
        1
    }
}

/// The best lyrics tag among the first `n`: the trimmed value of the first tag with the
/// highest score, among lyric tags whose trimmed value is not empty.
pub open spec fn best_tag(tags: Seq<(Seq<char>, Seq<char>)>) -> Option<(nat, Seq<char>)>
    decreases tags.len(),
{
    if tags.len() == 0 {
        None
    } else {
        let prev = best_tag(tags.drop_last());
        let key = lower_seq(tags.last().0);
        let value = trim(tags.last().1);
        if !lyric_tag_key(key) || value.len() == 0 {
            prev
        } else {
            let score = tag_score(key, value);
            match prev {
                Some((best, _)) => if score > best {
                    Some((score, value))
                } else {
                    prev
                },
                None => Some((score, value)),
            }
        }
    }
}

/// Embedded lyrics: the text of the ID3 lyrics frames when there is one, else the best
/// lyrics tag the audio decoder reported.
pub open spec fn embedded_lyrics(uslt: Option<Seq<char>>, tags: Seq<(Seq<char>, Seq<char>)>) -> Option<Seq<char>> {
    match uslt {
        Some(t) => Some(t),
        None => match best_tag(tags) {
            Some((_, v)) => Some(v),
            None => None,
        },
    }
}

pub open spec fn tags_view(tags: Seq<(String, String)>) -> Seq<(Seq<char>, Seq<char>)> {
    tags.map_values(|t: (String, String)| (t.0@, t.1@))
}

pub fn choose_embedded_lyrics(uslt: Option<String>, tags: &Vec<(String, String)>) -> (r: Option<String>)
    ensures
        match r {
            Some(t) => embedded_lyrics(match uslt { Some(u) => Some(u@), None => None }, tags_view(tags@)) == Some(t@),
            None => embedded_lyrics(match uslt { Some(u) => Some(u@), None => None }, tags_view(tags@)) is None,
        },
{
    match uslt {
        Some(u) => return Some(u),
        None => {},
    }
    let ghost tv = tags_view(tags@);
    let mut best: Option<(u8, String)> = None;
    let mut i: usize = 0;
    while i < tags.len()
        invariant
            i <= tags.len(),
            tv == tags_view(tags@),
            match best {
                Some((score, v)) => best_tag(tv.take(i as int)) == Some((score as nat, v@)),
                None => best_tag(tv.take(i as int)) is None,
            },
        decreases tags.len() - i,
    {
        assert(tv.take(i + 1).drop_last() =~= tv.take(i as int));
        assert(tv[i as int] == (tags@[i as int].0@, tags@[i as int].1@));
        let kc = chars_of(tags[i].0.as_str());
        let key = lower_chars(kc.as_slice());
        let lyric = chars_of("lyric");
        let uslt_key = chars_of("uslt");
        let sylt_key = chars_of("sylt");
        let is_lyric_key = crate::text::contains_chars(key.as_slice(), lyric.as_slice()) || chars_eq(
            key.as_slice(),
            uslt_key.as_slice(),
        ) || chars_eq(key.as_slice(), sylt_key.as_slice());
        let vt = crate::text::trimmed(tags[i].1.as_str());
        if is_lyric_key && vt.len() > 0 {
            let value = string_from_chars(vt.as_slice());
            let score: u8 = if looks_like_lrc(value.as_str()) {
                3
            } else if chars_eq(key.as_slice(), sylt_key.as_slice()) {
                2
            } else {
                1
            };
            let better = match &best {
                Some((b, _)) => score > *b,
                None => true,
            };
            if better {
                best = Some((score, value));
            }
        }
        i += 1;
    }
    assert(tv.take(tags.len() as int) =~= tv);
    match best {
        Some((_, v)) => Some(v),
        None => None,
    }
}

} // verus!
