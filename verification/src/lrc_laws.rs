use crate::lyrics::{
    clock_millis, clock_parts, count_char, entries_for, first_index, fraction_hundredths,
    insert_by_key, is_metadata_line, is_sorted_by_key, lemma_count_absent, lemma_first_index,
    line_timestamps, lrc_fold, lrc_line, lrc_line_text, lrc_stamp, lrc_text, lrc_timestamp,
    parsed_lrc, sort_key, sort_lines, split_lines, strip_cr, strip_words, stripped_text, LineView,
    LyricsTimingPrecision,
};
use crate::text::{
    all_digits, ascii_lower, is_ascii_digit, is_white_space, lemma_zero_padded_digits, lower_seq,
    parse_unsigned, trim, trim_end, trim_start, zero_padded,
};
use vstd::prelude::*;

verus! {

// ---------------------------------------------------------------------------
// Reading back what the LRC writer writes
// ---------------------------------------------------------------------------

proof fn lemma_count_concat(a: Seq<char>, b: Seq<char>, c: char)
    ensures
        count_char(a + b, c) == count_char(a, c) + count_char(b, c),
    decreases b.len(),
{
    if b.len() == 0 {
        assert(a + b =~= a);
    } else {
        lemma_count_concat(a, b.drop_last(), c);
        assert((a + b).drop_last() =~= a + b.drop_last());
    }
}

proof fn lemma_digits_lack(s: Seq<char>, c: char)
    requires
        all_digits(s),
        !is_ascii_digit(c),
    ensures
        count_char(s, c) == 0,
        forall|k: int| 0 <= k < s.len() ==> s[k] != c,
{
    assert forall|k: int| 0 <= k < s.len() implies s[k] != c by {
        assert(is_ascii_digit(s[k]));
    }
    lemma_count_absent(s, c);
}

/// A zero-padded number parses back as itself.
proof fn lemma_parse_padded(n: nat, w: nat)
    requires
        n <= u32::MAX,
    ensures
        parse_unsigned(zero_padded(n, w), u32::MAX as nat) == Some(n),
{
    lemma_zero_padded_digits(n, w);
    let z = zero_padded(n, w);
    assert(is_ascii_digit(z[0]));
}

/// The clock text `mm:ss.hh` written for a time reads back as that time, when the time is
/// a whole number of hundredths.
pub proof fn lemma_stamp_reads_back(t: u32)
    requires
        t % 10 == 0,
    ensures
        lrc_timestamp(lrc_stamp(t)) == Some(t),
{
    let m = (t / 60000) as nat;
    let s = ((t % 60000) / 1000) as nat;
    let h = ((t % 1000) / 10) as nat;
    let zm = zero_padded(m, 2);
    let zs = zero_padded(s, 2);
    let zh = zero_padded(h, 2);
    lemma_zero_padded_digits(m, 2);
    lemma_zero_padded_digits(s, 2);
    lemma_zero_padded_digits(h, 2);
    reveal_strlit("[");
    reveal_strlit(":");
    reveal_strlit(".");
    reveal_strlit("]");
    let token = lrc_stamp(t);
    let content = zm + ":"@ + zs + "."@ + zh;
    assert(token == "["@ + content + "]"@);
    assert(token.subrange(1, token.len() - 1) =~= content);
    assert(token[0] == '[');
    assert(token.last() == ']');
    lemma_digits_lack(zm, ':');
    lemma_digits_lack(zs, ':');
    lemma_digits_lack(zh, ':');
    lemma_digits_lack(zs, '.');
    lemma_digits_lack(zh, '.');
    lemma_count_concat(zm + ":"@ + zs + "."@, zh, ':');
    lemma_count_concat(zm + ":"@ + zs, "."@, ':');
    lemma_count_concat(zm + ":"@, zs, ':');
    lemma_count_concat(zm, ":"@, ':');
    assert(":"@ =~= seq![':']);
    assert("."@ =~= seq!['.']);
    assert(count_char(seq![':'], ':') == 1) by {
        reveal_with_fuel(count_char, 2);
        assert(seq![':'].drop_last() =~= Seq::<char>::empty());
    }
    assert(count_char(seq!['.'], ':') == 0) by {
        reveal_with_fuel(count_char, 2);
        assert(seq!['.'].drop_last() =~= Seq::<char>::empty());
    }
    assert(count_char(content, ':') == 1);
    lemma_first_index(content, ':', zm.len() as int);
    let colon = first_index(content, ':');
    let seconds_part = content.skip(colon + 1);
    assert(seconds_part =~= zs + "."@ + zh);
    lemma_count_concat(zs + "."@, zh, '.');
    lemma_count_concat(zs, "."@, '.');
    assert(count_char(seq!['.'], '.') == 1) by {
        reveal_with_fuel(count_char, 2);
        assert(seq!['.'].drop_last() =~= Seq::<char>::empty());
    }
    assert(count_char(seconds_part, '.') == 1);
    lemma_first_index(seconds_part, '.', zs.len() as int);
    let dot = first_index(seconds_part, '.');
    assert(content.take(colon) =~= zm);
    assert(seconds_part.take(dot) =~= zs);
    assert(seconds_part.skip(dot + 1) =~= zh);
    assert(clock_parts(content) == Some((zm, zs, zh)));
    lemma_parse_padded(m, 2);
    lemma_parse_padded(s, 2);
    lemma_parse_padded(h, 2);
    assert(h < 100);
    assert(zh.len() == 2);
    assert(zh.take(2) =~= zh);
    assert(fraction_hundredths(zh) == Some(h));
    assert(m * 60000 + s * 1000 + h * 10 == t) by (nonlinear_arith)
        requires
            m == t / 60000,
            s == (t % 60000) / 1000,
            h == (t % 1000) / 10,
            t % 10 == 0,
            t >= 0,
    ;
    assert(clock_millis(m, s, h) == t);
}


/// Text that an LRC line carries unchanged through writing and reading: already trimmed,
/// without line feeds or `<`, and not opening with `[`.
pub open spec fn plain_lyric_text(text: Seq<char>) -> bool {
    &&& trim(text) == text
    &&& forall|i: int| 0 <= i < text.len() ==> (#[trigger] text[i]) != '\n' && text[i] != '<'
    &&& text.len() > 0 ==> text[0] != '['
}

proof fn lemma_trim_start_len(s: Seq<char>)
    ensures
        trim_start(s).len() <= s.len(),
        s.len() > 0 && is_white_space(s[0]) ==> trim_start(s).len() < s.len(),
    decreases s.len(),
{
    if s.len() > 0 && is_white_space(s[0]) {
        lemma_trim_start_len(s.drop_first());
    }
}

proof fn lemma_trim_end_len(s: Seq<char>)
    ensures
        trim_end(s).len() <= s.len(),
        s.len() > 0 && is_white_space(s.last()) ==> trim_end(s).len() < s.len(),
    decreases s.len(),
{
    if s.len() > 0 && is_white_space(s.last()) {
        lemma_trim_end_len(s.drop_last());
    }
}

/// Trimmed text neither starts nor ends with white space.
proof fn lemma_trimmed_ends(s: Seq<char>)
    requires
        trim(s) == s,
        s.len() > 0,
    ensures
        !is_white_space(s[0]),
        !is_white_space(s.last()),
        trim_start(s) == s,
        trim_end(s) == s,
{
    lemma_trim_start_len(s);
    lemma_trim_end_len(trim_start(s));
    if is_white_space(s[0]) {
        assert(false);
    }
    assert(trim_start(s) == s);
    if is_white_space(s.last()) {
        lemma_trim_end_len(s);
        assert(false);
    }
}

proof fn lemma_stamp_shape(t: u32)
    ensures
        lrc_stamp(t).len() >= 8,
        lrc_stamp(t)[0] == '[',
        is_ascii_digit(lrc_stamp(t)[1]),
        lrc_stamp(t).last() == ']',
        forall|k: int| 0 <= k < lrc_stamp(t).len() - 1 ==> lrc_stamp(t)[k] != ']',
        forall|k: int| 0 <= k < lrc_stamp(t).len() ==> lrc_stamp(t)[k] != '\n' && !is_white_space(#[trigger] lrc_stamp(t)[k]),
{
    let m = (t / 60000) as nat;
    let s = ((t % 60000) / 1000) as nat;
    let h = ((t % 1000) / 10) as nat;
    let zm = zero_padded(m, 2);
    let zs = zero_padded(s, 2);
    let zh = zero_padded(h, 2);
    lemma_zero_padded_digits(m, 2);
    lemma_zero_padded_digits(s, 2);
    lemma_zero_padded_digits(h, 2);
    reveal_strlit("[");
    reveal_strlit(":");
    reveal_strlit(".");
    reveal_strlit("]");
    let st = lrc_stamp(t);
    let parts = seq!['['] + zm + seq![':'] + zs + seq!['.'] + zh + seq![']'];
    assert(st =~= parts);
    assert forall|k: int| 0 <= k < st.len() implies st[k] != '\n' && !is_white_space(#[trigger] st[k]) && (k < st.len() - 1 ==> st[k] != ']') by {
        let a = 1 + zm.len();
        let b = a + 1 + zs.len();
        let c = b + 1 + zh.len();
        if 1 <= k < a {
            assert(st[k] == zm[k - 1]);
            assert(is_ascii_digit(zm[k - 1]));
        } else if a + 1 <= k < b {
            assert(st[k] == zs[k - a - 1]);
            assert(is_ascii_digit(zs[k - a - 1]));
        } else if b + 1 <= k < c {
            assert(st[k] == zh[k - b - 1]);
            assert(is_ascii_digit(zh[k - b - 1]));
        }
    }
    assert(st[1] == zm[0]);
}

/// The header prefixes all have a letter second.
proof fn lemma_not_metadata(line: Seq<char>)
    requires
        line.len() >= 2,
        is_ascii_digit(line[1]),
    ensures
        !is_metadata_line(line),
{
    reveal_strlit("[ar:");
    reveal_strlit("[ti:");
    reveal_strlit("[al:");
    reveal_strlit("[by:");
    reveal_strlit("[offset:");
    reveal_strlit("[length:");
    let lower = lower_seq(line);
    assert(lower[1] == ascii_lower(line[1]));
    assert(is_ascii_digit(lower[1]));
    if lower.len() >= 4 {
        assert(lower.take(4)[1] == lower[1]);
    }
    if lower.len() >= 8 {
        assert(lower.take(8)[1] == lower[1]);
    }
}

/// A written line reads back as its timestamp and text, without word tags.
pub proof fn lemma_written_line(t: u32, text: Seq<char>)
    requires
        t % 10 == 0,
        plain_lyric_text(text),
    ensures
        lrc_line(lrc_stamp(t) + text) == Some((seq![t], text, false)),
{
    let st = lrc_stamp(t);
    let raw = st + text;
    lemma_stamp_shape(t);
    if text.len() > 0 {
        lemma_trimmed_ends(text);
        assert(raw.last() == text.last());
    } else {
        assert(raw =~= st);
    }
    assert(trim_end(raw) == raw);
    assert(raw[1] == st[1]);
    lemma_not_metadata(raw);
    assert forall|k: int| 0 <= k < st.len() - 1 implies raw[k] != ']' by {
        assert(raw[k] == st[k]);
    }
    lemma_first_index(raw, ']', st.len() - 1);
    assert(raw.take(st.len() as int) =~= st);
    lemma_stamp_reads_back(t);
    assert(raw.skip(st.len() as int) =~= text);
    if text.len() > 0 {
        assert(trim_start(text) == text) by {
            lemma_trimmed_ends(text);
        }
    }
    assert(line_timestamps(text) == (Seq::<u32>::empty(), text));
    assert(line_timestamps(raw) == (seq![t] + Seq::<u32>::empty(), text));
    assert(seq![t] + Seq::<u32>::empty() =~= seq![t]);
    lemma_first_index(text, '<', text.len() as int);
    assert(strip_words(text) == (text, false));
    assert(stripped_text(text) == (text, false));
}


/// An untimed line with plain text reads back as itself.
pub proof fn lemma_written_untimed(text: Seq<char>)
    requires
        plain_lyric_text(text),
        text.len() > 0,
    ensures
        lrc_line(text) == Some((Seq::<u32>::empty(), text, false)),
{
    lemma_trimmed_ends(text);
    assert(trim_end(text) == text);
    reveal_strlit("[ar:");
    reveal_strlit("[ti:");
    reveal_strlit("[al:");
    reveal_strlit("[by:");
    reveal_strlit("[offset:");
    reveal_strlit("[length:");
    let lower = lower_seq(text);
    assert(lower[0] == ascii_lower(text[0]));
    assert(lower[0] != '[');
    if lower.len() >= 4 {
        assert(lower.take(4)[0] == lower[0]);
    }
    if lower.len() >= 8 {
        assert(lower.take(8)[0] == lower[0]);
    }
    assert(!is_metadata_line(text));
    assert(line_timestamps(text) == (Seq::<u32>::empty(), text));
    lemma_first_index(text, '<', text.len() as int);
    assert(strip_words(text) == (text, false));
    assert(stripped_text(text) == (text, false));
}

/// Lines that the writer and the reader agree on: each with plain text, a timed line timed
/// to the hundredth of a second, an untimed line not empty (an empty line is skipped).
pub open spec fn writable_lines(lines: Seq<LineView>) -> bool {
    forall|i: int|
        0 <= i < lines.len() ==> plain_lyric_text((#[trigger] lines[i]).text) && match lines[i].timestamp_ms {
            Some(t) => t % 10 == 0,
            None => lines[i].text.len() > 0,
        }
}

/// The stamp written in front of a line's text (none for an untimed line).
pub open spec fn stamp_of(l: LineView) -> Seq<char> {
    match l.timestamp_ms {
        Some(t) => lrc_stamp(t),
        None => seq![],
    }
}

/// The text lines the writer produces, without their line feeds.
pub open spec fn written(lines: Seq<LineView>) -> Seq<Seq<char>> {
    lines.map_values(|l: LineView| stamp_of(l) + l.text)
}

/// The timing precision read back: by the line when some line is timed, else none.
pub open spec fn timing_of(lines: Seq<LineView>) -> LyricsTimingPrecision
    decreases lines.len(),
{
    if lines.len() == 0 {
        LyricsTimingPrecision::Untimed
    } else if lines.last().timestamp_ms is Some {
        LyricsTimingPrecision::Line
    } else {
        timing_of(lines.drop_last())
    }
}

proof fn lemma_lrc_text_front(lines: Seq<LineView>)
    requires
        lines.len() > 0,
    ensures
        lrc_text(lines) == lrc_line_text(lines[0]) + lrc_text(lines.drop_first()),
    decreases lines.len(),
{
    if lines.len() == 1 {
        assert(lines.drop_last() =~= Seq::<LineView>::empty());
        assert(lines.drop_first() =~= Seq::<LineView>::empty());
        assert(lrc_text(lines.drop_first()) == Seq::<char>::empty());
        assert(lrc_line_text(lines[0]) + Seq::<char>::empty() =~= lrc_line_text(lines[0]));
    } else {
        lemma_lrc_text_front(lines.drop_last());
        assert(lines.drop_last()[0] == lines[0]);
        assert(lines.drop_first().drop_last() =~= lines.drop_last().drop_first());
        assert(lines.drop_first().last() == lines.last());
        assert(lrc_text(lines.drop_first()) == lrc_text(lines.drop_first().drop_last()) + lrc_line_text(lines.drop_first().last()));
        assert(lrc_text(lines) =~= lrc_line_text(lines[0]) + lrc_text(lines.drop_first()));
    }
}

/// Splitting the written text gives back the written lines.
proof fn lemma_split_written(lines: Seq<LineView>)
    requires
        writable_lines(lines),
    ensures
        split_lines(lrc_text(lines)) == written(lines),
    decreases lines.len(),
{
    if lines.len() == 0 {
        assert(written(lines) =~= Seq::<Seq<char>>::empty());
    } else {
        let l = lines[0];
        let st = stamp_of(l);
        let x = st + l.text;
        let rest = lines.drop_first();
        assert(writable_lines(rest)) by {
            assert forall|i: int| 0 <= i < rest.len() implies plain_lyric_text((#[trigger] rest[i]).text) && match rest[i].timestamp_ms {
                Some(t) => t % 10 == 0,
                None => rest[i].text.len() > 0,
            } by {
                assert(rest[i] == lines[i + 1]);
            }
        }
        assert(plain_lyric_text(l.text));
        lemma_split_written(rest);
        lemma_lrc_text_front(lines);
        reveal_strlit("\n");
        assert("\n"@ =~= seq!['\n']);
        assert(lrc_line_text(l) == x + seq!['\n']);
        let all = lrc_text(lines);
        assert(all =~= x + seq!['\n'] + lrc_text(rest));
        match l.timestamp_ms {
            Some(t) => {
                lemma_stamp_shape(t);
            },
            None => {},
        }
        assert forall|k: int| 0 <= k < x.len() implies all[k] != '\n' by {
            if k < st.len() {
                assert(all[k] == st[k]);
            } else {
                assert(all[k] == l.text[k - st.len()]);
            }
        }
        lemma_first_index(all, '\n', x.len() as int);
        assert(all.take(x.len() as int) =~= x);
        assert(all.skip(x.len() + 1int) =~= lrc_text(rest));
        if l.text.len() > 0 {
            lemma_trimmed_ends(l.text);
            assert(x.last() == l.text.last());
        }
        assert(x.last() != '\r');
        assert(strip_cr(x) == x);
        assert(split_lines(all) == seq![x] + split_lines(lrc_text(rest)));
        assert(written(lines) =~= seq![x] + written(rest));
    }
}

/// The stamps a line's written form reads back as.
pub open spec fn stamps_of(l: LineView) -> Seq<u32> {
    match l.timestamp_ms {
        Some(t) => seq![t],
        None => seq![],
    }
}

/// One written line reads back as the line itself.
proof fn lemma_one_written(l: LineView)
    requires
        plain_lyric_text(l.text),
        match l.timestamp_ms {
            Some(t) => t % 10 == 0,
            None => l.text.len() > 0,
        },
    ensures
        lrc_line(stamp_of(l) + l.text) == Some((stamps_of(l), l.text, false)),
        entries_for(stamps_of(l), l.text) == seq![l],
{
    match l.timestamp_ms {
        Some(t) => {
            lemma_written_line(t, l.text);
            assert(entries_for(seq![t], l.text) =~= seq![LineView { timestamp_ms: Some(t), text: l.text }]);
        },
        None => {
            lemma_written_untimed(l.text);
            assert(Seq::<char>::empty() + l.text =~= l.text);
            assert(entries_for(Seq::<u32>::empty(), l.text) =~= seq![LineView { timestamp_ms: None, text: l.text }]);
        },
    }
}

proof fn lemma_timing_by_line(lines: Seq<LineView>)
    ensures
        timing_of(lines) != LyricsTimingPrecision::Word,
    decreases lines.len(),
{
    if lines.len() > 0 {
        lemma_timing_by_line(lines.drop_last());
    }
}

/// Reading the written lines gives back the lines, with the precision of their timing.
proof fn lemma_fold_written(lines: Seq<LineView>)
    requires
        writable_lines(lines),
    ensures
        lrc_fold(written(lines)) == (lines, timing_of(lines)),
    decreases lines.len(),
{
    if lines.len() == 0 {
        assert(written(lines) =~= Seq::<Seq<char>>::empty());
    } else {
        let prev = lines.drop_last();
        assert(writable_lines(prev)) by {
            assert forall|i: int| 0 <= i < prev.len() implies plain_lyric_text((#[trigger] prev[i]).text) && match prev[i].timestamp_ms {
                Some(t) => t % 10 == 0,
                None => prev[i].text.len() > 0,
            } by {
                assert(prev[i] == lines[i]);
            }
        }
        lemma_fold_written(prev);
        lemma_timing_by_line(prev);
        assert(written(lines).drop_last() =~= written(prev));
        let l = lines.last();
        assert(l == lines[lines.len() - 1]);
        lemma_one_written(l);
        assert(written(lines).last() == stamp_of(l) + l.text);
        assert(prev + seq![l] =~= lines);
    }
}

proof fn lemma_sorted_is_fixed(s: Seq<LineView>)
    requires
        is_sorted_by_key(s),
    ensures
        sort_lines(s) == s,
    decreases s.len(),
{
    if s.len() > 0 {
        let p = s.drop_last();
        assert(is_sorted_by_key(p)) by {
            assert forall|i: int, j: int| 0 <= i <= j < p.len() implies sort_key(p[i]) <= sort_key(p[j]) by {
                assert(p[i] == s[i] && p[j] == s[j]);
            }
        }
        lemma_sorted_is_fixed(p);
        if p.len() > 0 {
            assert(sort_key(s[p.len() - 1]) <= sort_key(s[s.len() - 1]));
            assert(p.last() == s[p.len() - 1]);
        }
        assert(insert_by_key(p, s.last()) =~= s);
    }
}

/// Writing lyrics as LRC and reading the text back gives the same lines, timed and untimed,
/// when each carries plain text, timed lines are timed to the hundredth of a second, untimed
/// ones are not empty, and the lines are in time order (untimed last); the precision read
/// back is by the line when some line is timed.
pub proof fn lrc_written_text_reads_back(lines: Seq<LineView>)
    requires
        writable_lines(lines),
        is_sorted_by_key(lines),
    ensures
        parsed_lrc(lrc_text(lines)) == (lines, timing_of(lines)),
{
    lemma_split_written(lines);
    lemma_fold_written(lines);
    lemma_sorted_is_fixed(lines);
}

} // verus!
