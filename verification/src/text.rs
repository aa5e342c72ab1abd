use vstd::prelude::*;

verus! {

// ---------------------------------------------------------------------------
// Character classes
// ---------------------------------------------------------------------------

/// The Unicode `White_Space` property (PropList.txt).
pub open spec fn is_white_space(c: char) -> bool {
    let u = c as u32;
    ||| 0x09 <= u <= 0x0d
    ||| u == 0x20
    ||| u == 0x85
    ||| u == 0xa0
    ||| u == 0x1680
    ||| 0x2000 <= u <= 0x200a
    ||| u == 0x2028
    ||| u == 0x2029
    ||| u == 0x202f
    ||| u == 0x205f
    ||| u == 0x3000
}

/// The Unicode general category `Cc` (control characters).
pub open spec fn is_control_char(c: char) -> bool {
    let u = c as u32;
    u <= 0x1f || (0x7f <= u <= 0x9f)
}

pub open spec fn is_ascii_digit(c: char) -> bool {
    '0' <= c <= '9'
}

pub open spec fn is_ascii_upper(c: char) -> bool {
    'A' <= c <= 'Z'
}

pub open spec fn is_ascii_lower(c: char) -> bool {
    'a' <= c <= 'z'
}

pub open spec fn is_ascii_alphanumeric(c: char) -> bool {
    is_ascii_digit(c) || is_ascii_upper(c) || is_ascii_lower(c)
}

pub open spec fn ascii_lower(c: char) -> char {
    if is_ascii_upper(c) {
        ((c as u32) + 32) as char
    } else {
        c
    }
}

pub open spec fn ascii_upper(c: char) -> char {
    if is_ascii_lower(c) {
        ((c as u32) - 32) as char
    } else {
        c
    }
}

pub open spec fn lower_seq(s: Seq<char>) -> Seq<char> {
    Seq::new(s.len(), |i: int| ascii_lower(s[i]))
}

pub open spec fn upper_seq(s: Seq<char>) -> Seq<char> {
    Seq::new(s.len(), |i: int| ascii_upper(s[i]))
}

/// Whether a character has the Unicode `White_Space` property (as `char::is_whitespace`).
pub fn char_is_whitespace(c: char) -> (b: bool)
    ensures
        b == is_white_space(c),
{
    let u = c as u32;
    (0x09 <= u && u <= 0x0d) || u == 0x20 || u == 0x85 || u == 0xa0 || u == 0x1680 || (0x2000 <= u && u <= 0x200a)
        || u == 0x2028 || u == 0x2029 || u == 0x202f || u == 0x205f || u == 0x3000
}

/// Whether a character is a control character (as `char::is_control`).
pub fn char_is_control(c: char) -> (b: bool)
    ensures
        b == is_control_char(c),
{
    let u = c as u32;
    u <= 0x1f || (0x7f <= u && u <= 0x9f)
}

/// What `char::to_lowercase` yields for a character (Unicode case mapping).
pub uninterp spec fn unicode_lowercase(c: char) -> Seq<char>;

/// Whether `char::is_alphanumeric` holds (Unicode `Alphabetic` or `Numeric`).
pub uninterp spec fn unicode_alphanumeric(c: char) -> bool;

/// `char::to_lowercase`, collected. The crate documents that ASCII characters map to their
/// ASCII lower case.
#[verifier::external_body]
pub fn char_to_lowercase(c: char) -> (r: Vec<char>)
    ensures
        r@ == unicode_lowercase(c),
        (c as u32) < 128 ==> r@ == seq![ascii_lower(c)],
{
    c.to_lowercase().collect()
}

/// `char::is_alphanumeric`. For ASCII characters this is ASCII letters and digits.
#[verifier::external_body]
pub fn char_is_alphanumeric(c: char) -> (b: bool)
    ensures
        b == unicode_alphanumeric(c),
        (c as u32) < 128 ==> b == is_ascii_alphanumeric(c),
{
    c.is_alphanumeric()
}

pub fn is_digit(c: char) -> (b: bool)
    ensures
        b == is_ascii_digit(c),
{
    '0' <= c && c <= '9'
}

pub fn is_alnum(c: char) -> (b: bool)
    ensures
        b == is_ascii_alphanumeric(c),
{
    ('0' <= c && c <= '9') || ('A' <= c && c <= 'Z') || ('a' <= c && c <= 'z')
}

pub fn to_lower(c: char) -> (r: char)
    ensures
        r == ascii_lower(c),
{
    if 'A' <= c && c <= 'Z' {
        let u: u32 = c as u32;
        assert(0x41 <= u <= 0x5a);
        char_from_byte((u + 32) as u8)
    } else {
        c
    }
}

pub fn to_upper(c: char) -> (r: char)
    ensures
        r == ascii_upper(c),
{
    if 'a' <= c && c <= 'z' {
        let u: u32 = c as u32;
        char_from_byte((u - 32) as u8)
    } else {
        c
    }
}

/// `char::from(u8)`: the code point with the byte's value.
pub fn char_from_byte(b: u8) -> (c: char)
    ensures
        c as u32 == b as u32,
{
    b as char
}

// ---------------------------------------------------------------------------
// Strings as character sequences
// ---------------------------------------------------------------------------

/// The characters of a string slice, in order.
pub fn chars_of(s: &str) -> (out: Vec<char>)
    ensures
        out@ == s@,
{
    let mut out: Vec<char> = Vec::new();
    for c in it: s.chars()
        invariant
            out@ == it.seq().take(it.index() as int),
            it.seq() == s@,
    {
        out.push(c);
    }
    out
}

/// `String::push`.
#[verifier::external_body]
pub fn string_push(s: &mut String, c: char)
    ensures
        final(s)@ == old(s)@.push(c),
{
    s.push(c);
}

/// Builds a string from a sequence of characters.
pub fn string_from_chars(cs: &[char]) -> (out: String)
    ensures
        out@ == cs@,
{
    let mut out = String::new();
    let mut i: usize = 0;
    while i < cs.len()
        invariant
            i <= cs.len(),
            out@ == cs@.take(i as int),
        decreases cs.len() - i,
    {
        string_push(&mut out, cs[i]);
        i += 1;
        assert(cs@.take(i as int) == cs@.take((i - 1) as int).push(cs@[i - 1]));
    }
    assert(cs@.take(cs.len() as int) == cs@);
    out
}

/// Appends characters to a vector.
pub fn extend_chars(out: &mut Vec<char>, cs: &[char])
    ensures
        final(out)@ == old(out)@ + cs@,
{
    let ghost start = out@;
    let mut i: usize = 0;
    while i < cs.len()
        invariant
            i <= cs.len(),
            out@ == start + cs@.take(i as int),
        decreases cs.len() - i,
    {
        out.push(cs[i]);
        i += 1;
        assert(cs@.take(i as int) == cs@.take((i - 1) as int).push(cs@[i - 1]));
    }
    assert(cs@.take(cs.len() as int) == cs@);
}

/// Characters of a string literal or slice appended to a vector.
pub fn extend_str(out: &mut Vec<char>, s: &str)
    ensures
        final(out)@ == old(out)@ + s@,
{
    let cs = chars_of(s);
    extend_chars(out, cs.as_slice());
}

pub fn sub_chars(s: &[char], start: usize, end: usize) -> (out: Vec<char>)
    requires
        start <= end <= s.len(),
    ensures
        out@ == s@.subrange(start as int, end as int),
{
    let mut out: Vec<char> = Vec::new();
    let mut i = start;
    while i < end
        invariant
            start <= i <= end <= s.len(),
            out@ == s@.subrange(start as int, i as int),
        decreases end - i,
    {
        out.push(s[i]);
        i += 1;
        assert(s@.subrange(start as int, i as int) == s@.subrange(start as int, (i - 1) as int).push(
            s@[i - 1],
        ));
    }
    out
}

pub fn chars_eq(a: &[char], b: &[char]) -> (r: bool)
    ensures
        r == (a@ == b@),
{
    if a.len() != b.len() {
        return false;
    }
    let mut i: usize = 0;
    while i < a.len()
        invariant
            a.len() == b.len(),
            i <= a.len(),
            forall|k: int| 0 <= k < i ==> a@[k] == b@[k],
        decreases a.len() - i,
    {
        if a[i] != b[i] {
            return false;
        }
        i += 1;
    }
    assert(a@ =~= b@);
    true
}

pub fn str_eq(a: &str, b: &str) -> (r: bool)
    ensures
        r == (a@ == b@),
{
    let x = chars_of(a);
    let y = chars_of(b);
    chars_eq(x.as_slice(), y.as_slice())
}

/// `needle` occurs in `hay` starting at `i`.
pub open spec fn occurs_at(hay: Seq<char>, needle: Seq<char>, i: int) -> bool {
    0 <= i && i + needle.len() <= hay.len() && hay.subrange(i, i + needle.len()) == needle
}

/// `str::contains` with a string pattern.
pub open spec fn has_substring(hay: Seq<char>, needle: Seq<char>) -> bool {
    exists|i: int| #[trigger] occurs_at(hay, needle, i)
}

pub fn contains_chars(hay: &[char], needle: &[char]) -> (r: bool)
    ensures
        r == has_substring(hay@, needle@),
{
    if needle.len() > hay.len() {
        assert forall|i: int| !#[trigger] occurs_at(hay@, needle@, i) by {}
        return false;
    }
    let last = hay.len() - needle.len();
    let mut i: usize = 0;
    while i <= last
        invariant
            last == hay.len() - needle.len(),
            needle.len() <= hay.len(),
            i <= last + 1,
            forall|j: int| 0 <= j < i ==> !#[trigger] occurs_at(hay@, needle@, j),
        decreases last + 1 - i,
    {
        let mut k: usize = 0;
        let mut same = true;
        while k < needle.len()
            invariant
                i <= last,
                last == hay.len() - needle.len(),
                k <= needle.len(),
                same == (forall|m: int| 0 <= m < k ==> hay@[i + m] == needle@[m]),
            decreases needle.len() - k,
        {
            if hay[i + k] != needle[k] {
                same = false;
            }
            k += 1;
        }
        if same {
            assert(hay@.subrange(i as int, i + needle.len()) =~= needle@);
            assert(occurs_at(hay@, needle@, i as int));
            return true;
        }
        assert(!occurs_at(hay@, needle@, i as int)) by {
            if hay@.subrange(i as int, i + needle.len()) == needle@ {
                let m = choose|m: int| 0 <= m < needle.len() && hay@[i + m] != needle@[m];
                assert(hay@.subrange(i as int, i + needle.len())[m] == hay@[i + m]);
            }
        }
        i += 1;
    }
    assert forall|j: int| !#[trigger] occurs_at(hay@, needle@, j) by {
        if 0 <= j < i {
        }
    }
    false
}

pub fn contains_str(hay: &str, needle: &str) -> (r: bool)
    ensures
        r == has_substring(hay@, needle@),
{
    let h = chars_of(hay);
    let n = chars_of(needle);
    contains_chars(h.as_slice(), n.as_slice())
}

pub fn starts_with_chars(s: &[char], prefix: &[char]) -> (r: bool)
    ensures
        r == (prefix@.len() <= s@.len() && s@.take(prefix@.len() as int) == prefix@),
{
    if prefix.len() > s.len() {
        return false;
    }
    let mut i: usize = 0;
    while i < prefix.len()
        invariant
            prefix.len() <= s.len(),
            i <= prefix.len(),
            forall|k: int| 0 <= k < i ==> s@[k] == prefix@[k],
        decreases prefix.len() - i,
    {
        if s[i] != prefix[i] {
            assert(s@.take(prefix@.len() as int)[i as int] != prefix@[i as int]);
            return false;
        }
        i += 1;
    }
    assert(s@.take(prefix@.len() as int) =~= prefix@);
    true
}

// ---------------------------------------------------------------------------
// ASCII case mapping and case-insensitive comparison
// ---------------------------------------------------------------------------

pub fn lower_chars(s: &[char]) -> (out: Vec<char>)
    ensures
        out@ == lower_seq(s@),
{
    let mut out: Vec<char> = Vec::new();
    let mut i: usize = 0;
    while i < s.len()
        invariant
            i <= s.len(),
            out@.len() == i,
            forall|k: int| 0 <= k < i ==> out@[k] == ascii_lower(s@[k]),
        decreases s.len() - i,
    {
        out.push(to_lower(s[i]));
        i += 1;
    }
    assert(out@ =~= lower_seq(s@));
    out
}

pub fn upper_chars(s: &[char]) -> (out: Vec<char>)
    ensures
        out@ == upper_seq(s@),
{
    let mut out: Vec<char> = Vec::new();
    let mut i: usize = 0;
    while i < s.len()
        invariant
            i <= s.len(),
            out@.len() == i,
            forall|k: int| 0 <= k < i ==> out@[k] == ascii_upper(s@[k]),
        decreases s.len() - i,
    {
        out.push(to_upper(s[i]));
        i += 1;
    }
    assert(out@ =~= upper_seq(s@));
    out
}

/// `str::eq_ignore_ascii_case`.
pub open spec fn eq_ignore_case(a: Seq<char>, b: Seq<char>) -> bool {
    lower_seq(a) == lower_seq(b)
}

pub fn eq_ignore_ascii_case(a: &str, b: &str) -> (r: bool)
    ensures
        r == eq_ignore_case(a@, b@),
{
    let x = chars_of(a);
    let y = chars_of(b);
    let lx = lower_chars(x.as_slice());
    let ly = lower_chars(y.as_slice());
    chars_eq(lx.as_slice(), ly.as_slice())
}

// ---------------------------------------------------------------------------
// Trimming white space
// ---------------------------------------------------------------------------

pub open spec fn trim_start(s: Seq<char>) -> Seq<char>
    decreases s.len(),
{
    if s.len() > 0 && is_white_space(s[0]) {
        trim_start(s.drop_first())
    } else {
        s
    }
}

pub open spec fn trim_end(s: Seq<char>) -> Seq<char>
    decreases s.len(),
{
    if s.len() > 0 && is_white_space(s.last()) {
        trim_end(s.drop_last())
    } else {
        s
    }
}

/// `str::trim`: white space removed from both ends.
pub open spec fn trim(s: Seq<char>) -> Seq<char> {
    trim_end(trim_start(s))
}

/// Index of the first character that is not white space at or after `from`.
pub fn skip_white_space(s: &[char], from: usize) -> (i: usize)
    requires
        from <= s.len(),
    ensures
        from <= i <= s.len(),
        trim_start(s@.skip(from as int)) == s@.skip(i as int),
        forall|k: int| from <= k < i ==> is_white_space(s@[k]),
{
    let mut i = from;
    while i < s.len() && char_is_whitespace(s[i])
        invariant
            from <= i <= s.len(),
            trim_start(s@.skip(from as int)) == trim_start(s@.skip(i as int)),
            forall|k: int| from <= k < i ==> is_white_space(s@[k]),
        decreases s.len() - i,
    {
        assert(s@.skip(i as int).drop_first() == s@.skip(i + 1));
        i += 1;
    }
    i
}

/// End of the range once trailing white space before `to` is removed.
pub fn trailing_white_space_start(s: &[char], from: usize, to: usize) -> (j: usize)
    requires
        from <= to <= s.len(),
    ensures
        from <= j <= to,
        trim_end(s@.subrange(from as int, to as int)) == s@.subrange(from as int, j as int),
        forall|k: int| j <= k < to ==> is_white_space(s@[k]),
{
    let mut j = to;
    while j > from && char_is_whitespace(s[j - 1])
        invariant
            from <= j <= to,
            to <= s.len(),
            trim_end(s@.subrange(from as int, to as int)) == trim_end(
                s@.subrange(from as int, j as int),
            ),
            forall|k: int| j <= k < to ==> is_white_space(s@[k]),
        decreases j - from,
    {
        assert(s@.subrange(from as int, j as int).drop_last() == s@.subrange(
            from as int,
            j - 1,
        ));
        j -= 1;
    }
    j
}

pub proof fn lemma_trim_start_skip(s: Seq<char>, i: int)
    requires
        0 <= i <= s.len(),
        forall|k: int| 0 <= k < i ==> is_white_space(s[k]),
    ensures
        trim_start(s) == trim_start(s.skip(i)),
    decreases i,
{
    if i > 0 {
        assert(s.drop_first() == s.skip(1));
        lemma_trim_start_skip(s.drop_first(), i - 1);
        assert(s.drop_first().skip(i - 1) == s.skip(i));
    } else {
        assert(s.skip(0) == s);
    }
}

/// The trimmed range of a character sequence.
pub fn trim_range(s: &[char]) -> (r: (usize, usize))
    ensures
        r.0 <= r.1 <= s.len(),
        s@.subrange(r.0 as int, r.1 as int) == trim(s@),
{
    let i = skip_white_space(s, 0);
    assert(s@.skip(0) == s@);
    assert(s@.skip(i as int) == s@.subrange(i as int, s.len() as int));
    let j = trailing_white_space_start(s, i, s.len());
    (i, j)
}

pub fn trim_chars(s: &[char]) -> (out: Vec<char>)
    ensures
        out@ == trim(s@),
{
    let (i, j) = trim_range(s);
    sub_chars(s, i, j)
}

pub fn trim_end_chars(s: &[char]) -> (out: Vec<char>)
    ensures
        out@ == trim_end(s@),
{
    let j = trailing_white_space_start(s, 0, s.len());
    assert(s@.subrange(0, s.len() as int) == s@);
    sub_chars(s, 0, j)
}

pub fn trim_start_chars(s: &[char]) -> (out: Vec<char>)
    ensures
        out@ == trim_start(s@),
{
    let i = skip_white_space(s, 0);
    assert(s@.skip(0) == s@);
    assert(s@.skip(i as int) == s@.subrange(i as int, s.len() as int));
    sub_chars(s, i, s.len())
}

/// `str::trim` on a string slice, as an owned character vector.
pub fn trimmed(s: &str) -> (out: Vec<char>)
    ensures
        out@ == trim(s@),
{
    let cs = chars_of(s);
    trim_chars(cs.as_slice())
}

/// Whether a string is empty once trimmed.
pub fn is_blank(s: &str) -> (r: bool)
    ensures
        r == (trim(s@).len() == 0),
{
    let t = trimmed(s);
    t.len() == 0
}

// ---------------------------------------------------------------------------
// Decimal numbers
// ---------------------------------------------------------------------------

pub open spec fn digit_value(c: char) -> nat {
    ((c as u32) - ('0' as u32)) as nat
}

pub open spec fn all_digits(s: Seq<char>) -> bool {
    forall|i: int| 0 <= i < s.len() ==> is_ascii_digit(#[trigger] s[i])
}

pub open spec fn digits_value(s: Seq<char>) -> nat
    decreases s.len(),
{
    if s.len() == 0 {
        0
    } else {
        digits_value(s.drop_last()) * 10 + digit_value(s.last())
    }
}

/// What `str::parse` gives for an unsigned integer type whose largest value is `max`:
/// an optional `+` followed by at least one ASCII digit, with a value that fits.
pub open spec fn parse_unsigned(s: Seq<char>, max: nat) -> Option<nat> {
    let body = if s.len() > 0 && s[0] == '+' {
        s.drop_first()
    } else {
        s
    };
    if body.len() > 0 && all_digits(body) && digits_value(body) <= max {
        Some(digits_value(body))
    } else {
        None
    }
}

pub proof fn lemma_digits_value_monotone(s: Seq<char>, j: int, k: int)
    requires
        0 <= j <= k <= s.len(),
        all_digits(s),
    ensures
        digits_value(s.take(j)) <= digits_value(s.take(k)),
    decreases k - j,
{
    if j < k {
        lemma_digits_value_monotone(s, j, k - 1);
        assert(s.take(k).drop_last() == s.take(k - 1));
    }
}

/// Parses a decimal unsigned integer no larger than `max` (as `str::parse` does).
pub fn parse_decimal(s: &[char], max: u32) -> (r: Option<u32>)
    ensures
        match r {
            Some(v) => parse_unsigned(s@, max as nat) == Some(v as nat),
            None => parse_unsigned(s@, max as nat) is None,
        },
{
    let start: usize = if s.len() > 0 && s[0] == '+' {
        1
    } else {
        0
    };
    let ghost body = if s@.len() > 0 && s@[0] == '+' {
        s@.drop_first()
    } else {
        s@
    };
    assert(body == s@.skip(start as int));
    if start >= s.len() {
        return None;
    }
    let mut value: u64 = 0;
    let mut i = start;
    while i < s.len()
        invariant
            start < s.len(),
            start <= i <= s.len(),
            body == s@.skip(start as int),
            body == (if s@.len() > 0 && s@[0] == '+' {
                s@.drop_first()
            } else {
                s@
            }),
            value <= max,
            value == digits_value(body.take(i - start)),
            all_digits(body.take(i - start)),
        decreases s.len() - i,
    {
        let c = s[i];
        if !is_digit(c) {
            assert(body[i - start] == c);
            return None;
        }
        let d: u64 = (c as u32 - '0' as u32) as u64;
        let next = value * 10 + d;
        assert(body.take(i + 1 - start).drop_last() == body.take(i - start));
        assert(body.take(i + 1 - start).last() == c);
        assert(all_digits(body.take(i + 1 - start))) by {
            assert forall|k: int| 0 <= k < body.take(i + 1 - start).len() implies is_ascii_digit(
                #[trigger] body.take(i + 1 - start)[k],
            ) by {
                if k < i - start {
                    assert(body.take(i + 1 - start)[k] == body.take(i - start)[k]);
                }
            }
        }
        if next > max as u64 {
            proof {
                if all_digits(body) {
                    lemma_digits_value_monotone(body, i + 1 - start, body.len() as int);
                    assert(body.take(body.len() as int) == body);
                }
            }
            return None;
        }
        value = next;
        i += 1;
    }
    assert(body.take(s.len() - start) == body);
    Some(value as u32)
}

} // verus!

verus! {

// ---------------------------------------------------------------------------
// Formatting numbers
// ---------------------------------------------------------------------------

pub open spec fn digit_char(d: nat) -> char
    recommends
        d < 10,
{
    ((d + 48) as u32) as char
}

/// Decimal notation of a natural number, without leading zeros.
pub open spec fn decimal(n: nat) -> Seq<char>
    decreases n,
{
    if n < 10 {
        seq![digit_char(n)]
    } else {
        decimal(n / 10).push(digit_char(n % 10))
    }
}

/// Decimal notation left-padded with zeros to at least `width` characters.
pub open spec fn zero_padded(n: nat, width: nat) -> Seq<char> {
    let d = decimal(n);
    if d.len() >= width {
        d
    } else {
        Seq::new((width - d.len()) as nat, |i: int| '0') + d
    }
}

pub fn digit_to_char(d: u64) -> (c: char)
    requires
        d < 10,
    ensures
        c == digit_char(d as nat),
{
    char_from_byte((d + 48) as u8)
}

/// Appends the decimal notation of `n`.
pub fn push_decimal(out: &mut Vec<char>, n: u64)
    ensures
        final(out)@ == old(out)@ + decimal(n as nat),
    decreases n,
{
    if n < 10 {
        out.push(digit_to_char(n));
        assert(decimal(n as nat) == seq![digit_char(n as nat)]);
    } else {
        push_decimal(out, n / 10);
        out.push(digit_to_char(n % 10));
        assert(decimal(n as nat) == decimal((n / 10) as nat).push(digit_char((n % 10) as nat)));
    }
}

pub proof fn lemma_decimal_len(n: nat)
    ensures
        decimal(n).len() >= 1,
        n < 10 ==> decimal(n).len() == 1,
        10 <= n < 100 ==> decimal(n).len() == 2,
    decreases n,
{
    if n >= 10 {
        lemma_decimal_len(n / 10);
    }
}

proof fn lemma_digit_char_value(d: nat)
    requires
        d < 10,
    ensures
        is_ascii_digit(digit_char(d)),
        digit_value(digit_char(d)) == d,
{
}

/// Decimal notation reads back as the number it writes.
pub proof fn lemma_decimal_digits(n: nat)
    ensures
        all_digits(decimal(n)),
        digits_value(decimal(n)) == n,
        decimal(n).len() >= 1,
    decreases n,
{
    if n < 10 {
        lemma_digit_char_value(n);
        let d = decimal(n);
        assert(d.drop_last() =~= Seq::<char>::empty());
        assert(d.last() == digit_char(n));
        assert(digits_value(d.drop_last()) == 0);
        assert(digits_value(d) == digits_value(d.drop_last()) * 10 + digit_value(d.last()));
    } else {
        lemma_decimal_digits(n / 10);
        lemma_digit_char_value(n % 10);
        let d = decimal(n);
        assert(d.drop_last() == decimal(n / 10));
        assert(d.last() == digit_char(n % 10));
        assert(digits_value(d) == digits_value(d.drop_last()) * 10 + digit_value(d.last()));
        assert((n / 10) * 10 + n % 10 == n);
        assert forall|i: int| 0 <= i < d.len() implies is_ascii_digit(#[trigger] d[i]) by {
            if i < d.len() - 1 {
                assert(d[i] == decimal(n / 10)[i]);
            }
        }
    }
}

proof fn lemma_zeros_value(z: Seq<char>)
    requires
        forall|i: int| 0 <= i < z.len() ==> z[i] == '0',
    ensures
        digits_value(z) == 0,
    decreases z.len(),
{
    if z.len() > 0 {
        lemma_zeros_value(z.drop_last());
    }
}

proof fn lemma_leading_zeros(z: Seq<char>, d: Seq<char>)
    requires
        forall|i: int| 0 <= i < z.len() ==> z[i] == '0',
    ensures
        digits_value(z + d) == digits_value(d),
    decreases d.len(),
{
    if d.len() == 0 {
        assert(z + d =~= z);
        lemma_zeros_value(z);
    } else {
        lemma_leading_zeros(z, d.drop_last());
        assert((z + d).drop_last() =~= z + d.drop_last());
    }
}

/// Zero-padded decimal notation reads back as the number it writes.
pub proof fn lemma_zero_padded_digits(n: nat, w: nat)
    ensures
        all_digits(zero_padded(n, w)),
        digits_value(zero_padded(n, w)) == n,
        zero_padded(n, w).len() >= 1,
        zero_padded(n, w).len() >= w,
        n < 100 && w == 2 ==> zero_padded(n, w).len() == 2,
{
    lemma_decimal_digits(n);
    lemma_decimal_len(n);
    let d = decimal(n);
    if d.len() < w {
        let z = Seq::new((w - d.len()) as nat, |i: int| '0');
        lemma_leading_zeros(z, d);
        let p = zero_padded(n, w);
        assert(p == z + d);
        assert forall|i: int| 0 <= i < p.len() implies is_ascii_digit(#[trigger] p[i]) by {
            if i < z.len() {
                assert(p[i] == '0');
            } else {
                assert(p[i] == d[i - z.len()]);
            }
        }
    }
}

/// Appends the decimal notation of `n`, left-padded with zeros to `width` characters.
pub fn push_zero_padded(out: &mut Vec<char>, n: u64, width: usize)
    ensures
        final(out)@ == old(out)@ + zero_padded(n as nat, width as nat),
{
    let mut digits: Vec<char> = Vec::new();
    push_decimal(&mut digits, n);
    assert(digits@ == decimal(n as nat));
    let ghost start = out@;
    if digits.len() < width {
        let pad = width - digits.len();
        let mut i: usize = 0;
        while i < pad
            invariant
                i <= pad,
                out@ == start + Seq::new(i as nat, |k: int| '0'),
            decreases pad - i,
        {
            out.push('0');
            i += 1;
            assert(Seq::new(i as nat, |k: int| '0') =~= Seq::new((i - 1) as nat, |k: int| '0').push(
                '0',
            ));
        }
        extend_chars(out, digits.as_slice());
        assert(out@ =~= start + zero_padded(n as nat, width as nat));
    } else {
        extend_chars(out, digits.as_slice());
    }
}

} // verus!
