use crate::text::{
    char_is_alphanumeric, char_to_lowercase, unicode_alphanumeric, unicode_lowercase,
    char_is_control, char_is_whitespace, chars_eq, chars_of, extend_chars, extend_str, is_alnum,
    is_ascii_alphanumeric, is_control_char, is_white_space, lower_chars, lower_seq,
    starts_with_chars, string_from_chars, sub_chars, trim, trim_chars, trim_start, trim_start_chars,
};
use vstd::prelude::*;
use vstd::string::*;

verus! {

pub const APP_DIR: &'static str = "tunetui";

pub const STATE_FILE: &'static str = "state.json";

pub const STATS_FILE: &'static str = "stats.json";

pub const LYRICS_DIR: &'static str = "lyrics";

/// Invisible formatting characters that copy-pasted paths pick up: zero-width spaces and
/// joiners, directional marks and isolates, and the byte-order mark.
pub open spec fn is_hidden_format_char(c: char) -> bool {
    let u = c as u32;
    ||| 0x200B <= u <= 0x200F
    ||| 0x202A <= u <= 0x202E
    ||| 0x2066 <= u <= 0x2069
    ||| u == 0xFEFF
}

/// Bullet characters that list copies put in front of paths.
pub open spec fn is_bullet(c: char) -> bool {
    c == '•' || c == '●' || c == '◦' || c == '▪'
}

pub open spec fn keep_for_display(c: char) -> bool {
    !is_control_char(c) && !is_hidden_format_char(c)
}

/// The text without control characters and invisible formatting characters.
pub open spec fn display_text(s: Seq<char>) -> Seq<char>
    decreases s.len(),
{
    if s.len() == 0 {
        seq![]
    } else if keep_for_display(s.last()) {
        display_text(s.drop_last()).push(s.last())
    } else {
        display_text(s.drop_last())
    }
}

fn is_hidden_format(c: char) -> (r: bool)
    ensures
        r == is_hidden_format_char(c),
{
    let u = c as u32;
    (0x200B <= u && u <= 0x200F) || (0x202A <= u && u <= 0x202E) || (0x2066 <= u && u <= 0x2069)
        || u == 0xFEFF
}

fn bullet(c: char) -> (r: bool)
    ensures
        r == is_bullet(c),
{
    c == '•' || c == '●' || c == '◦' || c == '▪'
}

pub fn sanitize_display_chars(s: &[char]) -> (out: Vec<char>)
    ensures
        out@ == display_text(s@),
{
    let mut out: Vec<char> = Vec::new();
    let mut i: usize = 0;
    while i < s.len()
        invariant
            i <= s.len(),
            out@ == display_text(s@.take(i as int)),
        decreases s.len() - i,
    {
        assert(s@.take(i + 1).drop_last() =~= s@.take(i as int));
        let c = s[i];
        if !char_is_control(c) && !is_hidden_format(c) {
            out.push(c);
        }
        i += 1;
    }
    assert(s@.take(s.len() as int) =~= s@);
    out
}

/// Removes control characters and invisible formatting characters.
pub fn sanitize_display_text(input: &str) -> (out: String)
    ensures
        out@ == display_text(input@),
{
    let cs = chars_of(input);
    let out = sanitize_display_chars(cs.as_slice());
    string_from_chars(out.as_slice())
}

/// Removes bullet characters anywhere, together with the white space that follows each.
/// The state says whether white space is being skipped after a bullet.
pub open spec fn strip_markers_state(s: Seq<char>) -> (Seq<char>, bool)
    decreases s.len(),
{
    if s.len() == 0 {
        (seq![], false)
    } else {
        let (prev, skipping) = strip_markers_state(s.drop_last());
        let c = s.last();
        if skipping && is_white_space(c) {
            (prev, true)
        } else if is_bullet(c) {
            (prev, true)
        } else {
            (prev.push(c), false)
        }
    }
}

pub open spec fn strip_markers(s: Seq<char>) -> Seq<char> {
    strip_markers_state(s).0
}

pub fn strip_copy_markers_chars(s: &[char]) -> (out: Vec<char>)
    ensures
        out@ == strip_markers(s@),
{
    let mut out: Vec<char> = Vec::new();
    let mut skipping = false;
    let mut i: usize = 0;
    while i < s.len()
        invariant
            i <= s.len(),
            (out@, skipping) == strip_markers_state(s@.take(i as int)),
        decreases s.len() - i,
    {
        assert(s@.take(i + 1).drop_last() =~= s@.take(i as int));
        let c = s[i];
        if skipping && char_is_whitespace(c) {
        } else if bullet(c) {
            skipping = true;
        } else {
            out.push(c);
            skipping = false;
        }
        i += 1;
    }
    assert(s@.take(s.len() as int) =~= s@);
    out
}

pub fn strip_copy_markers_anywhere(input: &str) -> (out: String)
    ensures
        out@ == strip_markers(input@),
{
    let cs = chars_of(input);
    let out = strip_copy_markers_chars(cs.as_slice());
    string_from_chars(out.as_slice())
}

/// Leading byte-order marks removed.
pub open spec fn trim_bom(s: Seq<char>) -> Seq<char>
    decreases s.len(),
{
    if s.len() > 0 && s[0] == '\u{feff}' {
        trim_bom(s.drop_first())
    } else {
        s
    }
}

/// A folder path as typed or pasted: trimmed, leading byte-order marks and bullet
/// characters (with the white space after them) removed, and a `* ` or `- ` list marker
/// dropped when white space follows it.
pub open spec fn sanitized_folder(s: Seq<char>) -> Seq<char> {
    let cleaned = strip_markers(trim_bom(trim(s)));
    if cleaned.len() >= 2 && (cleaned[0] == '*' || cleaned[0] == '-') && is_white_space(
        cleaned[1],
    ) {
        trim_start(cleaned.drop_first())
    } else {
        cleaned
    }
}

fn trim_bom_chars(s: &[char]) -> (out: Vec<char>)
    ensures
        out@ == trim_bom(s@),
{
    let mut i: usize = 0;
    assert(s@.skip(0) == s@);
    while i < s.len() && s[i] == '\u{feff}'
        invariant
            i <= s.len(),
            trim_bom(s@) == trim_bom(s@.skip(i as int)),
        decreases s.len() - i,
    {
        assert(s@.skip(i as int).drop_first() == s@.skip(i + 1));
        i += 1;
    }
    assert(s@.skip(i as int) == s@.subrange(i as int, s.len() as int));
    sub_chars(s, i, s.len())
}

pub fn sanitize_user_folder_path(path: &str) -> (out: String)
    ensures
        out@ == sanitized_folder(path@),
{
    let raw = chars_of(path);
    let t = trim_chars(raw.as_slice());
    let b = trim_bom_chars(t.as_slice());
    let cleaned = strip_copy_markers_chars(b.as_slice());
    if cleaned.len() >= 2 && (cleaned[0] == '*' || cleaned[0] == '-') && char_is_whitespace(
        cleaned[1],
    ) {
        let rest = sub_chars(cleaned.as_slice(), 1, cleaned.len());
        assert(rest@ == cleaned@.drop_first());
        let out = trim_start_chars(rest.as_slice());
        return string_from_chars(out.as_slice());
    }
    string_from_chars(cleaned.as_slice())
}

/// `\\?\UNC\server\share` becomes `\\server\share`, `\\?\C:\x` becomes `C:\x`.
pub open spec fn without_verbatim_prefix(s: Seq<char>) -> Seq<char> {
    if s.len() >= 8 && s.take(8) == "\\\\?\\UNC\\"@ {
        "\\\\"@ + s.skip(8)
    } else if s.len() >= 4 && s.take(4) == "\\\\?\\"@ {
        s.skip(4)
    } else {
        s
    }
}

/// The characters of a path without a Windows verbatim prefix.
pub fn strip_verbatim_chars(cs: &[char]) -> (out: Vec<char>)
    ensures
        out@ == without_verbatim_prefix(cs@),
{
    let unc = chars_of("\\\\?\\UNC\\");
    let plain = chars_of("\\\\?\\");
    proof {
        reveal_strlit("\\\\?\\UNC\\");
        reveal_strlit("\\\\?\\");
    }
    if starts_with_chars(cs, unc.as_slice()) {
        let mut out = chars_of("\\\\");
        let rest = sub_chars(cs, 8, cs.len());
        extend_chars(&mut out, rest.as_slice());
        assert(rest@ == cs@.skip(8));
        return out;
    }
    if starts_with_chars(cs, plain.as_slice()) {
        let rest = sub_chars(cs, 4, cs.len());
        assert(rest@ == cs@.skip(4));
        return rest;
    }
    sub_chars(cs, 0, cs.len())
}

pub fn strip_windows_verbatim_prefix(path: &str) -> (out: String)
    ensures
        out@ == without_verbatim_prefix(path@),
{
    let cs = chars_of(path);
    let out = strip_verbatim_chars(cs.as_slice());
    string_from_chars(out.as_slice())
}

pub open spec fn stem_char(c: char) -> Option<char> {
    if is_ascii_alphanumeric(c) || c == '-' || c == '_' {
        Some(c)
    } else if c == ' ' || c == '\t' || c == '\n' || c == '\u{c}' || c == '\r' {
        Some('_')
    } else {
        None
    }
}

/// A file-name-safe stem: ASCII letters, digits, `-` and `_` kept, ASCII white space turned
/// into `_`, everything else dropped, and no more than 40 characters.
pub open spec fn lyrics_stem(s: Seq<char>) -> Seq<char>
    decreases s.len(),
{
    if s.len() == 0 {
        seq![]
    } else {
        let prev = lyrics_stem(s.drop_last());
        if prev.len() >= 40 {
            prev
        } else {
            match stem_char(s.last()) {
                Some(c) => prev.push(c),
                None => prev,
            }
        }
    }
}

pub fn sanitize_lyrics_stem(input: &str) -> (out: String)
    ensures
        out@ == lyrics_stem(input@),
        out@.len() <= 40,
{
    let s = chars_of(input);
    let mut out: Vec<char> = Vec::new();
    let mut i: usize = 0;
    while i < s.len()
        invariant
            i <= s.len(),
            s@ == input@,
            out@ == lyrics_stem(s@.take(i as int)),
            out@.len() <= 40,
        decreases s.len() - i,
    {
        assert(s@.take(i + 1).drop_last() =~= s@.take(i as int));
        if out.len() >= 40 {
            proof {
                lemma_lyrics_stem_full(s@, i as int);
            }
            return string_from_chars(out.as_slice());
        }
        let c = s[i];
        if is_alnum(c) || c == '-' || c == '_' {
            out.push(c);
        } else if c == ' ' || c == '\t' || c == '\n' || c == '\u{c}' || c == '\r' {
            out.push('_');
        }
        i += 1;
    }
    assert(s@.take(s.len() as int) =~= s@);
    string_from_chars(out.as_slice())
}

proof fn lemma_lyrics_stem_full(s: Seq<char>, i: int)
    requires
        0 <= i <= s.len(),
        lyrics_stem(s.take(i)).len() >= 40,
    ensures
        lyrics_stem(s) == lyrics_stem(s.take(i)),
    decreases s.len() - i,
{
    if i < s.len() {
        assert(s.take(i + 1).drop_last() =~= s.take(i));
        lemma_lyrics_stem_full(s, i + 1);
    } else {
        assert(s.take(i) =~= s);
    }
}


pub const FNV_OFFSET_BASIS: u64 = 0xcbf29ce484222325;

pub const FNV_PRIME: u64 = 0x100000001b3;

/// 64-bit FNV-1a over a byte sequence.
pub open spec fn fnv1a(bytes: Seq<u8>) -> u64
    decreases bytes.len(),
{
    if bytes.len() == 0 {
        FNV_OFFSET_BASIS
    } else {
        (fnv1a(bytes.drop_last()) ^ (bytes.last() as u64)).wrapping_mul(FNV_PRIME)
    }
}

/// FNV-1a over the UTF-8 encoding of the text: stable across runs and machines.
pub fn stable_fnv1a_64(input: &str) -> (h: u64)
    ensures
        h == fnv1a(input.spec_bytes()),
{
    let bytes = input.as_bytes();
    let mut hash: u64 = FNV_OFFSET_BASIS;
    let mut i: usize = 0;
    while i < bytes.len()
        invariant
            i <= bytes.len(),
            bytes@ == input.spec_bytes(),
            hash == fnv1a(bytes@.take(i as int)),
        decreases bytes.len() - i,
    {
        assert(bytes@.take(i + 1).drop_last() =~= bytes@.take(i as int));
        hash = (hash ^ (bytes[i] as u64)).wrapping_mul(FNV_PRIME);
        i += 1;
    }
    assert(bytes@.take(bytes.len() as int) =~= bytes@);
    hash
}

pub open spec fn hex_digit(d: nat) -> char {
    if d < 10 {
        ((d + 48) as u32) as char
    } else {
        ((d + 87) as u32) as char
    }
}

/// The lowest `k` hexadecimal digits of `n`, lower case, most significant first.
pub open spec fn hex_digits(n: nat, k: nat) -> Seq<char>
    decreases k,
{
    if k == 0 {
        seq![]
    } else {
        hex_digits(n / 16, (k - 1) as nat).push(hex_digit(n % 16))
    }
}

fn push_hex_digits(out: &mut Vec<char>, n: u64, k: usize)
    ensures
        final(out)@ == old(out)@ + hex_digits(n as nat, k as nat),
    decreases k,
{
    if k == 0 {
        assert(old(out)@ + hex_digits(n as nat, 0) =~= old(out)@);
        return ;
    }
    push_hex_digits(out, n / 16, k - 1);
    let d = n % 16;
    let c = if d < 10 {
        crate::text::char_from_byte((d + 48) as u8)
    } else {
        crate::text::char_from_byte((d + 87) as u8)
    };
    out.push(c);
}

/// `{stem}-{hash:016x}.lrc`: the track's sanitized file stem (or `track`) and the FNV-1a
/// hash of its normalized path with invisible characters removed.
pub open spec fn lyrics_file_name_spec(normalized_path: Seq<char>, file_stem: Option<Seq<char>>) -> Seq<char> {
    let stem = match file_stem {
        Some(st) => if lyrics_stem(st).len() > 0 {
            lyrics_stem(st)
        } else {
            "track"@
        },
        None => "track"@,
    };
    stem + "-"@ + hex_digits(fnv1a(vstd::utf8::encode_utf8(display_text(normalized_path))) as nat, 16)
        + ".lrc"@
}

/// The file name of a track's lyrics sidecar, from its normalized path and its file stem.
pub fn lyrics_file_name(normalized_path: &str, file_stem: Option<&str>) -> (out: String)
    ensures
        out@ == lyrics_file_name_spec(
            normalized_path@,
            match file_stem {
                Some(s) => Some(s@),
                None => None,
            },
        ),
{
    let display = sanitize_display_text(normalized_path);
    let hash = stable_fnv1a_64(display.as_str());
    let mut out: Vec<char> = match file_stem {
        Some(st) => {
            let stem = sanitize_lyrics_stem(st);
            if stem.as_str().unicode_len() > 0 {
                chars_of(stem.as_str())
            } else {
                chars_of("track")
            }
        },
        None => chars_of("track"),
    };
    extend_str(&mut out, "-");
    push_hex_digits(&mut out, hash, 16);
    extend_str(&mut out, ".lrc");
    string_from_chars(out.as_slice())
}

/// Text of a path component for loose comparison: invisible characters and bullets
/// removed, trimmed, ASCII lower case.
pub open spec fn component_clean(s: Seq<char>) -> Seq<char> {
    lower_seq(trim(strip_markers(display_text(s))))
}

pub fn clean_component_for_compare(input: &str) -> (out: Vec<char>)
    ensures
        out@ == component_clean(input@),
{
    let cs = chars_of(input);
    let d = sanitize_display_chars(cs.as_slice());
    let m = strip_copy_markers_chars(d.as_slice());
    let t = trim_chars(m.as_slice());
    lower_chars(t.as_slice())
}


/// The cleaned component lower-cased by Unicode rules, keeping letters and digits only.
pub open spec fn key_of(s: Seq<char>) -> Seq<char>
    decreases s.len(),
{
    if s.len() == 0 {
        seq![]
    } else {
        key_of(s.drop_last()) + keep_alphanumeric(unicode_lowercase(s.last()))
    }
}

pub open spec fn keep_alphanumeric(s: Seq<char>) -> Seq<char>
    decreases s.len(),
{
    if s.len() == 0 {
        seq![]
    } else if unicode_alphanumeric(s.last()) {
        keep_alphanumeric(s.drop_last()).push(s.last())
    } else {
        keep_alphanumeric(s.drop_last())
    }
}

pub open spec fn component_key(s: Seq<char>) -> Seq<char> {
    key_of(component_clean(s))
}

fn keep_alphanumeric_chars(s: &[char]) -> (out: Vec<char>)
    ensures
        out@ == keep_alphanumeric(s@),
{
    let mut out: Vec<char> = Vec::new();
    let mut i: usize = 0;
    while i < s.len()
        invariant
            i <= s.len(),
            out@ == keep_alphanumeric(s@.take(i as int)),
        decreases s.len() - i,
    {
        assert(s@.take(i + 1).drop_last() =~= s@.take(i as int));
        if char_is_alphanumeric(s[i]) {
            out.push(s[i]);
        }
        i += 1;
    }
    assert(s@.take(s.len() as int) =~= s@);
    out
}

pub fn component_match_key(input: &str) -> (out: Vec<char>)
    ensures
        out@ == component_key(input@),
{
    let clean = clean_component_for_compare(input);
    let mut out: Vec<char> = Vec::new();
    let mut i: usize = 0;
    while i < clean.len()
        invariant
            i <= clean.len(),
            out@ == key_of(clean@.take(i as int)),
        decreases clean.len() - i,
    {
        assert(clean@.take(i + 1).drop_last() =~= clean@.take(i as int));
        let lowered = char_to_lowercase(clean[i]);
        let kept = keep_alphanumeric_chars(lowered.as_slice());
        extend_chars(&mut out, kept.as_slice());
        i += 1;
    }
    assert(clean@.take(clean.len() as int) =~= clean@);
    out
}

/// A directory entry as listed: its name, and whether it is a directory (`None` when its
/// file type could not be read).
#[derive(Debug)]
pub struct ChildEntry {
    pub name: String,
    pub is_dir: Option<bool>,
}

/// How a listed name matches a path component: 1 equal ignoring ASCII case, 2 equal once
/// cleaned, 3 equal by letters and digits, 0 no match.
pub open spec fn match_class(name: Seq<char>, target: Seq<char>) -> int {
    if lower_seq(name) == lower_seq(target) {
        1
    } else if component_clean(target).len() > 0 && component_clean(name).len() > 0
        && component_clean(name) == component_clean(target) {
        2
    } else if component_key(target).len() > 0 && component_key(name).len() > 0 && component_key(
        name,
    ) == component_key(target) {
        3
    } else {
        0
    }
}

/// Whether the entry is of the wanted kind.
pub open spec fn kind_ok(e: (Seq<char>, Option<bool>), want_dir: Option<bool>) -> bool {
    match want_dir {
        None => true,
        Some(w) => e.1 == Some(w),
    }
}

/// Names of the wanted kind that match in the given class, in listing order.
pub open spec fn class_matches(
    entries: Seq<(Seq<char>, Option<bool>)>,
    target: Seq<char>,
    want_dir: Option<bool>,
    class: int,
) -> Seq<Seq<char>>
    decreases entries.len(),
{
    if entries.len() == 0 {
        seq![]
    } else {
        let prev = class_matches(entries.drop_last(), target, want_dir, class);
        let e = entries.last();
        if kind_ok(e, want_dir) && match_class(e.0, target) == class {
            prev.push(e.0)
        } else {
            prev
        }
    }
}

/// A directory child that stands for a damaged path component: the only entry of the
/// wanted kind equal ignoring ASCII case, else the only one equal once cleaned, else the
/// only one equal by letters and digits. An entry whose kind cannot be read makes the
/// search fail when a kind is wanted.
pub open spec fn matching_child(
    entries: Seq<(Seq<char>, Option<bool>)>,
    target: Seq<char>,
    want_dir: Option<bool>,
) -> Option<Seq<char>> {
    if want_dir is Some && exists|i: int| 0 <= i < entries.len() && (#[trigger] entries[i]).1 is None {
        None
    } else if class_matches(entries, target, want_dir, 1).len() == 1 {
        Some(class_matches(entries, target, want_dir, 1)[0])
    } else if class_matches(entries, target, want_dir, 2).len() == 1 {
        Some(class_matches(entries, target, want_dir, 2)[0])
    } else if class_matches(entries, target, want_dir, 3).len() == 1 {
        Some(class_matches(entries, target, want_dir, 3)[0])
    } else {
        None
    }
}

pub open spec fn entries_view(v: Seq<ChildEntry>) -> Seq<(Seq<char>, Option<bool>)> {
    v.map_values(|e: ChildEntry| (e.name@, e.is_dir))
}

fn classify_child(name: &str, target: &str, target_clean: &Vec<char>, target_key: &Vec<char>) -> (r: u8)
    requires
        target_clean@ == component_clean(target@),
        target_key@ == component_key(target@),
    ensures
        r as int == match_class(name@, target@),
{
    let n = chars_of(name);
    let t = chars_of(target);
    let ln = lower_chars(n.as_slice());
    let lt = lower_chars(t.as_slice());
    if chars_eq(ln.as_slice(), lt.as_slice()) {
        return 1;
    }
    let name_clean = clean_component_for_compare(name);
    if target_clean.len() > 0 && name_clean.len() > 0 && chars_eq(
        name_clean.as_slice(),
        target_clean.as_slice(),
    ) {
        return 2;
    }
    if target_key.len() > 0 {
        let name_key = component_match_key(name);
        if name_key.len() > 0 && chars_eq(name_key.as_slice(), target_key.as_slice()) {
            return 3;
        }
    }
    0
}

pub fn find_matching_child(target: &str, entries: &[ChildEntry], want_dir: Option<bool>) -> (r:
    Option<String>)
    ensures
        match r {
            Some(name) => matching_child(entries_view(entries@), target@, want_dir) == Some(
                name@,
            ),
            None => matching_child(entries_view(entries@), target@, want_dir) is None,
        },
{
    let ghost ev = entries_view(entries@);
    let target_clean = clean_component_for_compare(target);
    let target_key = component_match_key(target);
    let mut exact: Vec<String> = Vec::new();
    let mut clean: Vec<String> = Vec::new();
    let mut key: Vec<String> = Vec::new();
    let mut i: usize = 0;
    while i < entries.len()
        invariant
            i <= entries.len(),
            ev == entries_view(entries@),
            target_clean@ == component_clean(target@),
            target_key@ == component_key(target@),
            exact@.map_values(|s: String| s@) == class_matches(ev.take(i as int), target@, want_dir, 1),
            clean@.map_values(|s: String| s@) == class_matches(ev.take(i as int), target@, want_dir, 2),
            key@.map_values(|s: String| s@) == class_matches(ev.take(i as int), target@, want_dir, 3),
            want_dir is Some ==> forall|k: int| 0 <= k < i ==> (#[trigger] ev[k]).1 is Some,
        decreases entries.len() - i,
    {
        assert(ev.take(i + 1).drop_last() =~= ev.take(i as int));
        assert(ev.take(i + 1).last() == ev[i as int]);
        let entry = &entries[i];
        let mut relevant = true;
        match want_dir {
            Some(expected) => match entry.is_dir {
                None => {
                    assert(ev[i as int].1 is None);
                    return None;
                },
                Some(d) => {
                    if d != expected {
                        relevant = false;
                    }
                },
            },
            None => {},
        }
        if relevant {
            let class = classify_child(entry.name.as_str(), target, &target_clean, &target_key);
            let ghost e1 = exact@.map_values(|s: String| s@);
            let ghost e2 = clean@.map_values(|s: String| s@);
            let ghost e3 = key@.map_values(|s: String| s@);
            if class == 1 {
                exact.push(entry.name.clone());
                assert(exact@.map_values(|s: String| s@) =~= e1.push(entry.name@));
            } else if class == 2 {
                clean.push(entry.name.clone());
                assert(clean@.map_values(|s: String| s@) =~= e2.push(entry.name@));
            } else if class == 3 {
                key.push(entry.name.clone());
                assert(key@.map_values(|s: String| s@) =~= e3.push(entry.name@));
            }
        }
        i += 1;
    }
    assert(ev.take(entries.len() as int) =~= ev);
    if exact.len() == 1 {
        return Some(exact[0].clone());
    }
    if clean.len() == 1 {
        return Some(clean[0].clone());
    }
    if key.len() == 1 {
        return Some(key[0].clone());
    }
    None
}


// ---------------------------------------------------------------------------
// Where the configuration lives
// ---------------------------------------------------------------------------

#[derive(Debug, Clone, Copy, PartialEq, Eq, Structural)]
pub enum ConfigError {
    /// No override is set and no variable names a home directory (`XDG_CONFIG_HOME`,
    /// `USERPROFILE` or `HOME`).
    MissingHomeDirectory,
}

/// `base` joined with `name`: a `/` between them unless `base` is empty or already ends in a
/// path separator.
pub open spec fn joined(base: Seq<char>, name: Seq<char>) -> Seq<char> {
    if base.len() == 0 || base.last() == '/' || base.last() == '\\' {
        base + name
    } else {
        base + "/"@ + name
    }
}

pub fn join_path(base: &str, name: &str) -> (out: String)
    ensures
        out@ == joined(base@, name@),
{
    let mut out = chars_of(base);
    let n = out.len();
    if !(n == 0 || out[n - 1] == '/' || out[n - 1] == '\\') {
        extend_str(&mut out, "/");
    }
    extend_str(&mut out, name);
    string_from_chars(out.as_slice())
}

/// Whether an environment value is present and not blank.
pub open spec fn present(v: Option<Seq<char>>) -> bool {
    v matches Some(s) && trim(s).len() > 0
}

/// `.config/tunetui` under a home directory.
pub open spec fn dot_config_dir(home: Seq<char>) -> Seq<char> {
    joined(joined(home, ".config"@), "tunetui"@)
}

/// The configuration directory: the override when one is set; else `tunetui` under a
/// non-blank `XDG_CONFIG_HOME`; else `.config/tunetui` under `USERPROFILE` (Windows) when it
/// is set, whatever its value; else under a non-blank `HOME`.
pub open spec fn config_root_spec(
    override_dir: Option<Seq<char>>,
    userprofile: Option<Seq<char>>,
    xdg_config_home: Option<Seq<char>>,
    home: Option<Seq<char>>,
) -> Result<Seq<char>, ConfigError> {
    if override_dir is Some {
        Ok(override_dir->0)
    } else if present(xdg_config_home) {
        Ok(joined(xdg_config_home->0, "tunetui"@))
    } else if userprofile is Some {
        Ok(dot_config_dir(userprofile->0))
    } else if present(home) {
        Ok(dot_config_dir(home->0))
    } else {
        Err(ConfigError::MissingHomeDirectory)
    }
}

pub open spec fn opt_text(o: Option<&str>) -> Option<Seq<char>> {
    match o {
        Some(s) => Some(s@),
        None => None,
    }
}

fn present_text(v: Option<&str>) -> (r: bool)
    ensures
        r == present(opt_text(v)),
{
    match v {
        Some(s) => {
            let cs = chars_of(s);
            let t = trim_chars(cs.as_slice());
            t.len() > 0
        },
        None => false,
    }
}

fn dot_config_path(home: &str) -> (out: String)
    ensures
        out@ == dot_config_dir(home@),
{
    let c = join_path(home, ".config");
    join_path(c.as_str(), "tunetui")
}

/// The configuration directory, from the values of `TUNETUI_CONFIG_DIR`, `USERPROFILE`,
/// `XDG_CONFIG_HOME` and `HOME`.
pub fn config_root(
    override_dir: Option<&str>,
    userprofile: Option<&str>,
    xdg_config_home: Option<&str>,
    home: Option<&str>,
) -> (r: Result<String, ConfigError>)
    ensures
        match r {
            Ok(p) => config_root_spec(opt_text(override_dir), opt_text(userprofile), opt_text(xdg_config_home), opt_text(home))
                == Ok::<Seq<char>, ConfigError>(p@),
            Err(e) => config_root_spec(opt_text(override_dir), opt_text(userprofile), opt_text(xdg_config_home), opt_text(home))
                == Err::<Seq<char>, ConfigError>(e),
        },
{
    if let Some(d) = override_dir {
        return Ok(d.to_owned());
    }
    if present_text(xdg_config_home) {
        if let Some(x) = xdg_config_home {
            return Ok(join_path(x, "tunetui"));
        }
    }
    if let Some(u) = userprofile {
        return Ok(dot_config_path(u));
    }
    if present_text(home) {
        if let Some(h) = home {
            return Ok(dot_config_path(h));
        }
    }
    Err(ConfigError::MissingHomeDirectory)
}

pub fn state_path(config_root: &str) -> (out: String)
    ensures
        out@ == joined(config_root@, "state.json"@),
{
    join_path(config_root, STATE_FILE)
}

pub fn stats_path(config_root: &str) -> (out: String)
    ensures
        out@ == joined(config_root@, "stats.json"@),
{
    join_path(config_root, STATS_FILE)
}

pub fn lyrics_root(config_root: &str) -> (out: String)
    ensures
        out@ == joined(config_root@, "lyrics"@),
{
    join_path(config_root, LYRICS_DIR)
}

/// The lyrics sidecar of a track in the configuration's lyrics directory, from the track's
/// normalized path and its file stem.
pub fn lyrics_path_for_track(config_root: &str, normalized_path: &str, file_stem: Option<&str>) -> (out: String)
    ensures
        out@ == joined(
            joined(config_root@, "lyrics"@),
            lyrics_file_name_spec(normalized_path@, opt_text(file_stem)),
        ),
{
    let root = lyrics_root(config_root);
    let name = lyrics_file_name(normalized_path, file_stem);
    assert(opt_text(file_stem) == match file_stem {
        Some(s) => Some(s@),
        None => None::<Seq<char>>,
    });
    join_path(root.as_str(), name.as_str())
}

/// The paths tried, in order, when a saved path no longer exists: the path itself, the path
/// with invisible characters removed, and the path cleaned as a pasted folder path.
pub fn path_recovery_candidates(path: &str) -> (out: Vec<String>)
    ensures
        out@.len() == 3,
        out@[0]@ == path@,
        out@[1]@ == display_text(path@),
        out@[2]@ == sanitized_folder(path@),
{
    let mut out: Vec<String> = Vec::new();
    out.push(path.to_owned());
    out.push(sanitize_display_text(path));
    out.push(sanitize_user_folder_path(path));
    out
}

} // verus!
