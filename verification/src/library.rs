use crate::id3::{
    decode_latin1, frame_walk, frames_view, from_utf16_lossy, from_utf8_lossy, latin1, slice_to_vec,
    syncsafe, syncsafe_size, utf16_decode, utf16_units, utf16_units_of, utf8_lossy, walk_frames,
};
use crate::online::{text_opt};
use crate::text::{
    chars_eq, chars_of, extend_str, lower_chars, lower_seq, push_zero_padded, string_from_chars,
    sub_chars, trim, trim_chars, upper_chars, upper_seq, zero_padded,
};
use vstd::prelude::*;

verus! {

#[derive(Debug)]
pub struct MetadataEdit {
    pub title: Option<String>,
    pub artist: Option<String>,
    pub album: Option<String>,
}

impl Default for MetadataEdit {
    fn default() -> (r: Self)
        ensures
            r.title is None && r.artist is None && r.album is None,
    {
        MetadataEdit { title: None, artist: None, album: None }
    }
}

#[derive(Debug)]
pub struct MetadataSnapshot {
    pub title: Option<String>,
    pub artist: Option<String>,
    pub album: Option<String>,
}

impl Default for MetadataSnapshot {
    fn default() -> (r: Self)
        ensures
            r.title is None && r.artist is None && r.album is None,
    {
        MetadataSnapshot { title: None, artist: None, album: None }
    }
}

#[derive(Debug, Clone, Copy, PartialEq, Eq, Structural)]
pub enum AudioQualityRating {
    Unavailable,
    Red,
    Yellow,
    Green,
    Gold,
}

impl AudioQualityRating {
    pub fn label(self) -> (r: &'static str)
        ensures
            self == AudioQualityRating::Unavailable ==> r@ == "Unavailable"@,
            self == AudioQualityRating::Red ==> r@ == "Red"@,
            self == AudioQualityRating::Yellow ==> r@ == "Yellow"@,
            self == AudioQualityRating::Green ==> r@ == "Green"@,
            self == AudioQualityRating::Gold ==> r@ == "Gold *"@,
    {
        match self {
            AudioQualityRating::Unavailable => "Unavailable",
            AudioQualityRating::Red => "Red",
            AudioQualityRating::Yellow => "Yellow",
            AudioQualityRating::Green => "Green",
            AudioQualityRating::Gold => "Gold *",
        }
    }
}

#[derive(Debug)]
pub struct AudioQualitySnapshot {
    pub format_label: String,
    pub bitrate_kbps: Option<u32>,
    pub sample_rate_hz: Option<u32>,
    pub channels: Option<u8>,
    pub duration_seconds: Option<u32>,
    pub rating: AudioQualityRating,
    pub spectrograph_rows: Vec<String>,
}

/// Lossless files and files of at least 320 kbps are gold, below 128 kbps red, below
/// 256 kbps yellow, otherwise green; without a bitrate the rating is unavailable.
pub open spec fn quality_rating(bitrate_kbps: Option<u32>, lossless: bool) -> AudioQualityRating {
    match bitrate_kbps {
        None => AudioQualityRating::Unavailable,
        Some(b) => if lossless || b >= 320 {
            AudioQualityRating::Gold
        } else if b < 128 {
            AudioQualityRating::Red
        } else if b < 256 {
            AudioQualityRating::Yellow
        } else {
            AudioQualityRating::Green
        },
    }
}

pub fn classify_audio_quality(bitrate_kbps: Option<u32>, lossless: bool) -> (r: AudioQualityRating)
    ensures
        r == quality_rating(bitrate_kbps, lossless),
{
    let bitrate = match bitrate_kbps {
        Some(b) => b,
        None => return AudioQualityRating::Unavailable,
    };
    if lossless || bitrate >= 320 {
        return AudioQualityRating::Gold;
    }
    if bitrate < 128 {
        return AudioQualityRating::Red;
    }
    if bitrate < 256 {
        return AudioQualityRating::Yellow;
    }
    AudioQualityRating::Green
}

/// A better bitrate never gives a worse rating.
pub proof fn rating_is_monotone_in_bitrate(a: u32, b: u32, lossless: bool)
    requires
        a <= b,
    ensures
        rating_rank(quality_rating(Some(a), lossless)) <= rating_rank(
            quality_rating(Some(b), lossless),
        ),
{
}

pub open spec fn rating_rank(r: AudioQualityRating) -> int {
    match r {
        AudioQualityRating::Unavailable => 0,
        AudioQualityRating::Red => 1,
        AudioQualityRating::Yellow => 2,
        AudioQualityRating::Green => 3,
        AudioQualityRating::Gold => 4,
    }
}

/// A metadata value trimmed, or nothing when it is blank.
pub fn clean_metadata_value(value: &str) -> (r: Option<String>)
    ensures
        match r {
            Some(s) => trim(value@).len() > 0 && s@ == trim(value@),
            None => trim(value@).len() == 0,
        },
{
    let cs = chars_of(value);
    let t = trim_chars(cs.as_slice());
    if t.len() == 0 {
        None
    } else {
        Some(string_from_chars(t.as_slice()))
    }
}

pub open spec fn audio_extensions() -> Seq<Seq<char>> {
    seq!["mp3"@, "flac"@, "wav"@, "ogg"@, "m4a"@, "aac"@, "opus"@]
}

pub open spec fn lossless_extensions() -> Seq<Seq<char>> {
    seq!["wav"@, "flac"@, "aiff"@, "aif"@, "alac"@]
}

fn ext_in(lower_ext: &[char], list: &[&str]) -> (r: bool)
    ensures
        r == exists|k: int| 0 <= k < list@.len() && lower_ext@ == (#[trigger] list@[k])@,
{
    let mut k: usize = 0;
    while k < list.len()
        invariant
            k <= list.len(),
            forall|j: int| 0 <= j < k ==> lower_ext@ != (#[trigger] list@[j])@,
        decreases list.len() - k,
    {
        let item = chars_of(list[k]);
        if chars_eq(lower_ext, item.as_slice()) {
            return true;
        }
        k += 1;
    }
    false
}

/// Whether a file extension names a supported audio format (ASCII case ignored).
pub open spec fn is_audio_extension(ext: Seq<char>) -> bool {
    audio_extensions().contains(lower_seq(ext))
}

/// Whether the extension of a file marks it as audio the library scans.
pub fn is_audio(extension: Option<&str>) -> (r: bool)
    ensures
        r == match extension {
            Some(e) => is_audio_extension(e@),
            None => is_audio_extension(seq![]),
        },
{
    let e = match extension {
        Some(e) => chars_of(e),
        None => Vec::new(),
    };
    let lower = lower_chars(e.as_slice());
    let list: [&str; 7] = ["mp3", "flac", "wav", "ogg", "m4a", "aac", "opus"];
    proof {
        reveal_strlit("mp3");
        reveal_strlit("flac");
        reveal_strlit("wav");
        reveal_strlit("ogg");
        reveal_strlit("m4a");
        reveal_strlit("aac");
        reveal_strlit("opus");
    }
    let r = ext_in(lower.as_slice(), list.as_slice());
    proof {
        assert(list@ == seq!["mp3", "flac", "wav", "ogg", "m4a", "aac", "opus"]);
        if r {
            let k = choose|k: int| 0 <= k < list@.len() && lower@ == (#[trigger] list@[k])@;
            assert(audio_extensions()[k] == lower@);
        } else {
            assert forall|k: int| 0 <= k < audio_extensions().len() implies audio_extensions()[k]
                != lower@ by {
                assert(lower@ != list@[k]@);
            }
        }
    }
    r
}

/// Whether the extension marks a lossless format (ASCII case ignored).
pub fn is_lossless_path(extension: Option<&str>) -> (r: bool)
    ensures
        r == match extension {
            Some(e) => lossless_extensions().contains(lower_seq(e@)),
            None => false,
        },
{
    let e = match extension {
        Some(e) => chars_of(e),
        None => return false,
    };
    let lower = lower_chars(e.as_slice());
    let list: [&str; 5] = ["wav", "flac", "aiff", "aif", "alac"];
    proof {
        reveal_strlit("wav");
        reveal_strlit("flac");
        reveal_strlit("aiff");
        reveal_strlit("aif");
        reveal_strlit("alac");
    }
    let r = ext_in(lower.as_slice(), list.as_slice());
    proof {
        assert(list@ == seq!["wav", "flac", "aiff", "aif", "alac"]);
        if r {
            let k = choose|k: int| 0 <= k < list@.len() && lower@ == (#[trigger] list@[k])@;
            assert(lossless_extensions()[k] == lower@);
        } else {
            assert forall|k: int| 0 <= k < lossless_extensions().len() implies lossless_extensions()[k]
                != lower@ by {
                assert(lower@ != list@[k]@);
            }
        }
    }
    r
}

/// The extension in ASCII upper case, or `Unknown`.
pub fn format_label_for_path(extension: Option<&str>) -> (r: String)
    ensures
        r@ == match extension {
            Some(e) => upper_seq(e@),
            None => "Unknown"@,
        },
{
    match extension {
        Some(e) => {
            let cs = chars_of(e);
            let up = upper_chars(cs.as_slice());
            string_from_chars(up.as_slice())
        },
        None => {
            let cs = chars_of("Unknown");
            string_from_chars(cs.as_slice())
        },
    }
}

/// `mm:ss` for a spectrograph time axis.
pub fn format_spectro_time(total_seconds: u32) -> (r: String)
    ensures
        r@ == zero_padded((total_seconds / 60) as nat, 2) + ":"@ + zero_padded(
            (total_seconds % 60) as nat,
            2,
        ),
{
    let mut out: Vec<char> = Vec::new();
    push_zero_padded(&mut out, (total_seconds / 60) as u64, 2);
    extend_str(&mut out, ":");
    push_zero_padded(&mut out, (total_seconds % 60) as u64, 2);
    string_from_chars(out.as_slice())
}

/// The spectrograph shown when none could be drawn (the file could not be opened or
/// decoded, or held too little or only silent audio).
pub open spec fn unavailable_rows() -> Seq<Seq<char>> {
    seq!["(spectrograph unavailable)"@]
}

pub open spec fn rows_view(rows: Seq<String>) -> Seq<Seq<char>> {
    rows.map_values(|r: String| r@)
}

/// The spectrograph rows of a summary: the drawn rows, or the unavailable row when none
/// could be drawn.
pub fn spectrograph_or_unavailable(drawn: Option<Vec<String>>) -> (r: Vec<String>)
    ensures
        rows_view(r@) == match drawn {
            Some(rows) => rows_view(rows@),
            None => unavailable_rows(),
        },
{
    match drawn {
        Some(rows) => rows,
        None => {
            let v = vec![String::from_str("(spectrograph unavailable)")];
            assert(rows_view(v@) =~= unavailable_rows());
            v
        },
    }
}

/// The quality summary of a file from what its container reports: the format label from
/// the extension, the rating from the bitrate and losslessness, and the spectrograph drawn
/// from its audio (`None` when none could be drawn, as for a file that cannot be read).
pub fn audio_quality_snapshot(
    extension: Option<&str>,
    bitrate_kbps: Option<u32>,
    sample_rate_hz: Option<u32>,
    channels: Option<u8>,
    duration_seconds: Option<u32>,
    spectrograph: Option<Vec<String>>,
) -> (r: AudioQualitySnapshot)
    ensures
        r.format_label@ == match extension {
            Some(e) => upper_seq(e@),
            None => "Unknown"@,
        },
        r.rating == quality_rating(
            bitrate_kbps,
            match extension {
                Some(e) => lossless_extensions().contains(lower_seq(e@)),
                None => false,
            },
        ),
        r.bitrate_kbps == bitrate_kbps,
        r.sample_rate_hz == sample_rate_hz,
        r.channels == channels,
        r.duration_seconds == duration_seconds,
        rows_view(r.spectrograph_rows@) == match spectrograph {
            Some(rows) => rows_view(rows@),
            None => unavailable_rows(),
        },
{
    let format_label = format_label_for_path(extension);
    let lossless = is_lossless_path(extension);
    let rating = classify_audio_quality(bitrate_kbps, lossless);
    let spectrograph_rows = spectrograph_or_unavailable(spectrograph);
    AudioQualitySnapshot {
        format_label,
        bitrate_kbps,
        sample_rate_hz,
        channels,
        duration_seconds,
        rating,
        spectrograph_rows,
    }
}


// ---------------------------------------------------------------------------
// Tags read straight from ID3v2 frames
// ---------------------------------------------------------------------------

pub open spec fn trim_nul_start(s: Seq<char>) -> Seq<char>
    decreases s.len(),
{
    if s.len() > 0 && s[0] == '\0' {
        trim_nul_start(s.drop_first())
    } else {
        s
    }
}

pub open spec fn trim_nul_end(s: Seq<char>) -> Seq<char>
    decreases s.len(),
{
    if s.len() > 0 && s.last() == '\0' {
        trim_nul_end(s.drop_last())
    } else {
        s
    }
}

/// Code units up to, not including, the first zero unit.
pub open spec fn units_before_zero(u: Seq<u16>) -> Seq<u16>
    decreases u.len(),
{
    if u.len() == 0 || u[0] == 0 {
        seq![]
    } else {
        seq![u[0]] + units_before_zero(u.drop_first())
    }
}

/// UTF-16 text that ends at the first zero code unit.
pub open spec fn utf16_until_nul(bytes: Seq<u8>, big_endian: bool) -> Seq<char> {
    utf16_decode(units_before_zero(utf16_units(bytes, !big_endian)))
}

/// UTF-16 with an optional byte-order mark, little-endian without one.
pub open spec fn utf16_with_bom(bytes: Seq<u8>) -> Seq<char> {
    if bytes.len() >= 2 && bytes[0] == 0xFE && bytes[1] == 0xFF {
        utf16_until_nul(bytes.skip(2), true)
    } else if bytes.len() >= 2 && bytes[0] == 0xFF && bytes[1] == 0xFE {
        utf16_until_nul(bytes.skip(2), false)
    } else {
        utf16_until_nul(bytes, false)
    }
}

/// The text of an ID3 text frame payload `encoding | text`, with NUL characters and then
/// white space trimmed from both ends. Unknown encodings read the whole payload as UTF-8.
pub open spec fn id3_payload_text(p: Seq<u8>) -> Seq<char> {
    if p.len() == 0 {
        seq![]
    } else {
        let b = p.skip(1);
        let raw = if p[0] == 0 {
            latin1(b)
        } else if p[0] == 1 {
            utf16_with_bom(b)
        } else if p[0] == 2 {
            utf16_until_nul(b, true)
        } else if p[0] == 3 {
            utf8_lossy(b)
        } else {
            utf8_lossy(p)
        };
        trim(trim_nul_end(trim_nul_start(raw)))
    }
}

fn units_until_zero(units: &[u16]) -> (out: Vec<u16>)
    ensures
        out@ == units_before_zero(units@),
{
    let mut n: usize = 0;
    while n < units.len() && units[n] != 0
        invariant
            n <= units.len(),
            forall|k: int| 0 <= k < n ==> units@[k] != 0,
        decreases units.len() - n,
    {
        n += 1;
    }
    proof {
        lemma_units_before_zero(units@, n as int);
    }
    let mut out: Vec<u16> = Vec::new();
    let mut i: usize = 0;
    while i < n
        invariant
            i <= n <= units.len(),
            out@ == units@.take(i as int),
        decreases n - i,
    {
        out.push(units[i]);
        i += 1;
        assert(units@.take(i as int) =~= units@.take((i - 1) as int).push(units@[i - 1]));
    }
    out
}

proof fn lemma_units_before_zero(u: Seq<u16>, n: int)
    requires
        0 <= n <= u.len(),
        forall|k: int| 0 <= k < n ==> u[k] != 0,
        n == u.len() || u[n] == 0,
    ensures
        units_before_zero(u) == u.take(n),
    decreases n,
{
    if n > 0 {
        lemma_units_before_zero(u.drop_first(), n - 1);
        assert(seq![u[0]] + u.drop_first().take(n - 1) =~= u.take(n));
    } else {
        assert(u.take(0) =~= Seq::<u16>::empty());
    }
}

pub fn decode_utf16(bytes: &[u8], big_endian: bool) -> (r: String)
    ensures
        r@ == utf16_until_nul(bytes@, big_endian),
{
    let units = utf16_units_of(bytes, !big_endian);
    let kept = units_until_zero(units.as_slice());
    from_utf16_lossy(kept.as_slice())
}

pub fn decode_utf16_with_bom(bytes: &[u8]) -> (r: String)
    ensures
        r@ == utf16_with_bom(bytes@),
{
    if bytes.len() >= 2 {
        assert(bytes@.subrange(2, bytes@.len() as int) == bytes@.skip(2));
        if bytes[0] == 0xFE && bytes[1] == 0xFF {
            return decode_utf16(&bytes[2..bytes.len()], true);
        }
        if bytes[0] == 0xFF && bytes[1] == 0xFE {
            return decode_utf16(&bytes[2..bytes.len()], false);
        }
    }
    decode_utf16(bytes, false)
}

fn trim_nul_chars(s: &[char]) -> (out: Vec<char>)
    ensures
        out@ == trim_nul_end(trim_nul_start(s@)),
{
    let mut i: usize = 0;
    assert(s@.skip(0) == s@);
    while i < s.len() && s[i] == '\0'
        invariant
            i <= s.len(),
            trim_nul_start(s@) == trim_nul_start(s@.skip(i as int)),
        decreases s.len() - i,
    {
        assert(s@.skip(i as int).drop_first() == s@.skip(i + 1));
        i += 1;
    }
    let mut j = s.len();
    assert(s@.skip(i as int) =~= s@.subrange(i as int, s.len() as int));
    while j > i && s[j - 1] == '\0'
        invariant
            i <= j <= s.len(),
            trim_nul_end(s@.subrange(i as int, s.len() as int)) == trim_nul_end(
                s@.subrange(i as int, j as int),
            ),
        decreases j - i,
    {
        assert(s@.subrange(i as int, j as int).drop_last() =~= s@.subrange(i as int, j - 1));
        j -= 1;
    }
    sub_chars(s, i, j)
}

/// The text of an ID3 text frame payload.
pub fn decode_id3_text(payload: &[u8]) -> (r: String)
    ensures
        r@ == id3_payload_text(payload@),
{
    if payload.len() == 0 {
        return String::new();
    }
    let encoding = payload[0];
    let bytes = &payload[1..payload.len()];
    assert(bytes@ == payload@.skip(1));
    let text = if encoding == 0 {
        let cs = decode_latin1(bytes);
        string_from_chars(cs.as_slice())
    } else if encoding == 1 {
        decode_utf16_with_bom(bytes)
    } else if encoding == 2 {
        decode_utf16(bytes, true)
    } else if encoding == 3 {
        from_utf8_lossy(bytes)
    } else {
        from_utf8_lossy(payload)
    };
    let cs = chars_of(text.as_str());
    let n = trim_nul_chars(cs.as_slice());
    let t = trim_chars(n.as_slice());
    string_from_chars(t.as_slice())
}

/// The tag body of a file that starts with an ID3v2 header and holds the whole tag.
pub open spec fn full_tag_body(bytes: Seq<u8>) -> Option<Seq<u8>> {
    if bytes.len() >= 10 && bytes[0] == 0x49 && bytes[1] == 0x44 && bytes[2] == 0x33 && 10
        + syncsafe(bytes[6], bytes[7], bytes[8], bytes[9]) <= bytes.len() {
        Some(bytes.subrange(10, 10 + syncsafe(bytes[6], bytes[7], bytes[8], bytes[9]) as int))
    } else {
        None
    }
}

pub open spec fn is_title_id(id: Seq<u8>) -> bool {
    id == seq![0x54u8, 0x49, 0x54, 0x32] || id == seq![0x54u8, 0x54, 0x32]
}

pub open spec fn is_artist_id(id: Seq<u8>) -> bool {
    id == seq![0x54u8, 0x50, 0x45, 0x31] || id == seq![0x54u8, 0x50, 0x31]
}

pub open spec fn is_album_id(id: Seq<u8>) -> bool {
    id == seq![0x54u8, 0x41, 0x4C, 0x42] || id == seq![0x54u8, 0x41, 0x4C]
}

pub struct TagTexts {
    pub title: Option<Seq<char>>,
    pub artist: Option<Seq<char>>,
    pub album: Option<Seq<char>>,
}

/// Title, artist and album from the text frames, in order; a later non-empty frame of a
/// kind replaces an earlier one.
pub open spec fn text_frames_fold(frames: Seq<(Seq<u8>, Seq<u8>)>) -> TagTexts
    decreases frames.len(),
{
    if frames.len() == 0 {
        TagTexts { title: None, artist: None, album: None }
    } else {
        let prev = text_frames_fold(frames.drop_last());
        let (id, payload) = frames.last();
        let text = id3_payload_text(payload);
        if text.len() == 0 {
            prev
        } else if is_title_id(id) {
            TagTexts { title: Some(text), ..prev }
        } else if is_artist_id(id) {
            TagTexts { artist: Some(text), ..prev }
        } else if is_album_id(id) {
            TagTexts { album: Some(text), ..prev }
        } else {
            prev
        }
    }
}

pub open spec fn id3v2_texts(bytes: Seq<u8>) -> TagTexts {
    match full_tag_body(bytes) {
        None => TagTexts { title: None, artist: None, album: None },
        Some(tag) => text_frames_fold(frame_walk(tag, bytes[3])),
    }
}

pub open spec fn snapshot_texts(m: MetadataSnapshot) -> TagTexts {
    TagTexts { title: text_opt(m.title), artist: text_opt(m.artist), album: text_opt(m.album) }
}

fn bytes_are(a: &[u8], b: &[u8]) -> (r: bool)
    ensures
        r == (a@ == b@),
{
    if a.len() != b.len() {
        return false;
    }
    let mut i: usize = 0;
    while i < a.len()
        invariant
            a.len() == b.len(),
            i <= a.len(),
            forall|k: int| 0 <= k < i ==> a@[k] == b@[k],
        decreases a.len() - i,
    {
        if a[i] != b[i] {
            return false;
        }
        i += 1;
    }
    assert(a@ =~= b@);
    true
}

/// The tag body when the bytes start with a complete ID3v2 tag.
pub fn full_tag(bytes: &[u8]) -> (r: Option<&[u8]>)
    ensures
        match r {
            Some(t) => full_tag_body(bytes@) == Some(t@),
            None => full_tag_body(bytes@) is None,
        },
{
    if bytes.len() < 10 || bytes[0] != 0x49 || bytes[1] != 0x44 || bytes[2] != 0x33 {
        return None;
    }
    let size = syncsafe_size(&bytes[6..10]);
    if size as u64 > (bytes.len() - 10) as u64 {
        return None;
    }
    Some(&bytes[10..10 + size as usize])
}

/// Title, artist and album read from the ID3v2 text frames of a file's bytes.
pub fn id3v2_fallback(bytes: &[u8]) -> (r: MetadataSnapshot)
    ensures
        snapshot_texts(r) == id3v2_texts(bytes@),
{
    let tag = match full_tag(bytes) {
        Some(t) => t,
        None => return MetadataSnapshot { title: None, artist: None, album: None },
    };
    let frames = walk_frames(tag, bytes[3]);
    let ghost fv = frames_view(frames@);
    let tit2: [u8; 4] = [0x54, 0x49, 0x54, 0x32];
    let tt2: [u8; 3] = [0x54, 0x54, 0x32];
    let tpe1: [u8; 4] = [0x54, 0x50, 0x45, 0x31];
    let tp1: [u8; 3] = [0x54, 0x50, 0x31];
    let talb: [u8; 4] = [0x54, 0x41, 0x4C, 0x42];
    let tal: [u8; 3] = [0x54, 0x41, 0x4C];
    assert(tit2@ == seq![0x54u8, 0x49, 0x54, 0x32]);
    assert(tt2@ == seq![0x54u8, 0x54, 0x32]);
    assert(tpe1@ == seq![0x54u8, 0x50, 0x45, 0x31]);
    assert(tp1@ == seq![0x54u8, 0x50, 0x31]);
    assert(talb@ == seq![0x54u8, 0x41, 0x4C, 0x42]);
    assert(tal@ == seq![0x54u8, 0x41, 0x4C]);
    let mut out = MetadataSnapshot { title: None, artist: None, album: None };
    let mut i: usize = 0;
    while i < frames.len()
        invariant
            i <= frames.len(),
            fv == frames_view(frames@),
            tit2@ == seq![0x54u8, 0x49, 0x54, 0x32],
            tt2@ == seq![0x54u8, 0x54, 0x32],
            tpe1@ == seq![0x54u8, 0x50, 0x45, 0x31],
            tp1@ == seq![0x54u8, 0x50, 0x31],
            talb@ == seq![0x54u8, 0x41, 0x4C, 0x42],
            tal@ == seq![0x54u8, 0x41, 0x4C],
            snapshot_texts(out) == text_frames_fold(fv.take(i as int)),
        decreases frames.len() - i,
    {
        assert(fv.take(i + 1).drop_last() =~= fv.take(i as int));
        let frame = &frames[i];
        let text = decode_id3_text(frame.payload.as_slice());
        if text.as_str().unicode_len() > 0 {
            let id = frame.id.as_slice();
            if bytes_are(id, tit2.as_slice()) || bytes_are(id, tt2.as_slice()) {
                out.title = Some(text);
            } else if bytes_are(id, tpe1.as_slice()) || bytes_are(id, tp1.as_slice()) {
                out.artist = Some(text);
            } else if bytes_are(id, talb.as_slice()) || bytes_are(id, tal.as_slice()) {
                out.album = Some(text);
            }
        }
        i += 1;
    }
    assert(fv.take(frames.len() as int) =~= fv);
    out
}

/// Metadata for a track: what the container reports when it reports anything, otherwise
/// what the ID3v2 text frames at the start of the file hold.
pub fn metadata_snapshot_for_path(container: MetadataSnapshot, file_bytes: &[u8]) -> (r:
    MetadataSnapshot)
    ensures
        (container.title is Some || container.artist is Some || container.album is Some)
            ==> snapshot_texts(r) == snapshot_texts(container),
        !(container.title is Some || container.artist is Some || container.album is Some)
            ==> snapshot_texts(r) == id3v2_texts(file_bytes@),
{
    if container.title.is_some() || container.artist.is_some() || container.album.is_some() {
        return container;
    }
    id3v2_fallback(file_bytes)
}

// ---------------------------------------------------------------------------
// Cover art from ID3v2 picture frames
// ---------------------------------------------------------------------------

pub open spec fn first_zero_byte(s: Seq<u8>) -> int
    decreases s.len(),
{
    if s.len() == 0 || s[0] == 0 {
        0
    } else {
        1 + first_zero_byte(s.drop_first())
    }
}

pub open spec fn first_zero_window(s: Seq<u8>) -> int
    decreases s.len(),
{
    if s.len() < 2 || (s[0] == 0 && s[1] == 0) {
        0
    } else {
        1 + first_zero_window(s.drop_first())
    }
}

/// Length of a picture description including its terminator: a zero byte, or for UTF-16
/// encodings two consecutive zero bytes at any offset.
pub open spec fn description_end(s: Seq<u8>, encoding: u8) -> Option<int> {
    if encoding == 1 || encoding == 2 {
        let k = first_zero_window(s);
        if k + 1 < s.len() {
            Some(k + 2)
        } else {
            None
        }
    } else {
        let k = first_zero_byte(s);
        if k < s.len() {
            Some(k + 1)
        } else {
            None
        }
    }
}

proof fn lemma_first_zero_byte(s: Seq<u8>, i: int)
    requires
        0 <= i <= s.len(),
        forall|k: int| 0 <= k < i ==> s[k] != 0,
        i == s.len() || s[i] == 0,
    ensures
        first_zero_byte(s) == i,
    decreases i,
{
    if i > 0 {
        lemma_first_zero_byte(s.drop_first(), i - 1);
    }
}

/// Two zero bytes start at `k`.
pub open spec fn zero_pair_at(s: Seq<u8>, k: int) -> bool {
    s[k] == 0 && s[k + 1] == 0
}

proof fn lemma_first_zero_window(s: Seq<u8>, i: int)
    requires
        0 <= i,
        i + 1 <= s.len() || (i == 0 && s.len() < 2),
        forall|k: int| 0 <= k < i ==> !#[trigger] zero_pair_at(s, k),
        i + 1 >= s.len() || (s[i] == 0 && s[i + 1] == 0),
    ensures
        first_zero_window(s) == i,
    decreases i,
{
    if i > 0 {
        assert(!zero_pair_at(s, 0));
        assert forall|k: int| 0 <= k < i - 1 implies !#[trigger] zero_pair_at(s.drop_first(), k) by {
            assert(!zero_pair_at(s, k + 1));
        }
        lemma_first_zero_window(s.drop_first(), i - 1);
    }
}

pub fn id3_description_end(payload: &[u8], encoding: u8) -> (r: Option<usize>)
    ensures
        match r {
            Some(e) => description_end(payload@, encoding) == Some(e as int) && e <= payload.len(),
            None => description_end(payload@, encoding) is None,
        },
{
    if encoding == 1 || encoding == 2 {
        if payload.len() < 2 {
            proof {
                lemma_first_zero_window(payload@, 0);
            }
            return None;
        }
        let mut k: usize = 0;
        while k + 1 < payload.len() && !(payload[k] == 0 && payload[k + 1] == 0)
            invariant
                payload.len() >= 2,
                k + 1 <= payload.len(),
                forall|j: int| 0 <= j < k ==> !#[trigger] zero_pair_at(payload@, j),
            decreases payload.len() - k,
        {
            k += 1;
        }
        proof {
            lemma_first_zero_window(payload@, k as int);
        }
        if k + 1 < payload.len() {
            Some(k + 2)
        } else {
            None
        }
    } else {
        let mut k: usize = 0;
        while k < payload.len() && payload[k] != 0
            invariant
                k <= payload.len(),
                forall|j: int| 0 <= j < k ==> payload@[j] != 0,
            decreases payload.len() - k,
        {
            k += 1;
        }
        proof {
            lemma_first_zero_byte(payload@, k as int);
        }
        if k < payload.len() {
            Some(k + 1)
        } else {
            None
        }
    }
}

/// The image bytes of an `APIC` payload: `encoding | mime\0 | picture type | description
/// terminator | image`.
pub open spec fn apic_image(p: Seq<u8>) -> Option<Seq<u8>> {
    if p.len() < 4 {
        None
    } else {
        let mime_len = first_zero_byte(p.skip(1));
        if mime_len >= p.len() - 1 {
            None
        } else {
            let pos = 1 + mime_len + 1;
            if pos >= p.len() {
                None
            } else {
                match description_end(p.skip(pos + 1), p[0]) {
                    None => None,
                    Some(d) => if pos + 1 + d >= p.len() {
                        None
                    } else {
                        Some(p.skip(pos + 1 + d))
                    },
                }
            }
        }
    }
}

/// The image bytes of a version 2.2 `PIC` payload: `encoding | format[3] | picture type |
/// description terminator | image`.
pub open spec fn pic_image(p: Seq<u8>) -> Option<Seq<u8>> {
    if p.len() < 6 {
        None
    } else {
        match description_end(p.skip(5), p[0]) {
            None => None,
            Some(d) => if 5 + d >= p.len() {
                None
            } else {
                Some(p.skip(5 + d))
            },
        }
    }
}

pub fn parse_apic_payload(payload: &[u8]) -> (r: Option<Vec<u8>>)
    ensures
        match r {
            Some(img) => apic_image(payload@) == Some(img@),
            None => apic_image(payload@) is None,
        },
{
    if payload.len() < 4 {
        return None;
    }
    let mut m: usize = 1;
    while m < payload.len() && payload[m] != 0
        invariant
            1 <= m <= payload.len(),
            forall|j: int| 1 <= j < m ==> payload@[j] != 0,
        decreases payload.len() - m,
    {
        m += 1;
    }
    proof {
        assert forall|j: int| 0 <= j < m - 1 implies payload@.skip(1)[j] != 0 by {
            assert(payload@.skip(1)[j] == payload@[j + 1]);
        }
        lemma_first_zero_byte(payload@.skip(1), m - 1);
    }
    if m >= payload.len() {
        return None;
    }
    let pos = m + 1;
    if pos >= payload.len() {
        return None;
    }
    let desc = &payload[pos + 1..payload.len()];
    assert(desc@ == payload@.skip(pos + 1));
    let d = match id3_description_end(desc, payload[0]) {
        Some(d) => d,
        None => return None,
    };
    let start = pos + 1 + d;
    if start >= payload.len() {
        return None;
    }
    let img = slice_to_vec(payload, start, payload.len());
    assert(img@ == payload@.skip(start as int));
    Some(img)
}

pub fn parse_pic_payload(payload: &[u8]) -> (r: Option<Vec<u8>>)
    ensures
        match r {
            Some(img) => pic_image(payload@) == Some(img@),
            None => pic_image(payload@) is None,
        },
{
    if payload.len() < 6 {
        return None;
    }
    let desc = &payload[5..payload.len()];
    assert(desc@ == payload@.skip(5));
    let d = match id3_description_end(desc, payload[0]) {
        Some(d) => d,
        None => return None,
    };
    let start = 5 + d;
    if start >= payload.len() {
        return None;
    }
    let img = slice_to_vec(payload, start, payload.len());
    assert(img@ == payload@.skip(start as int));
    Some(img)
}

pub open spec fn frame_picture(f: (Seq<u8>, Seq<u8>)) -> Option<Seq<u8>> {
    if f.0 == seq![0x41u8, 0x50, 0x49, 0x43] {
        apic_image(f.1)
    } else if f.0 == seq![0x50u8, 0x49, 0x43] {
        pic_image(f.1)
    } else {
        None
    }
}

/// The first picture found among the frames, in tag order.
pub open spec fn first_picture(frames: Seq<(Seq<u8>, Seq<u8>)>) -> Option<Seq<u8>>
    decreases frames.len(),
{
    if frames.len() == 0 {
        None
    } else if frame_picture(frames[0]) is Some {
        frame_picture(frames[0])
    } else {
        first_picture(frames.drop_first())
    }
}

pub open spec fn id3v2_picture(bytes: Seq<u8>) -> Option<Seq<u8>> {
    match full_tag_body(bytes) {
        None => None,
        Some(tag) => first_picture(frame_walk(tag, bytes[3])),
    }
}

/// Cover art from the first `APIC` or `PIC` frame of a file's ID3v2 tag that holds an image.
pub fn id3v2_cover_art(bytes: &[u8]) -> (r: Option<Vec<u8>>)
    ensures
        match r {
            Some(img) => id3v2_picture(bytes@) == Some(img@),
            None => id3v2_picture(bytes@) is None,
        },
{
    let tag = match full_tag(bytes) {
        Some(t) => t,
        None => return None,
    };
    let frames = walk_frames(tag, bytes[3]);
    let ghost fv = frames_view(frames@);
    let apic: [u8; 4] = [0x41, 0x50, 0x49, 0x43];
    let pic: [u8; 3] = [0x50, 0x49, 0x43];
    assert(apic@ == seq![0x41u8, 0x50, 0x49, 0x43]);
    assert(pic@ == seq![0x50u8, 0x49, 0x43]);
    let mut i: usize = 0;
    assert(fv.skip(0) =~= fv);
    assert(id3v2_picture(bytes@) == first_picture(fv));
    while i < frames.len()
        invariant
            i <= frames.len(),
            fv == frames_view(frames@),
            apic@ == seq![0x41u8, 0x50, 0x49, 0x43],
            pic@ == seq![0x50u8, 0x49, 0x43],
            id3v2_picture(bytes@) == first_picture(fv.skip(i as int)),
        decreases frames.len() - i,
    {
        let frame = &frames[i];
        assert(fv.skip(i as int)[0] == (frame.id@, frame.payload@));
        assert(fv.skip(i as int).drop_first() =~= fv.skip(i + 1));
        let found = if bytes_are(frame.id.as_slice(), apic.as_slice()) {
            parse_apic_payload(frame.payload.as_slice())
        } else if bytes_are(frame.id.as_slice(), pic.as_slice()) {
            parse_pic_payload(frame.payload.as_slice())
        } else {
            None
        };
        if found.is_some() {
            return found;
        }
        i += 1;
    }
    assert(fv.skip(i as int).len() == 0);
    None
}

} // verus!
