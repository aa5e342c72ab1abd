use crate::text::char_from_byte;
use vstd::prelude::*;
use vstd::utf8::{decode_utf8, length_of_first_scalar, pop_first_scalar, valid_first_scalar, valid_utf8};

verus! {

// ---------------------------------------------------------------------------
// Integers stored in tag headers
// ---------------------------------------------------------------------------

/// A 28-bit "syncsafe" integer: the low seven bits of each of four bytes, big-endian.
pub open spec fn syncsafe(b0: u8, b1: u8, b2: u8, b3: u8) -> nat {
    ((b0 % 128) as nat) * 2097152 + ((b1 % 128) as nat) * 16384 + ((b2 % 128) as nat) * 128 + ((
    b3 % 128) as nat)
}

pub open spec fn be24(b0: u8, b1: u8, b2: u8) -> nat {
    (b0 as nat) * 65536 + (b1 as nat) * 256 + (b2 as nat)
}

pub open spec fn be32(b0: u8, b1: u8, b2: u8, b3: u8) -> nat {
    (b0 as nat) * 16777216 + (b1 as nat) * 65536 + (b2 as nat) * 256 + (b3 as nat)
}

/// Reads the syncsafe integer in four bytes.
pub fn syncsafe_size(bytes: &[u8]) -> (r: u32)
    requires
        bytes.len() >= 4,
    ensures
        r == syncsafe(bytes[0], bytes[1], bytes[2], bytes[3]),
{
    let b0 = bytes[0];
    let b1 = bytes[1];
    let b2 = bytes[2];
    let b3 = bytes[3];
    let a = (b0 % 128) as u32;
    let b = (b1 % 128) as u32;
    let c = (b2 % 128) as u32;
    let d = (b3 % 128) as u32;
    a * 2097152 + b * 16384 + c * 128 + d
}

fn be24_at(bytes: &[u8], i: usize) -> (r: u32)
    requires
        i + 3 <= bytes.len(),
    ensures
        r == be24(bytes[i as int], bytes[i + 1], bytes[i + 2]),
{
    (bytes[i] as u32) * 65536 + (bytes[i + 1] as u32) * 256 + (bytes[i + 2] as u32)
}

fn be32_at(bytes: &[u8], i: usize) -> (r: u64)
    requires
        i + 4 <= bytes.len(),
    ensures
        r == be32(bytes[i as int], bytes[i + 1], bytes[i + 2], bytes[i + 3]),
{
    (bytes[i] as u64) * 16777216 + (bytes[i + 1] as u64) * 65536 + (bytes[i + 2] as u64) * 256
        + (bytes[i + 3] as u64)
}

// ---------------------------------------------------------------------------
// Text decoding
// ---------------------------------------------------------------------------

/// The width of the well-formed UTF-8 encoding of one scalar that `bytes` start with at `i`
/// (none when they do not start with one).
fn first_scalar_width(bytes: &[u8], i: usize) -> (r: Option<usize>)
    requires
        i < bytes.len(),
    ensures
        match r {
            Some(w) => valid_first_scalar(bytes@.skip(i as int)) && w == length_of_first_scalar(bytes@.skip(i as int))
                && i + w <= bytes.len(),
            None => !valid_first_scalar(bytes@.skip(i as int)),
        },
{
    let ghost b = bytes@.skip(i as int);
    let n = bytes.len() - i;
    let b0 = bytes[i];
    assert(b[0] == b0);
    if b0 <= 0x7f {
        return Some(1);
    }
    if n >= 2 && 0xc0 <= b0 && b0 <= 0xdf {
        let b1 = bytes[i + 1];
        assert(b[1] == b1);
        if !(0x80 <= b1 && b1 <= 0xbf) {
            return None;
        }
        let cp: u32 = (((b0 & 0x1F) as u32) << 6) | ((b1 & 0x3f) as u32);
        if 0x80 <= cp && !(0xD800 <= cp && cp <= 0xDFFF) {
            return Some(2);
        }
        return None;
    }
    if n >= 3 && 0xe0 <= b0 && b0 <= 0xef {
        let b1 = bytes[i + 1];
        let b2 = bytes[i + 2];
        assert(b[1] == b1 && b[2] == b2);
        if !(0x80 <= b1 && b1 <= 0xbf && 0x80 <= b2 && b2 <= 0xbf) {
            return None;
        }
        let cp: u32 = (((b0 & 0x0F) as u32) << 12) | (((b1 & 0x3f) as u32) << 6) | ((b2 & 0x3f) as u32);
        if 0x800 <= cp && !(0xD800 <= cp && cp <= 0xDFFF) {
            return Some(3);
        }
        return None;
    }
    if n >= 4 && 0xf0 <= b0 && b0 <= 0xf7 {
        let b1 = bytes[i + 1];
        let b2 = bytes[i + 2];
        let b3 = bytes[i + 3];
        assert(b[1] == b1 && b[2] == b2 && b[3] == b3);
        if !(0x80 <= b1 && b1 <= 0xbf && 0x80 <= b2 && b2 <= 0xbf && 0x80 <= b3 && b3 <= 0xbf) {
            return None;
        }
        let cp: u32 = (((b0 & 0x07) as u32) << 18) | (((b1 & 0x3f) as u32) << 12) | (((b2 & 0x3f) as u32) << 6) | ((
        b3 & 0x3f) as u32);
        if 0x10000 <= cp && cp <= 0x10ffff && !(0xD800 <= cp && cp <= 0xDFFF) {
            return Some(4);
        }
        return None;
    }
    None
}

/// Whether the bytes are well-formed UTF-8 (as `std::str::from_utf8` accepts them).
pub fn is_valid_utf8(bytes: &[u8]) -> (r: bool)
    ensures
        r == valid_utf8(bytes@),
{
    let mut i: usize = 0;
    assert(bytes@.skip(0) =~= bytes@);
    while i < bytes.len()
        invariant
            i <= bytes.len(),
            valid_utf8(bytes@) == valid_utf8(bytes@.skip(i as int)),
        decreases bytes.len() - i,
    {
        match first_scalar_width(bytes, i) {
            Some(w) => {
                assert(pop_first_scalar(bytes@.skip(i as int)) =~= bytes@.skip((i + w) as int));
                i = i + w;
            },
            None => {
                return false;
            },
        }
    }
    assert(bytes@.skip(i as int).len() == 0);
    true
}

/// What `String::from_utf8_lossy` makes of a byte sequence.
pub uninterp spec fn utf8_lossy(bytes: Seq<u8>) -> Seq<char>;

/// `String::from_utf8_lossy`, made owned: the bytes decoded as UTF-8 with ill-formed
/// sequences replaced by U+FFFD. Only the well-formed case is spelled out here.
#[verifier::external_body]
pub fn from_utf8_lossy(bytes: &[u8]) -> (s: String)
    ensures
        s@ == utf8_lossy(bytes@),
        valid_utf8(bytes@) ==> s@ == decode_utf8(bytes@),
{
    String::from_utf8_lossy(bytes).into_owned()
}

pub open spec fn is_high_surrogate(u: u16) -> bool {
    0xD800 <= u <= 0xDBFF
}

pub open spec fn is_low_surrogate(u: u16) -> bool {
    0xDC00 <= u <= 0xDFFF
}

/// UTF-16 decoding where each unpaired surrogate becomes U+FFFD.
pub open spec fn utf16_decode(u: Seq<u16>) -> Seq<char>
    decreases u.len(),
{
    if u.len() == 0 {
        seq![]
    } else if !is_high_surrogate(u[0]) && !is_low_surrogate(u[0]) {
        seq![(u[0] as u32) as char] + utf16_decode(u.drop_first())
    } else if is_high_surrogate(u[0]) && u.len() >= 2 && is_low_surrogate(u[1]) {
        seq![
            (0x10000 + ((u[0] as u32) - 0xD800) * 1024 + ((u[1] as u32) - 0xDC00)) as u32 as char,
        ] + utf16_decode(u.skip(2))
    } else {
        seq!['\u{FFFD}'] + utf16_decode(u.drop_first())
    }
}

/// `String::from_utf16_lossy`: UTF-16 code units decoded, unpaired surrogates replaced
/// by U+FFFD.
#[verifier::external_body]
pub fn from_utf16_lossy(units: &[u16]) -> (s: String)
    ensures
        s@ == utf16_decode(units@),
{
    String::from_utf16_lossy(units)
}

/// Latin-1: every byte is the code point of the same value.
pub open spec fn latin1(bytes: Seq<u8>) -> Seq<char> {
    Seq::new(bytes.len(), |i: int| (bytes[i] as u32) as char)
}

pub fn decode_latin1(bytes: &[u8]) -> (out: Vec<char>)
    ensures
        out@ == latin1(bytes@),
{
    let mut out: Vec<char> = Vec::new();
    let mut i: usize = 0;
    while i < bytes.len()
        invariant
            i <= bytes.len(),
            out@.len() == i,
            forall|k: int| 0 <= k < i ==> out@[k] == (bytes@[k] as u32) as char,
        decreases bytes.len() - i,
    {
        let c = char_from_byte(bytes[i]);
        out.push(c);
        i += 1;
    }
    assert(out@ =~= latin1(bytes@));
    out
}

/// Two bytes per code unit, little- or big-endian; a trailing odd byte is ignored.
pub open spec fn utf16_units(data: Seq<u8>, little_endian: bool) -> Seq<u16> {
    Seq::new(
        data.len() / 2,
        |i: int|
            if little_endian {
                (data[2 * i] as int + 256 * data[2 * i + 1] as int) as u16
            } else {
                (256 * data[2 * i] as int + data[2 * i + 1] as int) as u16
            },
    )
}

pub fn utf16_units_of(data: &[u8], little_endian: bool) -> (out: Vec<u16>)
    ensures
        out@ == utf16_units(data@, little_endian),
{
    let mut out: Vec<u16> = Vec::new();
    let n = data.len() / 2;
    let mut i: usize = 0;
    while i < n
        invariant
            n == data.len() / 2,
            i <= n,
            out@.len() == i,
            forall|k: int| 0 <= k < i ==> out@[k] == utf16_units(data@, little_endian)[k],
        decreases n - i,
    {
        let lo = data[2 * i];
        let hi = data[2 * i + 1];
        let unit: u16 = if little_endian {
            (lo as u16) + 256 * (hi as u16)
        } else {
            256 * (lo as u16) + (hi as u16)
        };
        out.push(unit);
        i += 1;
    }
    assert(out@ =~= utf16_units(data@, little_endian));
    out
}

// ---------------------------------------------------------------------------
// Walking the frames of an ID3v2 tag
// ---------------------------------------------------------------------------

/// A frame id that marks padding: not UTF-8, or made of NUL bytes only.
pub open spec fn blank_frame_id(id: Seq<u8>) -> bool {
    !valid_utf8(id) || forall|i: int| 0 <= i < id.len() ==> id[i] == 0
}

pub open spec fn id_len(major: u8) -> int {
    if major == 2 {
        3
    } else {
        4
    }
}

pub open spec fn header_len(major: u8) -> int {
    if major == 2 {
        6
    } else {
        10
    }
}

/// The payload size written in the frame header at the start of `tag`.
pub open spec fn frame_size(tag: Seq<u8>, major: u8) -> nat {
    if major == 2 {
        be24(tag[3], tag[4], tag[5])
    } else if major == 4 {
        syncsafe(tag[4], tag[5], tag[6], tag[7])
    } else {
        be32(tag[4], tag[5], tag[6], tag[7])
    }
}

/// The frames of a tag body as (id, payload) pairs. Version 2.2 frames have 3-byte ids
/// and 6-byte headers, later versions 4-byte ids and 10-byte headers (2.4 with syncsafe
/// sizes). The walk stops at padding, at a zero size, or at a frame that does not fit.
pub open spec fn frame_walk(tag: Seq<u8>, major: u8) -> Seq<(Seq<u8>, Seq<u8>)>
    decreases tag.len(),
{
    if tag.len() < header_len(major) {
        seq![]
    } else {
        let id = tag.take(id_len(major));
        let size = frame_size(tag, major);
        if blank_frame_id(id) || size == 0 || header_len(major) + size > tag.len() {
            seq![]
        } else {
            seq![(id, tag.subrange(header_len(major), header_len(major) + size))] + frame_walk(
                tag.skip(header_len(major) + size),
                major,
            )
        }
    }
}

pub fn slice_to_vec(s: &[u8], start: usize, end: usize) -> (out: Vec<u8>)
    requires
        start <= end <= s.len(),
    ensures
        out@ == s@.subrange(start as int, end as int),
{
    let mut out: Vec<u8> = Vec::new();
    let mut i = start;
    while i < end
        invariant
            start <= i <= end <= s.len(),
            out@ == s@.subrange(start as int, i as int),
        decreases end - i,
    {
        out.push(s[i]);
        i += 1;
        assert(s@.subrange(start as int, i as int) == s@.subrange(start as int, (i - 1) as int).push(
            s@[i - 1],
        ));
    }
    out
}

fn all_zero(s: &[u8]) -> (r: bool)
    ensures
        r == forall|i: int| 0 <= i < s@.len() ==> s@[i] == 0,
{
    let mut i: usize = 0;
    while i < s.len()
        invariant
            i <= s.len(),
            forall|k: int| 0 <= k < i ==> s@[k] == 0,
        decreases s.len() - i,
    {
        if s[i] != 0 {
            return false;
        }
        i += 1;
    }
    true
}

pub struct Frame {
    pub id: Vec<u8>,
    pub payload: Vec<u8>,
}

pub open spec fn frames_view(v: Seq<Frame>) -> Seq<(Seq<u8>, Seq<u8>)> {
    v.map_values(|f: Frame| (f.id@, f.payload@))
}

/// The frames of a tag body.
pub fn walk_frames(tag: &[u8], major: u8) -> (out: Vec<Frame>)
    ensures
        frames_view(out@) == frame_walk(tag@, major),
{
    let hlen: usize = if major == 2 {
        6
    } else {
        10
    };
    let ilen: usize = if major == 2 {
        3
    } else {
        4
    };
    let mut out: Vec<Frame> = Vec::new();
    let mut pos: usize = 0;
    assert(tag@.skip(0) == tag@);
    loop
        invariant
            pos <= tag.len(),
            hlen == header_len(major),
            ilen == id_len(major),
            frames_view(out@) + frame_walk(tag@.skip(pos as int), major) == frame_walk(tag@, major),
        ensures
            frames_view(out@) == frame_walk(tag@, major),
        decreases tag.len() - pos,
    {
        let ghost rest = tag@.skip(pos as int);
        if tag.len() - pos < hlen {
            assert(frame_walk(rest, major) == Seq::<(Seq<u8>, Seq<u8>)>::empty());
            assert(frames_view(out@) + Seq::<(Seq<u8>, Seq<u8>)>::empty() =~= frames_view(out@));
            break;
        }
        let id = slice_to_vec(tag, pos, pos + ilen);
        assert(id@ == rest.take(id_len(major)));
        let size: u64 = if major == 2 {
            be24_at(tag, pos + 3) as u64
        } else if major == 4 {
            let ss = syncsafe_size(&tag[pos + 4..pos + 8]);
            ss as u64
        } else {
            be32_at(tag, pos + 4)
        };
        assert(size == frame_size(rest, major));
        let blank = !is_valid_utf8(id.as_slice()) || all_zero(id.as_slice());
        if blank || size == 0 || size > (tag.len() - pos - hlen) as u64 {
            assert(frame_walk(rest, major) == Seq::<(Seq<u8>, Seq<u8>)>::empty());
            assert(frames_view(out@) + Seq::<(Seq<u8>, Seq<u8>)>::empty() =~= frames_view(out@));
            break;
        }
        let end = pos + hlen + size as usize;
        let payload = slice_to_vec(tag, pos + hlen, end);
        assert(payload@ == rest.subrange(header_len(major), header_len(major) + size));
        let ghost before = frames_view(out@);
        out.push(Frame { id, payload });
        assert(rest.skip(header_len(major) + size) =~= tag@.skip(end as int));
        assert(frames_view(out@) =~= before.push((id@, payload@)));
        assert(before.push((id@, payload@)) + frame_walk(tag@.skip(end as int), major) =~= before
            + (seq![(id@, payload@)] + frame_walk(tag@.skip(end as int), major)));
        pos = end;
    }
    out
}

} // verus!
