use crate::random::{fill_random_bytes, thread_rng};
use crate::text::{
    all_digits, ascii_upper, char_from_byte, chars_of, decimal, digits_value, is_ascii_digit,
    is_digit, parse_decimal, push_decimal, string_from_chars, trim, trimmed, upper_chars, upper_seq,
    is_white_space, trim_start, trim_end,
};
use vstd::utf8::encode_utf8;
use vstd::arithmetic::div_mod::{lemma_fundamental_div_mod, lemma_fundamental_div_mod_converse};
use vstd::arithmetic::mul::{lemma_mul_strictly_positive};
use sha2::Digest;
use vstd::prelude::*;

verus! {

// ---------------------------------------------------------------------------
// Numbers written in a base
// ---------------------------------------------------------------------------

pub open spec fn pow_nat(b: nat, e: nat) -> nat
    decreases e,
{
    if e == 0 {
        1
    } else {
        b * pow_nat(b, (e - 1) as nat)
    }
}

/// The value of big-endian digits in base `b`.
pub open spec fn val_base(s: Seq<u8>, b: nat) -> nat
    decreases s.len(),
{
    if s.len() == 0 {
        0
    } else {
        val_base(s.drop_last(), b) * b + s.last() as nat
    }
}

/// The `k` lowest big-endian digits of `v` in base `b`.
pub open spec fn to_base(v: nat, k: nat, b: nat) -> Seq<u8>
    decreases k,
{
    if k == 0 || b == 0 {
        seq![]
    } else {
        to_base(v / b, (k - 1) as nat, b).push((v % b) as u8)
    }
}

pub open spec fn digits_below(s: Seq<u8>, b: nat) -> bool {
    forall|i: int| 0 <= i < s.len() ==> (#[trigger] s[i]) < b
}

proof fn lemma_pow_pos(b: nat, e: nat)
    requires
        b > 0,
    ensures
        pow_nat(b, e) > 0,
    decreases e,
{
    if e > 0 {
        lemma_pow_pos(b, (e - 1) as nat);
        lemma_mul_strictly_positive(b as int, pow_nat(b, (e - 1) as nat) as int);
    }
}

proof fn lemma_pow_adds(b: nat, e1: nat, e2: nat)
    ensures
        pow_nat(b, e1 + e2) == pow_nat(b, e1) * pow_nat(b, e2),
    decreases e1,
{
    if e1 > 0 {
        lemma_pow_adds(b, (e1 - 1) as nat, e2);
        assert((e1 - 1) as nat + e2 == (e1 + e2 - 1) as nat);
        assert(pow_nat(b, e1 + e2) == b * pow_nat(b, (e1 + e2 - 1) as nat));
        assert(pow_nat(b, e1) == b * pow_nat(b, (e1 - 1) as nat));
        let x = pow_nat(b, (e1 - 1) as nat);
        let y = pow_nat(b, e2);
        assert(b * (x * y) == (b * x) * y) by (nonlinear_arith);
    } else {
        assert(pow_nat(b, 0) == 1);
        assert(e1 + e2 == e2);
    }
}

/// Powers of 32 and 256 are powers of two.
proof fn lemma_pow_of_pow2(k: nat, m: nat)
    requires
        m == 5 || m == 8,
    ensures
        pow_nat(if m == 5 { 32 } else { 256 }, k) == pow_nat(2, m * k),
    decreases k,
{
    reveal_with_fuel(pow_nat, 9);
    if k > 0 {
        lemma_pow_of_pow2((k - 1) as nat, m);
        assert(m * k == m + m * (k - 1)) by (nonlinear_arith)
            requires
                k > 0,
        ;
        lemma_pow_adds(2, m, m * ((k - 1) as nat));
    }
}

proof fn lemma_val_base_bound(s: Seq<u8>, b: nat)
    requires
        b > 0,
        digits_below(s, b),
    ensures
        val_base(s, b) < pow_nat(b, s.len()),
    decreases s.len(),
{
    if s.len() > 0 {
        let p = s.drop_last();
        assert(digits_below(p, b)) by {
            assert forall|i: int| 0 <= i < p.len() implies (#[trigger] p[i]) < b by {
                assert(p[i] == s[i]);
            }
        }
        lemma_val_base_bound(p, b);
        assert(s.last() < b) by {
            assert(s[s.len() - 1] < b);
        }
        let v = val_base(p, b);
        let q = pow_nat(b, p.len());
        assert(v * b + s.last() < q * b) by (nonlinear_arith)
            requires
                v < q,
                s.last() < b,
        ;
        assert(pow_nat(b, s.len()) == b * q);
        assert(q * b == b * q) by (nonlinear_arith);
    }
}

/// Digits below the base read back as themselves.
proof fn lemma_to_base_of_val(s: Seq<u8>, b: nat)
    requires
        2 <= b <= 256,
        digits_below(s, b),
    ensures
        to_base(val_base(s, b), s.len(), b) == s,
    decreases s.len(),
{
    if s.len() > 0 {
        let p = s.drop_last();
        assert(digits_below(p, b)) by {
            assert forall|i: int| 0 <= i < p.len() implies (#[trigger] p[i]) < b by {
                assert(p[i] == s[i]);
            }
        }
        lemma_to_base_of_val(p, b);
        let v = val_base(s, b);
        assert(s.last() < b) by {
            assert(s[s.len() - 1] < b);
        }
        lemma_fundamental_div_mod_converse(v as int, b as int, val_base(p, b) as int, s.last() as int);
        assert(to_base(v, s.len(), b) == to_base(v / b, p.len(), b).push((v % b) as u8));
        assert(s == p.push(s.last()));
    }
}

/// Reading the digits of `v` gives `v` back, when `v` has no more digits than asked for.
proof fn lemma_val_of_to_base(v: nat, k: nat, b: nat)
    requires
        2 <= b <= 256,
        v < pow_nat(b, k),
    ensures
        val_base(to_base(v, k, b), b) == v,
        to_base(v, k, b).len() == k,
        digits_below(to_base(v, k, b), b),
    decreases k,
{
    if k > 0 {
        let q = pow_nat(b, (k - 1) as nat);
        lemma_pow_pos(b, (k - 1) as nat);
        lemma_fundamental_div_mod(v as int, b as int);
        assert(v / b < q) by (nonlinear_arith)
            requires
                v < b * q,
                b > 0,
                v == b * (v / b) + v % b,
                0 <= v % b < b,
        ;
        lemma_val_of_to_base(v / b, (k - 1) as nat, b);
        let t = to_base(v, k, b);
        let p = to_base(v / b, (k - 1) as nat, b);
        assert(t == p.push((v % b) as u8));
        assert(t.drop_last() == p);
        assert(v == (v / b) * b + v % b) by (nonlinear_arith)
            requires
                v == b * (v / b) + v % b,
        ;
        assert forall|i: int| 0 <= i < t.len() implies (#[trigger] t[i]) < b by {
            if i < p.len() {
                assert(t[i] == p[i]);
            }
        }
    } else {
        assert(v == 0) by {
            reveal_with_fuel(pow_nat, 1);
        }
    }
}

// ---------------------------------------------------------------------------
// Base32 text over the invite alphabet
// ---------------------------------------------------------------------------

/// The code point of digit `d` in the alphabet `ABCDEFGHJKLMNPQRSTUVWXYZ23456789`.
pub open spec fn alpha_code(d: nat) -> u32 {
    if d < 8 {
        (65 + d) as u32
    } else if d < 13 {
        (74 + (d - 8)) as u32
    } else if d < 24 {
        (80 + (d - 13)) as u32
    } else {
        (50 + (d - 24)) as u32
    }
}

/// The digit a character of the alphabet stands for; none for other characters.
pub open spec fn char_digit(c: char) -> Option<u8> {
    let u = c as u32;
    if 65 <= u <= 72 {
        Some((u - 65) as u8)
    } else if 74 <= u <= 78 {
        Some((u - 74 + 8) as u8)
    } else if 80 <= u <= 90 {
        Some((u - 80 + 13) as u8)
    } else if 50 <= u <= 57 {
        Some((u - 50 + 24) as u8)
    } else {
        None
    }
}

pub open spec fn digits_text(ds: Seq<u8>, cs: Seq<char>) -> bool {
    &&& ds.len() == cs.len()
    &&& forall|i: int| 0 <= i < cs.len() ==> (#[trigger] cs[i]) == alpha_code(ds[i] as nat) as char
}

/// Base32 without padding: the bytes read as one big-endian number, shifted left to a
/// multiple of five bits, written in `ceil(8n / 5)` digits.
pub open spec fn base32_digits(data: Seq<u8>) -> Seq<u8> {
    let k = (8 * data.len() + 4) / 5;
    let pad = (5 * k - 8 * data.len()) as nat;
    to_base(val_base(data, 256) * pow_nat(2, pad), k, 32)
}

/// The base32 text of `data`.
pub open spec fn base32_text(data: Seq<u8>) -> Seq<char> {
    base32_digits(data).map_values(|d: u8| alpha_code(d as nat) as char)
}

/// Decoding: the digits read as one number, the bits that do not fill a byte dropped,
/// the rest written in bytes.
pub open spec fn base32_bytes(ds: Seq<u8>) -> Seq<u8> {
    let k = ds.len();
    to_base(val_base(ds, 32) / pow_nat(2, (5 * k) % 8), (5 * k) / 8, 256)
}

pub open spec fn all_in_alphabet(cs: Seq<char>) -> bool {
    forall|i: int| 0 <= i < cs.len() ==> (#[trigger] char_digit(cs[i])) is Some
}

pub open spec fn text_digits(cs: Seq<char>) -> Seq<u8> {
    cs.map_values(|c: char| char_digit(c)->0)
}

/// Decoded text: the bytes when every character is in the alphabet.
pub open spec fn base32_decoded(cs: Seq<char>) -> Option<Seq<u8>> {
    if all_in_alphabet(cs) {
        Some(base32_bytes(text_digits(cs)))
    } else {
        None
    }
}

proof fn lemma_alpha_roundtrip(d: nat, c: char)
    requires
        d < 32,
        c == alpha_code(d) as char,
    ensures
        char_digit(c) == Some(d as u8),
{
}

fn alpha_char(d: u32) -> (c: char)
    requires
        d < 32,
    ensures
        c as u32 == alpha_code(d as nat),
        c == alpha_code(d as nat) as char,
{
    let b: u8 = if d < 8 {
        (65 + d) as u8
    } else if d < 13 {
        (74 + (d - 8)) as u8
    } else if d < 24 {
        (80 + (d - 13)) as u8
    } else {
        (50 + (d - 24)) as u8
    };
    char_from_byte(b)
}

fn char_digit_exec(c: char) -> (r: Option<u32>)
    ensures
        match r {
            Some(d) => char_digit(c) == Some(d as u8) && d < 32,
            None => char_digit(c) is None,
        },
{
    let u = c as u32;
    if 65 <= u && u <= 72 {
        Some(u - 65)
    } else if 74 <= u && u <= 78 {
        Some(u - 74 + 8)
    } else if 80 <= u && u <= 90 {
        Some(u - 80 + 13)
    } else if 50 <= u && u <= 57 {
        Some(u - 50 + 24)
    } else {
        None
    }
}

proof fn lemma_pow2_small(e: nat)
    requires
        e <= 13,
    ensures
        pow_nat(2, e) == (if e == 0 { 1nat } else if e == 1 { 2 } else if e == 2 { 4 } else if e == 3 { 8 }
            else if e == 4 { 16 } else if e == 5 { 32 } else if e == 6 { 64 } else if e == 7 { 128 }
            else if e == 8 { 256 } else if e == 9 { 512 } else if e == 10 { 1024 } else if e == 11 { 2048 }
            else if e == 12 { 4096 } else { 8192 }),
{
    reveal_with_fuel(pow_nat, 14);
}

/// The invite base32 text of `data`, without padding.
#[verifier::spinoff_prover]
pub fn base32_encode_no_padding(data: &[u8]) -> (out: Vec<char>)
    ensures
        digits_text(base32_digits(data@), out@),
        out@ == base32_text(data@),
{
    let ghost mut ds: Seq<u8> = seq![];
    let mut out: Vec<char> = Vec::new();
    let mut buf: u32 = 0;
    let mut bits: u32 = 0;
    let mut pw: u32 = 1;
    let mut i: usize = 0;
    proof {
        lemma_pow2_small(0);
    }
    while i < data.len()
        invariant
            i <= data.len(),
            bits < 5,
            pw as nat == pow_nat(2, bits as nat),
            buf < pw,
            digits_below(ds, 32),
            digits_text(ds, out@),
            8 * i == 5 * ds.len() + bits,
            val_base(data@.take(i as int), 256) == val_base(ds, 32) * pw + buf,
        decreases data.len() - i,
    {
        proof {
            lemma_pow2_small(bits as nat);
            lemma_pow2_small((bits + 8) as nat);
            lemma_pow_adds(2, bits as nat, 8);
            reveal_with_fuel(pow_nat, 9);
            assert(data@.take(i + 1).drop_last() =~= data@.take(i as int));
        }
        let byte = data[i];
        let ghost old_val = val_base(ds, 32);
        assert(val_base(data@.take(i + 1), 256) == val_base(data@.take(i as int), 256) * 256 + byte);
        assert((old_val * pw + buf) * 256 + byte == old_val * (pw * 256) + (buf * 256 + byte)) by (nonlinear_arith);
        buf = buf * 256 + byte as u32;
        pw = pw * 256;
        bits = bits + 8;
        i += 1;
        while bits >= 5
            invariant
                5 <= bits + 5,
                bits <= 12,
                pw as nat == pow_nat(2, bits as nat),
                buf < pw,
                digits_below(ds, 32),
                digits_text(ds, out@),
                8 * i == 5 * ds.len() + bits,
                val_base(data@.take(i as int), 256) == val_base(ds, 32) * pw + buf,
            decreases bits,
        {
            proof {
                lemma_pow2_small(bits as nat);
                lemma_pow2_small((bits - 5) as nat);
            }
            let next_pw = pw / 32;
            let d = buf / next_pw;
            let rest = buf % next_pw;
            let ghost prev = val_base(ds, 32);
            proof {
                lemma_fundamental_div_mod(buf as int, next_pw as int);
                assert(d < 32) by (nonlinear_arith)
                    requires
                        buf < next_pw * 32,
                        next_pw > 0,
                        buf == next_pw * d + rest,
                        rest >= 0,
                ;
                assert(prev * pw + buf == (prev * 32 + d) * next_pw + rest) by (nonlinear_arith)
                    requires
                        pw == next_pw * 32,
                        buf == next_pw * d + rest,
                ;
            }
            let c = alpha_char(d);
            out.push(c);
            proof {
                let nds = ds.push(d as u8);
                assert(nds.drop_last() == ds);
                assert(val_base(nds, 32) == prev * 32 + d);
                assert forall|j: int| 0 <= j < nds.len() implies (#[trigger] nds[j]) < 32 by {
                    if j < ds.len() {
                        assert(nds[j] == ds[j]);
                    }
                }
                ds = nds;
            }
            buf = rest;
            pw = next_pw;
            bits = bits - 5;
        }
    }
    assert(data@.take(data.len() as int) =~= data@);
    let ghost n = data.len();
    let ghost value = val_base(data@, 256);
    if bits > 0 {
        proof {
            lemma_pow2_small(bits as nat);
            lemma_pow2_small((5 - bits) as nat);
        }
        let scale: u32 = if bits == 1 {
            16
        } else if bits == 2 {
            8
        } else if bits == 3 {
            4
        } else {
            2
        };
        proof {
            assert(pw * scale == 32);
            assert(pow_nat(2, (5 - bits) as nat) == scale);
            assert(buf * scale < 32) by (nonlinear_arith)
                requires
                    buf < pw,
                    pw * scale == 32,
                    scale > 0,
            ;
        }
        let d = buf * scale;
        let ghost prev = val_base(ds, 32);
        proof {
            assert((prev * pw + buf) * scale == prev * 32 + d) by (nonlinear_arith)
                requires
                    pw * scale == 32,
                    d == buf * scale,
            ;
        }
        let c = alpha_char(d);
        out.push(c);
        proof {
            let nds = ds.push(d as u8);
            assert(nds.drop_last() == ds);
            assert(val_base(nds, 32) == prev * 32 + d);
            assert forall|j: int| 0 <= j < nds.len() implies (#[trigger] nds[j]) < 32 by {
                if j < ds.len() {
                    assert(nds[j] == ds[j]);
                }
            }
            ds = nds;
            assert(val_base(ds, 32) == value * pow_nat(2, (5 - bits) as nat));
        }
    } else {
        proof {
            reveal_with_fuel(pow_nat, 1);
            assert(pw == 1);
            assert(buf == 0);
            assert(value == val_base(data@.take(data.len() as int), 256));
            assert(value == val_base(ds, 32) * 1 + 0);
            assert(pow_nat(2, 0) == 1);
            assert(val_base(ds, 32) == value * pow_nat(2, 0));
        }
    }
    proof {
        let k = (8 * n + 4) / 5;
        let pad = (5 * k - 8 * n) as nat;
        assert(ds.len() == k);
        if bits > 0 {
            assert(pad == 5 - bits);
        } else {
            assert(pad == 0);
        }
        assert(val_base(ds, 32) == value * pow_nat(2, pad));
        lemma_to_base_of_val(ds, 32);
        assert(ds == base32_digits(data@));
        assert forall|j: int| 0 <= j < out@.len() implies out@[j] == base32_text(data@)[j] by {
            let d = ds[j];
            assert(base32_text(data@)[j] == alpha_code(d as nat) as char);
        }
        assert(out@ =~= base32_text(data@));
    }
    out
}


/// Decodes invite base32 text; `None` when a character is outside the alphabet.
pub fn base32_decode_no_padding(value: &[char]) -> (r: Option<Vec<u8>>)
    ensures
        match r {
            Some(b) => base32_decoded(value@) == Some(b@),
            None => base32_decoded(value@) is None,
        },
{
    let mut out: Vec<u8> = Vec::new();
    let mut buf: u32 = 0;
    let mut bits: u32 = 0;
    let mut pw: u32 = 1;
    let mut i: usize = 0;
    proof {
        lemma_pow2_small(0);
        assert(value@.take(0) =~= seq![]);
        assert(text_digits(value@.take(0)) =~= seq![]);
    }
    while i < value.len()
        invariant
            i <= value.len(),
            bits < 8,
            pw as nat == pow_nat(2, bits as nat),
            buf < pw,
            5 * i == 8 * out@.len() + bits,
            all_in_alphabet(value@.take(i as int)),
            val_base(text_digits(value@.take(i as int)), 32) == val_base(out@, 256) * pw + buf,
        decreases value.len() - i,
    {
        let d = match char_digit_exec(value[i]) {
            Some(d) => d,
            None => {
                assert(!all_in_alphabet(value@)) by {
                    assert(char_digit(value@[i as int]) is None);
                }
                return None;
            },
        };
        proof {
            lemma_pow2_small(bits as nat);
            lemma_pow2_small((bits + 5) as nat);
            lemma_pow_adds(2, bits as nat, 5);
            reveal_with_fuel(pow_nat, 6);
        }
        let ghost prev_ds = text_digits(value@.take(i as int));
        let ghost v = val_base(out@, 256);
        proof {
            let next = value@.take(i + 1);
            assert(next.drop_last() =~= value@.take(i as int));
            assert(text_digits(next) =~= prev_ds.push(d as u8));
            assert(text_digits(next).drop_last() =~= prev_ds);
            assert(val_base(text_digits(next), 32) == val_base(prev_ds, 32) * 32 + d);
            assert((v * pw + buf) * 32 + d == v * (pw * 32) + (buf * 32 + d)) by (nonlinear_arith);
            assert forall|j: int| 0 <= j < next.len() implies (#[trigger] char_digit(next[j])) is Some by {
                if j < i {
                    assert(next[j] == value@.take(i as int)[j]);
                }
            }
        }
        buf = buf * 32 + d;
        pw = pw * 32;
        bits = bits + 5;
        i += 1;
        if bits >= 8 {
            proof {
                lemma_pow2_small(bits as nat);
                lemma_pow2_small((bits - 8) as nat);
            }
            let next_pw = pw / 256;
            let byte = buf / next_pw;
            let rest = buf % next_pw;
            proof {
                lemma_fundamental_div_mod(buf as int, next_pw as int);
                assert(byte < 256) by (nonlinear_arith)
                    requires
                        buf < next_pw * 256,
                        next_pw > 0,
                        buf == next_pw * byte + rest,
                        rest >= 0,
                ;
                assert(v * pw + buf == (v * 256 + byte) * next_pw + rest) by (nonlinear_arith)
                    requires
                        pw == next_pw * 256,
                        buf == next_pw * byte + rest,
                ;
            }
            let ghost prev_out = out@;
            out.push(byte as u8);
            proof {
                assert(out@.drop_last() == prev_out);
                assert(val_base(out@, 256) == v * 256 + byte);
            }
            buf = rest;
            pw = next_pw;
            bits = bits - 8;
        }
    }
    proof {
        assert(value@.take(value.len() as int) =~= value@);
        let ds = text_digits(value@);
        let k = ds.len();
        assert(k == i);
        assert((5 * k) % 8 == bits && (5 * k) / 8 == out@.len());
        lemma_fundamental_div_mod_converse(val_base(ds, 32) as int, pw as int, val_base(out@, 256) as int, buf as int);
        assert(digits_below(out@, 256)) by {
            assert forall|j: int| 0 <= j < out@.len() implies (#[trigger] out@[j]) < 256 by {}
        }
        lemma_to_base_of_val(out@, 256);
    }
    Some(out)
}

/// Decoding the base32 text of some bytes gives the same bytes back.
pub proof fn base32_round_trip(data: Seq<u8>, text: Seq<char>)
    requires
        digits_text(base32_digits(data), text),
    ensures
        base32_decoded(text) == Some(data),
{
    let n = data.len();
    let k = (8 * n + 4) / 5;
    let pad = (5 * k - 8 * n) as nat;
    let v = val_base(data, 256);
    let ds = base32_digits(data);
    assert(pad < 5);
    assert(5 * k == 8 * n + pad);
    assert(digits_below(data, 256)) by {
        assert forall|j: int| 0 <= j < data.len() implies (#[trigger] data[j]) < 256 by {}
    }
    lemma_val_base_bound(data, 256);
    lemma_pow_of_pow2(n, 8);
    lemma_pow_of_pow2(k, 5);
    lemma_pow_adds(2, 8 * n, pad);
    lemma_pow_pos(2, pad);
    assert(v * pow_nat(2, pad) < pow_nat(32, k)) by (nonlinear_arith)
        requires
            v < pow_nat(2, 8 * n),
            pow_nat(2, pad) > 0,
            pow_nat(32, k) == pow_nat(2, 8 * n) * pow_nat(2, pad),
    ;
    lemma_val_of_to_base(v * pow_nat(2, pad), k, 32);
    assert forall|i: int| 0 <= i < text.len() implies (#[trigger] char_digit(text[i])) is Some by {
        lemma_alpha_roundtrip(ds[i] as nat, text[i]);
    }
    assert(text_digits(text) =~= ds) by {
        assert forall|i: int| 0 <= i < text.len() implies text_digits(text)[i] == ds[i] by {
            lemma_alpha_roundtrip(ds[i] as nat, text[i]);
        }
    }
    assert((5 * k) % 8 == pad && (5 * k) / 8 == n);
    lemma_fundamental_div_mod_converse((v * pow_nat(2, pad)) as int, pow_nat(2, pad) as int, v as int, 0);
    lemma_to_base_of_val(data, 256);
}


// ---------------------------------------------------------------------------
// IPv4 socket addresses as text
// ---------------------------------------------------------------------------

/// An IPv4 address and a port.
#[derive(Debug, Clone, Copy, PartialEq, Eq, Structural)]
pub struct Ipv4Endpoint {
    pub a: u8,
    pub b: u8,
    pub c: u8,
    pub d: u8,
    pub port: u16,
}

/// `a.b.c.d:port` in decimal.
pub open spec fn endpoint_text(e: Ipv4Endpoint) -> Seq<char> {
    decimal(e.a as nat) + "."@ + decimal(e.b as nat) + "."@ + decimal(e.c as nat) + "."@ + decimal(
        e.d as nat,
    ) + ":"@ + decimal(e.port as nat)
}

pub fn format_endpoint(e: Ipv4Endpoint) -> (out: String)
    ensures
        out@ == endpoint_text(e),
{
    let mut cs: Vec<char> = Vec::new();
    push_decimal(&mut cs, e.a as u64);
    cs.push('.');
    push_decimal(&mut cs, e.b as u64);
    cs.push('.');
    push_decimal(&mut cs, e.c as u64);
    cs.push('.');
    push_decimal(&mut cs, e.d as u64);
    cs.push(':');
    push_decimal(&mut cs, e.port as u64);
    proof {
        reveal_strlit(".");
        reveal_strlit(":");
    }
    assert(cs@ =~= endpoint_text(e));
    string_from_chars(cs.as_slice())
}

pub open spec fn leading_digits(s: Seq<char>) -> nat
    decreases s.len(),
{
    if s.len() > 0 && is_ascii_digit(s[0]) {
        1 + leading_digits(s.drop_first())
    } else {
        0
    }
}

/// One octet: one to three digits, no leading zero, at most 255; and what follows it.
pub open spec fn read_octet(s: Seq<char>) -> Option<(u8, Seq<char>)> {
    let n = leading_digits(s);
    if n == 0 || n > 3 || (n > 1 && s[0] == '0') || digits_value(s.take(n as int)) > 255 {
        None
    } else {
        Some((digits_value(s.take(n as int)) as u8, s.skip(n as int)))
    }
}

pub open spec fn after_char(s: Seq<char>, c: char) -> Option<Seq<char>> {
    if s.len() > 0 && s[0] == c {
        Some(s.drop_first())
    } else {
        None
    }
}

/// An octet followed by the separator `sep`, and what follows the separator.
pub open spec fn octet_then(s: Seq<char>, sep: char) -> Option<(u8, Seq<char>)> {
    match read_octet(s) {
        None => None,
        Some((v, r)) => match after_char(r, sep) {
            None => None,
            Some(rest) => Some((v, rest)),
        },
    }
}

/// A port: decimal digits (leading zeros allowed) no larger than 65535.
pub open spec fn port_spec(p: Seq<char>) -> Option<u16> {
    if p.len() > 0 && all_digits(p) && digits_value(p) <= 65535 {
        Some(digits_value(p) as u16)
    } else {
        None
    }
}

/// What the standard library's socket address parser accepts as an IPv4 address with a
/// port: four octets separated by dots, a colon, and the port.
pub open spec fn endpoint_spec(s: Seq<char>) -> Option<Ipv4Endpoint> {
    match octet_then(s, '.') {
        None => None,
        Some((a, r1)) => match octet_then(r1, '.') {
            None => None,
            Some((b, r2)) => match octet_then(r2, '.') {
                None => None,
                Some((c, r3)) => match octet_then(r3, ':') {
                    None => None,
                    Some((d, r4)) => match port_spec(r4) {
                        None => None,
                        Some(port) => Some(Ipv4Endpoint { a, b, c, d, port }),
                    },
                },
            },
        },
    }
}

proof fn lemma_leading_digits(t: Seq<char>, n: int)
    requires
        0 <= n <= t.len(),
        forall|i: int| 0 <= i < n ==> is_ascii_digit(#[trigger] t[i]),
        n == t.len() || !is_ascii_digit(t[n]),
    ensures
        leading_digits(t) == n,
    decreases n,
{
    if n > 0 {
        assert forall|i: int| 0 <= i < n - 1 implies is_ascii_digit(#[trigger] t.drop_first()[i]) by {
            assert(t.drop_first()[i] == t[i + 1]);
        }
        if n < t.len() {
            assert(t.drop_first()[n - 1] == t[n]);
        }
        lemma_leading_digits(t.drop_first(), n - 1);
    }
}

fn count_digits(s: &[char], pos: usize) -> (n: usize)
    requires
        pos <= s.len(),
    ensures
        n == leading_digits(s@.skip(pos as int)),
        pos + n <= s.len(),
{
    let mut j = pos;
    while j < s.len() && is_digit(s[j])
        invariant
            pos <= j <= s.len(),
            forall|i: int| pos <= i < j ==> is_ascii_digit(#[trigger] s@[i]),
        decreases s.len() - j,
    {
        j += 1;
    }
    proof {
        let t = s@.skip(pos as int);
        assert forall|i: int| 0 <= i < j - pos implies is_ascii_digit(#[trigger] t[i]) by {
            assert(t[i] == s@[pos + i]);
        }
        if j < s.len() {
            assert(t[j - pos] == s@[j as int]);
        }
        lemma_leading_digits(t, j - pos);
    }
    j - pos
}

fn read_octet_at(s: &[char], pos: usize) -> (r: Option<(u8, usize)>)
    requires
        pos <= s.len(),
    ensures
        match r {
            Some((v, p)) => p <= s.len() && read_octet(s@.skip(pos as int)) == Some((v, s@.skip(p as int))),
            None => read_octet(s@.skip(pos as int)) is None,
        },
{
    let ghost t = s@.skip(pos as int);
    let n = count_digits(s, pos);
    if n == 0 || n > 3 {
        return None;
    }
    if n > 1 && s[pos] == '0' {
        assert(t[0] == s@[pos as int]);
        return None;
    }
    let digits = &s[pos..pos + n];
    proof {
        assert(digits@ =~= t.take(n as int));
        assert forall|i: int| 0 <= i < n implies is_ascii_digit(#[trigger] digits@[i]) by {
            lemma_prefix_digits(t, n as int, i);
        }
        assert(all_digits(digits@));
        assert(digits@[0] != '+');
        assert(digits@.len() > 0 && digits@[0] == '+' ==> false);
    }
    match parse_decimal(digits, 255) {
        None => None,
        Some(v) => {
            assert(t.skip(n as int) =~= s@.skip(pos + n));
            Some((v as u8, pos + n))
        },
    }
}

proof fn lemma_leading_le(t: Seq<char>)
    ensures
        leading_digits(t) <= t.len(),
    decreases t.len(),
{
    if t.len() > 0 {
        lemma_leading_le(t.drop_first());
    }
}

proof fn lemma_prefix_digits(t: Seq<char>, n: int, i: int)
    requires
        0 <= i < n <= leading_digits(t),
    ensures
        is_ascii_digit(t[i]),
    decreases i,
{
    lemma_leading_le(t);
    assert(t.len() > 0 && is_ascii_digit(t[0]));
    if i > 0 {
        lemma_prefix_digits(t.drop_first(), n - 1, i - 1);
        assert(t.drop_first()[i - 1] == t[i]);
    }
}

fn octet_then_at(s: &[char], pos: usize, sep: char) -> (r: Option<(u8, usize)>)
    requires
        pos <= s.len(),
    ensures
        match r {
            Some((v, p)) => p <= s.len() && octet_then(s@.skip(pos as int), sep) == Some((v, s@.skip(p as int))),
            None => octet_then(s@.skip(pos as int), sep) is None,
        },
{
    let (v, p) = match read_octet_at(s, pos) {
        None => return None,
        Some(x) => x,
    };
    if !(p < s.len() && s[p] == sep) {
        return None;
    }
    assert(s@.skip(p as int).drop_first() =~= s@.skip(p + 1));
    Some((v, p + 1))
}

pub fn port_at(s: &[char], pos: usize) -> (r: Option<u16>)
    requires
        pos <= s.len(),
    ensures
        r == port_spec(s@.skip(pos as int)),
{
    let rest = &s[pos..s.len()];
    assert(rest@ =~= s@.skip(pos as int));
    if rest.len() == 0 || !is_digit(rest[0]) {
        proof {
            if rest.len() > 0 {
                assert(!all_digits(rest@));
            }
        }
        return None;
    }
    match parse_decimal(rest, 65535) {
        None => None,
        Some(port) => Some(port as u16),
    }
}

/// The address and port when the characters are an IPv4 socket address.
pub fn parse_endpoint_chars(s: &[char]) -> (r: Option<Ipv4Endpoint>)
    ensures
        r == endpoint_spec(s@),
{
    assert(s@.skip(0) =~= s@);
    let (a, p1) = match octet_then_at(s, 0, '.') {
        None => return None,
        Some(x) => x,
    };
    let (b, p2) = match octet_then_at(s, p1, '.') {
        None => return None,
        Some(x) => x,
    };
    let (c, p3) = match octet_then_at(s, p2, '.') {
        None => return None,
        Some(x) => x,
    };
    let (d, p4) = match octet_then_at(s, p3, ':') {
        None => return None,
        Some(x) => x,
    };
    match port_at(s, p4) {
        None => None,
        Some(port) => Some(Ipv4Endpoint { a, b, c, d, port }),
    }
}

/// An IPv4 address without a port: four octets separated by dots, and nothing after.
pub open spec fn ipv4_addr_spec(s: Seq<char>) -> Option<(u8, u8, u8, u8)> {
    match octet_then(s, '.') {
        None => None,
        Some((a, r1)) => match octet_then(r1, '.') {
            None => None,
            Some((b, r2)) => match octet_then(r2, '.') {
                None => None,
                Some((c, r3)) => match read_octet(r3) {
                    Some((d, r4)) => if r4.len() == 0 {
                        Some((a, b, c, d))
                    } else {
                        None
                    },
                    None => None,
                },
            },
        },
    }
}

pub fn parse_ipv4_addr_chars(s: &[char]) -> (r: Option<(u8, u8, u8, u8)>)
    ensures
        r == ipv4_addr_spec(s@),
{
    assert(s@.skip(0) =~= s@);
    let (a, p1) = match octet_then_at(s, 0, '.') {
        None => return None,
        Some(x) => x,
    };
    let (b, p2) = match octet_then_at(s, p1, '.') {
        None => return None,
        Some(x) => x,
    };
    let (c, p3) = match octet_then_at(s, p2, '.') {
        None => return None,
        Some(x) => x,
    };
    match read_octet_at(s, p3) {
        None => None,
        Some((d, p4)) => {
            if p4 == s.len() {
                assert(s@.skip(p4 as int) =~= Seq::<char>::empty());
                Some((a, b, c, d))
            } else {
                None
            }
        },
    }
}

/// The address and port when the trimmed text is an IPv4 socket address.
pub fn parse_socket_addr_v4(value: &str) -> (r: Option<Ipv4Endpoint>)
    ensures
        r == endpoint_spec(trim(value@)),
{
    let s = trimmed(value);
    parse_endpoint_chars(s.as_slice())
}

// ---------------------------------------------------------------------------
// Invite codes
// ---------------------------------------------------------------------------

pub const INVITE_MAX_PASSWORD_BYTES: usize = 32;

pub const INVITE_SALT_BYTES: usize = 12;

pub const INVITE_CIPHER_BYTES: usize = 6;

pub const INVITE_TAG_BYTES: usize = 8;

pub const INVITE_PAYLOAD_BYTES: usize = 27;

#[derive(Debug, Clone, Copy, PartialEq, Eq, Structural)]
pub enum InviteError {
    /// The server address is not an IPv4 address with a port (IPv6 is not supported).
    UnsupportedAddress,
    PasswordRequired,
    PasswordTooLong,
    InvalidPrefix,
    InvalidCharacter,
    PayloadLength,
    UnsupportedVersion,
    /// The password is wrong or the code was altered.
    BadChecksum,
}

/// The SHA-256 digest of some bytes. It depends on the bytes alone.
pub uninterp spec fn sha256(data: Seq<u8>) -> Seq<u8>;

/// `sha2::Sha256::digest`: the SHA-256 hash of the bytes, always 32 bytes.
#[verifier::external_body]
fn sha256_digest(data: &[u8]) -> (r: Vec<u8>)
    ensures
        r@ == sha256(data@),
        r@.len() == 32,
{
    sha2::Sha256::digest(data).to_vec()
}

pub open spec fn enc_label() -> Seq<u8> {
    encode_utf8("tunetui-invite-enc-v2"@)
}

pub open spec fn mac_label() -> Seq<u8> {
    encode_utf8("tunetui-invite-mac-v2"@)
}

pub open spec fn stream_label() -> Seq<u8> {
    encode_utf8("tunetui-invite-stream-v2"@)
}

pub open spec fn tag_label() -> Seq<u8> {
    encode_utf8("tunetui-invite-tag-v2"@)
}

pub open spec fn enc_key(password: Seq<u8>, salt: Seq<u8>) -> Seq<u8> {
    sha256(enc_label() + password + salt)
}

pub open spec fn mac_key(password: Seq<u8>, salt: Seq<u8>) -> Seq<u8> {
    sha256(mac_label() + password + salt)
}

/// Block `c` of the keystream: the digest of the label, the key and the counter as eight
/// big-endian bytes.
pub open spec fn stream_block(key: Seq<u8>, c: nat) -> Seq<u8> {
    sha256(stream_label() + key + to_base(c, 8, 256))
}

/// The first `len` bytes of the keystream, 32 bytes per block.
pub open spec fn keystream(key: Seq<u8>, len: nat) -> Seq<u8> {
    Seq::new(len, |i: int| stream_block(key, (i / 32) as nat)[i % 32])
}

pub open spec fn invite_tag(mac: Seq<u8>, salt: Seq<u8>, cipher: Seq<u8>) -> Seq<u8> {
    Seq::new(8, |i: int| sha256(tag_label() + mac + salt + cipher)[i])
}

pub open spec fn xor_bytes(a: Seq<u8>, b: Seq<u8>) -> Seq<u8> {
    Seq::new(a.len(), |i: int| a[i] ^ b[i])
}

/// The six clear bytes of an invite: the address, then the port big-endian.
pub open spec fn clear_bytes(e: Ipv4Endpoint) -> Seq<u8> {
    seq![e.a, e.b, e.c, e.d, (e.port / 256) as u8, (e.port % 256) as u8]
}

pub open spec fn endpoint_of(clear: Seq<u8>) -> Ipv4Endpoint {
    Ipv4Endpoint {
        a: clear[0],
        b: clear[1],
        c: clear[2],
        d: clear[3],
        port: (clear[4] * 256 + clear[5]) as u16,
    }
}

pub open spec fn invite_cipher(e: Ipv4Endpoint, password: Seq<u8>, salt: Seq<u8>) -> Seq<u8> {
    xor_bytes(clear_bytes(e), keystream(enc_key(password, salt), 6))
}

/// The payload of an invite: version 2, the salt, the encrypted address and the tag.
pub open spec fn invite_payload(e: Ipv4Endpoint, password: Seq<u8>, salt: Seq<u8>) -> Seq<u8> {
    let cipher = invite_cipher(e, password, salt);
    seq![2u8] + salt + cipher + invite_tag(mac_key(password, salt), salt, cipher)
}

/// The invite code for an address under a password and salt: `T2` and the base32 payload.
pub open spec fn invite_text(e: Ipv4Endpoint, password: Seq<u8>, salt: Seq<u8>) -> Seq<char> {
    "T2"@ + base32_text(invite_payload(e, password, salt))
}

/// The password as the invite uses it: its trimmed UTF-8 bytes.
pub open spec fn password_bytes(password: Seq<char>) -> Seq<u8> {
    encode_utf8(trim(password))
}

/// What decoding a code with a password gives: the address text and the normalized code.
pub open spec fn decoded_invite(code: Seq<char>, password: Seq<char>) -> Result<(Seq<char>, Seq<char>), InviteError> {
    let t = upper_seq(trim(code));
    if !(t.len() >= 2 && t[0] == 'T' && t[1] == '2') {
        Err(InviteError::InvalidPrefix)
    } else if trim(password).len() == 0 {
        Err(InviteError::PasswordRequired)
    } else {
        match base32_decoded(t.skip(2)) {
            None => Err(InviteError::InvalidCharacter),
            Some(bytes) => if bytes.len() != INVITE_PAYLOAD_BYTES {
                Err(InviteError::PayloadLength)
            } else if bytes[0] != 2 {
                Err(InviteError::UnsupportedVersion)
            } else {
                let salt = bytes.subrange(1, 13);
                let cipher = bytes.subrange(13, 19);
                let pw = password_bytes(password);
                if bytes.subrange(19, 27) != invite_tag(mac_key(pw, salt), salt, cipher) {
                    Err(InviteError::BadChecksum)
                } else {
                    let clear = xor_bytes(cipher, keystream(enc_key(pw, salt), 6));
                    Ok((endpoint_text(endpoint_of(clear)), t))
                }
            },
        }
    }
}

fn be_bytes(v: u64, k: usize) -> (r: Vec<u8>)
    ensures
        r@ == to_base(v as nat, k as nat, 256),
    decreases k,
{
    if k == 0 {
        Vec::new()
    } else {
        let mut r = be_bytes(v / 256, k - 1);
        r.push((v % 256) as u8);
        r
    }
}

fn concat_bytes(a: &[u8], b: &[u8]) -> (r: Vec<u8>)
    ensures
        r@ == a@ + b@,
{
    let mut r: Vec<u8> = Vec::new();
    let mut i: usize = 0;
    while i < a.len()
        invariant
            i <= a.len(),
            r@ == a@.take(i as int),
        decreases a.len() - i,
    {
        r.push(a[i]);
        i += 1;
        assert(r@ =~= a@.take(i as int));
    }
    let mut j: usize = 0;
    while j < b.len()
        invariant
            j <= b.len(),
            i == a.len(),
            r@ == a@ + b@.take(j as int),
        decreases b.len() - j,
    {
        r.push(b[j]);
        j += 1;
        assert(r@ =~= a@ + b@.take(j as int));
    }
    assert(a@.take(a.len() as int) =~= a@);
    assert(b@.take(b.len() as int) =~= b@);
    r
}

/// Derives the encryption and authentication keys from the password bytes and the salt.
fn derive_invite_keys(password: &[u8], salt: &[u8]) -> (r: (Vec<u8>, Vec<u8>))
    ensures
        r.0@ == enc_key(password@, salt@),
        r.1@ == mac_key(password@, salt@),
        r.0@.len() == 32,
        r.1@.len() == 32,
{
    let e = concat_bytes("tunetui-invite-enc-v2".as_bytes(), password);
    let e = concat_bytes(e.as_slice(), salt);
    let m = concat_bytes("tunetui-invite-mac-v2".as_bytes(), password);
    let m = concat_bytes(m.as_slice(), salt);
    (sha256_digest(e.as_slice()), sha256_digest(m.as_slice()))
}

/// The first `len` bytes of the keystream for a key.
fn invite_keystream(enc_key: &[u8], len: usize) -> (r: Vec<u8>)
    ensures
        r@ == keystream(enc_key@, len as nat),
{
    let mut out: Vec<u8> = Vec::new();
    let mut counter: u64 = 0;
    while out.len() < len
        invariant
            out@.len() <= len,
            out@.len() == 32 * counter || out@.len() == len,
            out@.len() < len ==> out@.len() == 32 * counter,
            forall|i: int| 0 <= i < out@.len() ==> (#[trigger] out@[i]) == keystream(enc_key@, len as nat)[i],
        decreases len - out@.len(),
    {
        let ctr = be_bytes(counter, 8);
        let prefix = concat_bytes("tunetui-invite-stream-v2".as_bytes(), enc_key);
        let input = concat_bytes(prefix.as_slice(), ctr.as_slice());
        let block = sha256_digest(input.as_slice());
        assert(block@ == stream_block(enc_key@, counter as nat));
        let remaining = len - out.len();
        let take = if remaining < 32 { remaining } else { 32 };
        let base = out.len();
        let mut k: usize = 0;
        while k < take
            invariant
                take <= 32,
                block@.len() == 32,
                base == 32 * counter,
                base + take <= len,
                k <= take,
                out@.len() == base + k,
                block@ == stream_block(enc_key@, counter as nat),
                forall|i: int| 0 <= i < out@.len() ==> (#[trigger] out@[i]) == keystream(enc_key@, len as nat)[i],
            decreases take - k,
        {
            proof {
                let i = (base + k) as int;
                assert(i / 32 == counter as int) by (nonlinear_arith)
                    requires
                        i == 32 * counter + k,
                        0 <= k < 32,
                ;
                assert(i % 32 == k as int) by (nonlinear_arith)
                    requires
                        i == 32 * counter + k,
                        0 <= k < 32,
                ;
            }
            out.push(block[k]);
            k += 1;
        }
        counter = counter.saturating_add(1);
        assert(out@.len() < len ==> take == 32);
    }
    assert(out@ =~= keystream(enc_key@, len as nat));
    out
}

fn xor_into(a: &[u8], b: &[u8]) -> (r: Vec<u8>)
    requires
        b@.len() >= a@.len(),
    ensures
        r@ == xor_bytes(a@, b@),
{
    let mut r: Vec<u8> = Vec::new();
    let mut i: usize = 0;
    while i < a.len()
        invariant
            i <= a.len(),
            b@.len() >= a@.len(),
            r@.len() == i,
            forall|k: int| 0 <= k < i ==> (#[trigger] r@[k]) == a@[k] ^ b@[k],
        decreases a.len() - i,
    {
        r.push(a[i] ^ b[i]);
        i += 1;
    }
    assert(r@ =~= xor_bytes(a@, b@));
    r
}

/// The eight-byte tag over the salt and the encrypted address.
fn invite_mac(mac_key: &[u8], salt: &[u8], cipher: &[u8]) -> (r: Vec<u8>)
    ensures
        r@ == invite_tag(mac_key@, salt@, cipher@),
{
    let x = concat_bytes("tunetui-invite-tag-v2".as_bytes(), mac_key);
    let x = concat_bytes(x.as_slice(), salt);
    let x = concat_bytes(x.as_slice(), cipher);
    let full = sha256_digest(x.as_slice());
    let tag = crate::id3::slice_to_vec(full.as_slice(), 0, 8);
    assert(tag@ =~= invite_tag(mac_key@, salt@, cipher@));
    tag
}

/// The invite for an address and password with a given salt.
pub fn invite_code_with_salt(endpoint: Ipv4Endpoint, password: &[u8], salt: &[u8]) -> (r: String)
    ensures
        r@ == invite_text(endpoint, password@, salt@),
{
    let clear: Vec<u8> = vec![
        endpoint.a,
        endpoint.b,
        endpoint.c,
        endpoint.d,
        (endpoint.port / 256) as u8,
        (endpoint.port % 256) as u8,
    ];
    assert(clear@ =~= clear_bytes(endpoint));
    let (enc, mac) = derive_invite_keys(password, salt);
    let ks = invite_keystream(enc.as_slice(), INVITE_CIPHER_BYTES);
    let cipher = xor_into(clear.as_slice(), ks.as_slice());
    let tag = invite_mac(mac.as_slice(), salt, cipher.as_slice());
    let version: Vec<u8> = vec![2u8];
    let p = concat_bytes(version.as_slice(), salt);
    let p = concat_bytes(p.as_slice(), cipher.as_slice());
    let payload = concat_bytes(p.as_slice(), tag.as_slice());
    assert(payload@ =~= invite_payload(endpoint, password@, salt@));
    let text = base32_encode_no_padding(payload.as_slice());
    let mut code = chars_of("T2");
    let mut i: usize = 0;
    let ghost start = code@;
    while i < text.len()
        invariant
            i <= text.len(),
            code@ == start + text@.take(i as int),
        decreases text.len() - i,
    {
        code.push(text[i]);
        i += 1;
        assert(code@ =~= start + text@.take(i as int));
    }
    assert(text@.take(text.len() as int) =~= text@);
    string_from_chars(code.as_slice())
}

/// A new invite code for the server address under the password, with a fresh random salt.
pub fn build_invite_code(server_addr: &str, password: &str) -> (r: Result<String, InviteError>)
    ensures
        endpoint_spec(trim(server_addr@)) is None ==> r == Err::<String, InviteError>(
            InviteError::UnsupportedAddress,
        ),
        endpoint_spec(trim(server_addr@)) is Some && password_bytes(password@).len() == 0 ==> r
            == Err::<String, InviteError>(InviteError::PasswordRequired),
        endpoint_spec(trim(server_addr@)) is Some && password_bytes(password@).len()
            > INVITE_MAX_PASSWORD_BYTES ==> r == Err::<String, InviteError>(
            InviteError::PasswordTooLong,
        ),
        endpoint_spec(trim(server_addr@)) is Some && 0 < password_bytes(password@).len()
            <= INVITE_MAX_PASSWORD_BYTES ==> (r matches Ok(code) && exists|salt: Seq<u8>|
            salt.len() == INVITE_SALT_BYTES && code@ == invite_text(
                endpoint_spec(trim(server_addr@))->0,
                password_bytes(password@),
                salt,
            )),
{
    let endpoint = match parse_socket_addr_v4(server_addr) {
        None => return Err(InviteError::UnsupportedAddress),
        Some(e) => e,
    };
    let t = trimmed(password);
    let pw = string_from_chars(t.as_slice());
    let pwb = pw.as_str().as_bytes();
    if pwb.len() == 0 {
        return Err(InviteError::PasswordRequired);
    }
    if pwb.len() > INVITE_MAX_PASSWORD_BYTES {
        return Err(InviteError::PasswordTooLong);
    }
    let mut salt: Vec<u8> = vec![0u8; INVITE_SALT_BYTES];
    let mut rng = thread_rng();
    fill_random_bytes(&mut rng, &mut salt);
    let code = invite_code_with_salt(endpoint, pwb, salt.as_slice());
    Ok(code)
}

/// The server address behind an invite code, when the password matches.
pub struct DecodedInvite {
    pub server_addr: String,
    pub room_code: String,
}

pub fn decode_invite_code(code: &str, password: &str) -> (r: Result<DecodedInvite, InviteError>)
    ensures
        match r {
            Ok(d) => decoded_invite(code@, password@) == Ok::<(Seq<char>, Seq<char>), InviteError>(
                (d.server_addr@, d.room_code@),
            ),
            Err(e) => decoded_invite(code@, password@) == Err::<(Seq<char>, Seq<char>), InviteError>(e),
        },
{
    let t0 = trimmed(code);
    let t = upper_chars(t0.as_slice());
    if !(t.len() >= 2 && t[0] == 'T' && t[1] == '2') {
        return Err(InviteError::InvalidPrefix);
    }
    let pt = trimmed(password);
    if pt.len() == 0 {
        return Err(InviteError::PasswordRequired);
    }
    let rest = &t.as_slice()[2..t.len()];
    assert(rest@ =~= t@.skip(2));
    let bytes = match base32_decode_no_padding(rest) {
        None => return Err(InviteError::InvalidCharacter),
        Some(b) => b,
    };
    if bytes.len() != INVITE_PAYLOAD_BYTES {
        return Err(InviteError::PayloadLength);
    }
    if bytes[0] != 2 {
        return Err(InviteError::UnsupportedVersion);
    }
    let salt = &bytes.as_slice()[1..13];
    let cipher = &bytes.as_slice()[13..19];
    let tag = &bytes.as_slice()[19..27];
    let pw = string_from_chars(pt.as_slice());
    let pwb = pw.as_str().as_bytes();
    let (enc, mac) = derive_invite_keys(pwb, salt);
    let expected = invite_mac(mac.as_slice(), salt, cipher);
    if !crate::online_net::constant_time_eq(tag, expected.as_slice()) {
        return Err(InviteError::BadChecksum);
    }
    let ks = invite_keystream(enc.as_slice(), INVITE_CIPHER_BYTES);
    let clear = xor_into(cipher, ks.as_slice());
    let port: u16 = (clear[4] as u16) * 256 + clear[5] as u16;
    let endpoint = Ipv4Endpoint { a: clear[0], b: clear[1], c: clear[2], d: clear[3], port };
    Ok(DecodedInvite { server_addr: format_endpoint(endpoint), room_code: string_from_chars(t.as_slice()) })
}


/// The characters of an invite code are upper case and not white space.
proof fn lemma_invite_text_plain(code: Seq<char>, text: Seq<char>, ds: Seq<u8>)
    requires
        code == "T2"@ + text,
        text == ds.map_values(|d: u8| alpha_code(d as nat) as char),
        digits_below(ds, 32),
        text.len() > 0,
    ensures
        upper_seq(trim(code)) == code,
{
    reveal_strlit("T2");
    assert forall|i: int| 0 <= i < text.len() implies !is_white_space(#[trigger] text[i]) && ascii_upper(text[i]) == text[i] by {
        assert(ds[i] < 32);
        assert(text[i] == alpha_code(ds[i] as nat) as char);
    }
    assert(code[0] == 'T');
    assert(code.last() == text.last());
    assert(trim_start(code) == code);
    assert(trim_end(code) == code);
    assert forall|i: int| 0 <= i < code.len() implies ascii_upper(#[trigger] code[i]) == code[i] by {
        if i >= 2 {
            assert(code[i] == text[i - 2]);
        }
    }
    assert(upper_seq(code) =~= code);
}

/// Decoding an invite with the password it was made with gives back the address, as text,
/// and the code itself; whatever the salt.
pub proof fn invite_code_round_trip(e: Ipv4Endpoint, password: Seq<char>, salt: Seq<u8>)
    requires
        salt.len() == INVITE_SALT_BYTES,
        trim(password).len() > 0,
    ensures
        decoded_invite(invite_text(e, password_bytes(password), salt), password) == Ok::<
            (Seq<char>, Seq<char>),
            InviteError,
        >((endpoint_text(e), invite_text(e, password_bytes(password), salt))),
{
    let pw = password_bytes(password);
    let payload = invite_payload(e, pw, salt);
    let cipher = invite_cipher(e, pw, salt);
    let tag = invite_tag(mac_key(pw, salt), salt, cipher);
    let ds = base32_digits(payload);
    let text = base32_text(payload);
    let code = invite_text(e, pw, salt);
    assert(cipher.len() == 6);
    assert(payload.len() == INVITE_PAYLOAD_BYTES);
    let k = (8 * payload.len() + 4) / 5;
    let pad = (5 * k - 8 * payload.len()) as nat;
    assert(digits_below(payload, 256)) by {
        assert forall|j: int| 0 <= j < payload.len() implies (#[trigger] payload[j]) < 256 by {}
    }
    lemma_val_base_bound(payload, 256);
    lemma_pow_of_pow2(payload.len(), 8);
    lemma_pow_of_pow2(k, 5);
    lemma_pow_adds(2, 8 * payload.len(), pad);
    lemma_pow_pos(2, pad);
    assert(val_base(payload, 256) * pow_nat(2, pad) < pow_nat(32, k)) by (nonlinear_arith)
        requires
            val_base(payload, 256) < pow_nat(2, 8 * payload.len()),
            pow_nat(2, pad) > 0,
            pow_nat(32, k) == pow_nat(2, 8 * payload.len()) * pow_nat(2, pad),
    ;
    lemma_val_of_to_base(val_base(payload, 256) * pow_nat(2, pad), k, 32);
    assert(ds.len() == k && k > 0);
    assert(digits_text(ds, text));
    lemma_invite_text_plain(code, text, ds);
    reveal_strlit("T2");
    assert(code.skip(2) =~= text);
    base32_round_trip(payload, text);
    assert(payload.subrange(1, 13) =~= salt);
    assert(payload.subrange(13, 19) =~= cipher);
    assert(payload.subrange(19, 27) =~= tag);
    let ks = keystream(enc_key(pw, salt), 6);
    let clear = xor_bytes(cipher, ks);
    assert forall|j: int| 0 <= j < 6 implies #[trigger] clear[j] == clear_bytes(e)[j] by {
        let x = clear_bytes(e)[j];
        let y = ks[j];
        assert((x ^ y) ^ y == x) by (bit_vector);
    }
    assert(clear =~= clear_bytes(e));
    assert(endpoint_of(clear) == e) by {
        assert((e.port / 256) as u8 * 256 + (e.port % 256) as u8 == e.port);
    }
}

} // verus!
