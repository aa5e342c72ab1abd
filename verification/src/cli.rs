use crate::invite::{endpoint_spec, ipv4_addr_spec, parse_endpoint_chars, parse_ipv4_addr_chars};
use crate::netaddr::{ipv6_text, is_ipv6_addr, parse_socket_v6, socket_v6};
use crate::text::{
    all_digits, chars_of, eq_ignore_case, contains_chars, decimal, extend_str, has_substring, is_ascii_digit,
    is_digit, parse_decimal, parse_unsigned, push_decimal, string_from_chars, sub_chars, trim,
    trim_chars,
};
use vstd::prelude::*;

verus! {

// ---------------------------------------------------------------------------
// Command-line values
// ---------------------------------------------------------------------------

pub const DEFAULT_HOME_SERVER_PORT: u16 = 7878;

pub const MIN_SCREENSHOT_COLS: u16 = 60;

pub const MIN_SCREENSHOT_ROWS: u16 = 20;

#[derive(Debug, Clone, Copy, PartialEq, Eq, Structural)]
pub enum CliError {
    /// A port range without a `-`.
    PortRangeFormat,
    InvalidStartPort,
    InvalidEndPort,
    /// Port 0 at either end.
    PortOutOfRange,
    /// A range whose start lies after its end.
    PortRangeOrder,
    /// A screenshot size without an `x`.
    ScreenshotSizeFormat,
    InvalidScreenshotColumns,
    InvalidScreenshotRows,
    ScreenshotTooSmall,
}

/// Whether `i` is the first position of `s` whose character `sep` accepts.
pub open spec fn is_first_sep(s: Seq<char>, i: int, sep: spec_fn(char) -> bool) -> bool {
    &&& 0 <= i < s.len()
    &&& sep(s[i])
    &&& forall|j: int| 0 <= j < i ==> !sep(#[trigger] s[j])
}

/// `str::split_once` at the first character that `sep` accepts.
pub open spec fn split_once(s: Seq<char>, sep: spec_fn(char) -> bool) -> Option<(Seq<char>, Seq<char>)> {
    if exists|i: int| is_first_sep(s, i, sep) {
        let i = choose|i: int| is_first_sep(s, i, sep);
        Some((s.take(i), s.skip(i + 1)))
    } else {
        None
    }
}

pub open spec fn is_dash(c: char) -> bool {
    c == '-'
}

pub open spec fn is_times(c: char) -> bool {
    c == 'x' || c == 'X'
}

pub open spec fn sep_of(times: bool) -> spec_fn(char) -> bool {
    if times {
        |c: char| is_times(c)
    } else {
        |c: char| is_dash(c)
    }
}

fn first_sep(s: &[char], times: bool) -> (r: Option<usize>)
    ensures
        match r {
            Some(i) => is_first_sep(s@, i as int, sep_of(times)),
            None => !exists|i: int| #[trigger] is_first_sep(s@, i, sep_of(times)),
        },
{
    let ghost sep = sep_of(times);
    let mut i: usize = 0;
    while i < s.len()
        invariant
            i <= s.len(),
            sep == sep_of(times),
            forall|j: int| 0 <= j < i ==> !sep(#[trigger] s@[j]),
        decreases s.len() - i,
    {
        let c = s[i];
        let hit = if times {
            c == 'x' || c == 'X'
        } else {
            c == '-'
        };
        if hit {
            assert(sep(s@[i as int]));
            return Some(i);
        }
        i += 1;
    }
    None
}

/// Splits at the first separator into the trimmed text before and after it.
fn split_trimmed(t: &[char], times: bool) -> (r: Option<(Vec<char>, Vec<char>)>)
    ensures
        match r {
            Some((a, b)) => split_once(t@, sep_of(times)) matches Some((x, y))
                && a@ == trim(x) && b@ == trim(y),
            None => split_once(t@, sep_of(times)) is None,
        },
{
    let ghost sep = sep_of(times);
    match first_sep(t, times) {
        None => None,
        Some(i) => {
            proof {
                let k = choose|k: int| is_first_sep(t@, k, sep);
                if k < i {
                    assert(!sep(t@[k]));
                }
                if i < k {
                    assert(!sep(t@[i as int]));
                }
            }
            let left = sub_chars(t, 0, i);
            let right = sub_chars(t, i + 1, t.len());
            assert(left@ == t@.take(i as int));
            assert(right@ == t@.skip(i + 1));
            Some((trim_chars(left.as_slice()), trim_chars(right.as_slice())))
        },
    }
}

/// A `start-end` port range: both ends trimmed decimal `u16`s (an optional `+` allowed), not
/// zero, with the start not after the end.
pub open spec fn port_range_spec(raw: Seq<char>) -> Result<(u16, u16), CliError> {
    match split_once(trim(raw), sep_of(false)) {
        None => Err(CliError::PortRangeFormat),
        Some((a, b)) => match parse_unsigned(trim(a), 65535) {
            None => Err(CliError::InvalidStartPort),
            Some(start) => match parse_unsigned(trim(b), 65535) {
                None => Err(CliError::InvalidEndPort),
                Some(end) => if start == 0 || end == 0 {
                    Err(CliError::PortOutOfRange)
                } else if start > end {
                    Err(CliError::PortRangeOrder)
                } else {
                    Ok((start as u16, end as u16))
                },
            },
        },
    }
}

pub fn parse_port_range(raw: &str) -> (r: Result<(u16, u16), CliError>)
    ensures
        r == port_range_spec(raw@),
{
    let cs = chars_of(raw);
    let t = trim_chars(cs.as_slice());
    let (a, b) = match split_trimmed(t.as_slice(), false) {
        None => return Err(CliError::PortRangeFormat),
        Some(p) => p,
    };
    let start = match parse_decimal(a.as_slice(), 65535) {
        None => return Err(CliError::InvalidStartPort),
        Some(v) => v,
    };
    let end = match parse_decimal(b.as_slice(), 65535) {
        None => return Err(CliError::InvalidEndPort),
        Some(v) => v,
    };
    if start == 0 || end == 0 {
        return Err(CliError::PortOutOfRange);
    }
    if start > end {
        return Err(CliError::PortRangeOrder);
    }
    Ok((start as u16, end as u16))
}

/// A `COLSxROWS` size (either `x` or `X`): both trimmed decimal `u16`s, at least 60 columns
/// by 20 rows.
pub open spec fn screenshot_size_spec(raw: Seq<char>) -> Result<(u16, u16), CliError> {
    match split_once(trim(raw), sep_of(true)) {
        None => Err(CliError::ScreenshotSizeFormat),
        Some((a, b)) => match parse_unsigned(trim(a), 65535) {
            None => Err(CliError::InvalidScreenshotColumns),
            Some(cols) => match parse_unsigned(trim(b), 65535) {
                None => Err(CliError::InvalidScreenshotRows),
                Some(rows) => if cols < MIN_SCREENSHOT_COLS || rows < MIN_SCREENSHOT_ROWS {
                    Err(CliError::ScreenshotTooSmall)
                } else {
                    Ok((cols as u16, rows as u16))
                },
            },
        },
    }
}

pub fn parse_screenshot_size(raw: &str) -> (r: Result<(u16, u16), CliError>)
    ensures
        r == screenshot_size_spec(raw@),
{
    let cs = chars_of(raw);
    let t = trim_chars(cs.as_slice());
    let (a, b) = match split_trimmed(t.as_slice(), true) {
        None => return Err(CliError::ScreenshotSizeFormat),
        Some(p) => p,
    };
    let cols = match parse_decimal(a.as_slice(), 65535) {
        None => return Err(CliError::InvalidScreenshotColumns),
        Some(v) => v,
    };
    let rows = match parse_decimal(b.as_slice(), 65535) {
        None => return Err(CliError::InvalidScreenshotRows),
        Some(v) => v,
    };
    if cols < MIN_SCREENSHOT_COLS as u32 || rows < MIN_SCREENSHOT_ROWS as u32 {
        return Err(CliError::ScreenshotTooSmall);
    }
    Ok((cols as u16, rows as u16))
}


// ---------------------------------------------------------------------------
// Home server addresses
// ---------------------------------------------------------------------------

/// Position of the last `c` in `s`, or -1.
pub open spec fn last_index(s: Seq<char>, c: char) -> int
    decreases s.len(),
{
    if s.len() == 0 {
        -1
    } else if s.last() == c {
        s.len() - 1
    } else {
        last_index(s.drop_last(), c)
    }
}

/// Text ending in `:` and a port of digits.
pub open spec fn has_port_suffix(raw: Seq<char>) -> bool {
    let i = last_index(raw, ':');
    i >= 0 && raw.skip(i + 1).len() > 0 && all_digits(raw.skip(i + 1))
}

/// A home server address with the default port added when it has none: a socket address
/// stays as it is, an IPv4 address gets the port, an IPv6 address gets brackets and the
/// port, and other text gets the port unless it ends in `:` and digits (or, bracketed, holds
/// `]:`).
pub open spec fn normalized_server_addr(raw: Seq<char>) -> Seq<char> {
    let default_port = ":"@ + decimal(DEFAULT_HOME_SERVER_PORT as nat);
    if endpoint_spec(raw) is Some || socket_v6(raw) is Some {
        raw
    } else if ipv4_addr_spec(raw) is Some {
        raw + default_port
    } else if ipv6_text(raw) {
        "["@ + raw + "]"@ + default_port
    } else if raw.len() > 0 && raw[0] == '[' {
        if has_substring(raw, "]:"@) {
            raw
        } else {
            raw + default_port
        }
    } else if has_port_suffix(raw) {
        raw
    } else {
        raw + default_port
    }
}

fn last_colon(s: &[char]) -> (r: Option<usize>)
    ensures
        match r {
            Some(i) => last_index(s@, ':') == i as int && i < s.len(),
            None => last_index(s@, ':') == -1,
        },
{
    let mut i = s.len();
    assert(s@.take(i as int) =~= s@);
    while i > 0
        invariant
            i <= s.len(),
            last_index(s@, ':') == last_index(s@.take(i as int), ':'),
        decreases i,
    {
        assert(s@.take(i as int).drop_last() =~= s@.take(i - 1));
        if s[i - 1] == ':' {
            return Some(i - 1);
        }
        i -= 1;
    }
    None
}

fn all_ascii_digits(s: &[char]) -> (r: bool)
    ensures
        r == all_digits(s@),
{
    let mut i: usize = 0;
    while i < s.len()
        invariant
            i <= s.len(),
            forall|k: int| 0 <= k < i ==> is_ascii_digit(#[trigger] s@[k]),
        decreases s.len() - i,
    {
        if !is_digit(s[i]) {
            return false;
        }
        i += 1;
    }
    true
}

pub fn normalize_home_server_addr(raw: &str) -> (r: String)
    ensures
        r@ == normalized_server_addr(raw@),
{
    let cs = chars_of(raw);
    let mut suffix: Vec<char> = chars_of(":");
    push_decimal(&mut suffix, DEFAULT_HOME_SERVER_PORT as u64);
    if parse_endpoint_chars(cs.as_slice()).is_some() || parse_socket_v6(cs.as_slice()).is_some() {
        return raw.to_owned();
    }
    let mut out = chars_of(raw);
    if parse_ipv4_addr_chars(cs.as_slice()).is_some() {
        crate::text::extend_chars(&mut out, suffix.as_slice());
        return string_from_chars(out.as_slice());
    }
    if is_ipv6_addr(cs.as_slice()) {
        let mut v6 = chars_of("[");
        extend_str(&mut v6, raw);
        extend_str(&mut v6, "]");
        crate::text::extend_chars(&mut v6, suffix.as_slice());
        return string_from_chars(v6.as_slice());
    }
    if cs.len() > 0 && cs[0] == '[' {
        let marker = chars_of("]:");
        if contains_chars(cs.as_slice(), marker.as_slice()) {
            return raw.to_owned();
        }
        crate::text::extend_chars(&mut out, suffix.as_slice());
        return string_from_chars(out.as_slice());
    }
    match last_colon(cs.as_slice()) {
        Some(i) => {
            let port = sub_chars(cs.as_slice(), i + 1, cs.len());
            assert(port@ == cs@.skip(i + 1));
            if port.len() > 0 && all_ascii_digits(port.as_slice()) {
                return raw.to_owned();
            }
        },
        None => {},
    }
    crate::text::extend_chars(&mut out, suffix.as_slice());
    string_from_chars(out.as_slice())
}

/// Where the app running beside a home server connects: loopback with the bound port when
/// the server binds the unspecified address (IPv4 or IPv6), else the bind address itself.
pub open spec fn local_target(bind: Seq<char>) -> Seq<char> {
    match endpoint_spec(bind) {
        Some(e) => if e.a == 0 && e.b == 0 && e.c == 0 && e.d == 0 {
            "127.0.0.1:"@ + decimal(e.port as nat)
        } else {
            bind
        },
        None => match socket_v6(bind) {
            Some((true, p)) => "127.0.0.1:"@ + decimal(p as nat),
            _ => bind,
        },
    }
}

pub fn local_home_target_from_bind_addr(bind_addr: &str) -> (r: String)
    ensures
        r@ == local_target(bind_addr@),
{
    let cs = chars_of(bind_addr);
    let port = match parse_endpoint_chars(cs.as_slice()) {
        Some(e) => {
            if e.a == 0 && e.b == 0 && e.c == 0 && e.d == 0 {
                Some(e.port)
            } else {
                None
            }
        },
        None => match parse_socket_v6(cs.as_slice()) {
            Some((true, p)) => Some(p),
            _ => None,
        },
    };
    match port {
        Some(p) => {
            let mut out = chars_of("127.0.0.1:");
            push_decimal(&mut out, p as u64);
            string_from_chars(out.as_slice())
        },
        None => bind_addr.to_owned(),
    }
}

// ---------------------------------------------------------------------------
// The command line
// ---------------------------------------------------------------------------

pub const DEFAULT_ROOM_PORT_START: u16 = 9000;

pub const DEFAULT_ROOM_PORT_END: u16 = 9100;

/// What the command line asks for.
#[derive(Debug)]
pub struct CliArgs {
    pub host: bool,
    pub app: bool,
    pub ip: Option<String>,
    pub host_ip: Option<String>,
    pub room_port_range: Option<(u16, u16)>,
    pub screenshots: bool,
    pub screenshot_pages: Vec<String>,
    pub screenshot_sizes: Vec<(u16, u16)>,
    /// The font scale as written; it is read as a positive number where it is used.
    pub screenshot_font_scale: Option<String>,
    /// `-h` or `--help` was given: the usage is to be shown and nothing else done.
    pub help: bool,
}

pub struct ArgsView {
    pub host: bool,
    pub app: bool,
    pub ip: Option<Seq<char>>,
    pub host_ip: Option<Seq<char>>,
    pub room_port_range: Option<(u16, u16)>,
    pub screenshots: bool,
    pub screenshot_pages: Seq<Seq<char>>,
    pub screenshot_sizes: Seq<(u16, u16)>,
    pub screenshot_font_scale: Option<Seq<char>>,
    pub help: bool,
}

pub open spec fn text_of(o: Option<String>) -> Option<Seq<char>> {
    match o {
        Some(s) => Some(s@),
        None => None,
    }
}

pub open spec fn all_texts(v: Seq<String>) -> Seq<Seq<char>> {
    v.map_values(|s: String| s@)
}

impl View for CliArgs {
    type V = ArgsView;

    open spec fn view(&self) -> ArgsView {
        ArgsView {
            host: self.host,
            app: self.app,
            ip: text_of(self.ip),
            host_ip: text_of(self.host_ip),
            room_port_range: self.room_port_range,
            screenshots: self.screenshots,
            screenshot_pages: all_texts(self.screenshot_pages@),
            screenshot_sizes: self.screenshot_sizes@,
            screenshot_font_scale: text_of(self.screenshot_font_scale),
            help: self.help,
        }
    }
}

pub open spec fn no_args() -> ArgsView {
    ArgsView {
        host: false,
        app: false,
        ip: None,
        host_ip: None,
        room_port_range: None,
        screenshots: false,
        screenshot_pages: seq![],
        screenshot_sizes: seq![],
        screenshot_font_scale: None,
        help: false,
    }
}

#[derive(Debug, Clone, Copy, PartialEq, Eq, Structural)]
pub enum ArgsErrorKind {
    IpMissing,
    IpEmpty,
    HostIpMissing,
    HostIpEmpty,
    RoomPortRangeMissing,
    RoomPortRange(CliError),
    ScreenshotPagesMissing,
    ScreenshotSizeMissing,
    ScreenshotSize(CliError),
    ScreenshotFontScaleMissing,
    ScreenshotFontScaleInvalid,
    ScreenshotFontScaleNotPositive,
    UnknownArgument,
    HostIpWithoutHost,
    RoomPortRangeWithoutHost,
    ScreenshotOptionsWithoutScreenshots,
    ScreenshotsWithAppOrHost,
    HostIpAndIp,
}

/// How a font scale reads as a number (as `f32` parses text): not a number at all; a
/// number that is not positive (a sign `-`, a zero, infinity or NaN); or a positive number.
#[derive(Debug, Clone, Copy, PartialEq, Eq, Structural)]
pub enum ScaleText {
    Invalid,
    NotPositive,
    Positive,
}

pub open spec fn is_exp_char(c: char) -> bool {
    c == 'e' || c == 'E'
}

/// The position of the first `e` or `E` (the length when there is none).
pub open spec fn exp_pos(u: Seq<char>) -> int
    decreases u.len(),
{
    if u.len() == 0 || is_exp_char(u[0]) {
        0
    } else {
        1 + exp_pos(u.drop_first())
    }
}

/// The position of the first `.` (the length when there is none).
pub open spec fn dot_pos(m: Seq<char>) -> int
    decreases m.len(),
{
    if m.len() == 0 || m[0] == '.' {
        0
    } else {
        1 + dot_pos(m.drop_first())
    }
}

/// Digits, with at most one `.` among them, and at least one digit.
pub open spec fn mantissa_shape(m: Seq<char>) -> bool {
    let d = dot_pos(m);
    let int_part = m.take(d);
    let frac = if d < m.len() {
        m.skip(d + 1)
    } else {
        seq![]
    };
    all_digits(int_part) && all_digits(frac) && int_part.len() + frac.len() > 0
}

pub open spec fn without_sign(v: Seq<char>) -> Seq<char> {
    if v.len() > 0 && (v[0] == '+' || v[0] == '-') {
        v.drop_first()
    } else {
        v
    }
}

/// Nothing, or `e`/`E` followed by an optionally signed run of digits.
pub open spec fn exponent_shape(x: Seq<char>) -> bool {
    x.len() == 0 || (without_sign(x.drop_first()).len() > 0 && all_digits(without_sign(x.drop_first())))
}

pub open spec fn number_shape(u: Seq<char>) -> bool {
    mantissa_shape(u.take(exp_pos(u))) && exponent_shape(u.skip(exp_pos(u)))
}

/// `inf`, `infinity` or `nan`, in any ASCII case.
pub open spec fn special_value(u: Seq<char>) -> bool {
    eq_ignore_case(u, "inf"@) || eq_ignore_case(u, "infinity"@) || eq_ignore_case(u, "nan"@)
}

pub open spec fn scale_text(v: Seq<char>) -> ScaleText {
    let u = without_sign(v);
    if special_value(u) {
        ScaleText::NotPositive
    } else if !number_shape(u) {
        ScaleText::Invalid
    } else if v[0] == '-' || forall|i: int| 0 <= i < exp_pos(u) ==> (#[trigger] u[i]) == '0' || u[i] == '.' {
        ScaleText::NotPositive
    } else {
        ScaleText::Positive
    }
}

fn exp_position(u: &[char]) -> (r: usize)
    ensures
        r as int == exp_pos(u@),
        r <= u.len(),
{
    let mut i: usize = 0;
    assert(u@.skip(0) =~= u@);
    while i < u.len() && !(u[i] == 'e' || u[i] == 'E')
        invariant
            i <= u.len(),
            exp_pos(u@) == i + exp_pos(u@.skip(i as int)),
        decreases u.len() - i,
    {
        assert(u@.skip(i as int).drop_first() =~= u@.skip(i + 1));
        i += 1;
    }
    proof {
        if i < u.len() {
            assert(u@.skip(i as int)[0] == u@[i as int]);
        } else {
            assert(u@.skip(i as int).len() == 0);
        }
    }
    i
}

fn dot_position(m: &[char]) -> (r: usize)
    ensures
        r as int == dot_pos(m@),
        r <= m.len(),
{
    let mut i: usize = 0;
    assert(m@.skip(0) =~= m@);
    while i < m.len() && m[i] != '.'
        invariant
            i <= m.len(),
            dot_pos(m@) == i + dot_pos(m@.skip(i as int)),
        decreases m.len() - i,
    {
        assert(m@.skip(i as int).drop_first() =~= m@.skip(i + 1));
        i += 1;
    }
    proof {
        if i < m.len() {
            assert(m@.skip(i as int)[0] == m@[i as int]);
        } else {
            assert(m@.skip(i as int).len() == 0);
        }
    }
    i
}

fn unsigned_chars(v: &[char]) -> (r: Vec<char>)
    ensures
        r@ == without_sign(v@),
{
    if v.len() > 0 && (v[0] == '+' || v[0] == '-') {
        let r = sub_chars(v, 1, v.len());
        assert(r@ =~= v@.drop_first());
        r
    } else {
        sub_chars(v, 0, v.len())
    }
}

fn mantissa_ok(m: &[char]) -> (r: bool)
    ensures
        r == mantissa_shape(m@),
{
    let d = dot_position(m);
    let int_part = sub_chars(m, 0, d);
    let frac: Vec<char> = if d < m.len() {
        sub_chars(m, d + 1, m.len())
    } else {
        Vec::new()
    };
    assert(int_part@ =~= m@.take(d as int));
    if d < m.len() {
        assert(frac@ =~= m@.skip(d + 1));
    } else {
        assert(frac@ =~= seq![]);
    }
    all_ascii_digits(int_part.as_slice()) && all_ascii_digits(frac.as_slice()) && int_part.len() + frac.len() > 0
}

fn exponent_ok(x: &[char]) -> (r: bool)
    ensures
        r == exponent_shape(x@),
{
    if x.len() == 0 {
        return true;
    }
    let rest = sub_chars(x, 1, x.len());
    assert(rest@ =~= x@.drop_first());
    let digits = unsigned_chars(rest.as_slice());
    digits.len() > 0 && all_ascii_digits(digits.as_slice())
}

/// How a font scale reads as a number (see `scale_text`).
pub fn screenshot_scale_text(v: &str) -> (r: ScaleText)
    ensures
        r == scale_text(v@),
{
    let cs = chars_of(v);
    let u = unsigned_chars(cs.as_slice());
    let us = string_from_chars(u.as_slice());
    if crate::text::eq_ignore_ascii_case(us.as_str(), "inf") || crate::text::eq_ignore_ascii_case(us.as_str(), "infinity")
        || crate::text::eq_ignore_ascii_case(us.as_str(), "nan") {
        return ScaleText::NotPositive;
    }
    let e = exp_position(u.as_slice());
    let m = sub_chars(u.as_slice(), 0, e);
    let x = sub_chars(u.as_slice(), e, u.len());
    assert(m@ =~= u@.take(e as int));
    assert(x@ =~= u@.skip(e as int));
    if !(mantissa_ok(m.as_slice()) && exponent_ok(x.as_slice())) {
        return ScaleText::Invalid;
    }
    let negative = cs.len() > 0 && cs[0] == '-';
    let mut i: usize = 0;
    while i < e && (u[i] == '0' || u[i] == '.')
        invariant
            i <= e <= u.len(),
            forall|k: int| 0 <= k < i ==> (#[trigger] u@[k]) == '0' || u@[k] == '.',
        decreases e - i,
    {
        i += 1;
    }
    assert(cs.len() == 0 ==> u@.len() == 0);
    if negative || i == e {
        ScaleText::NotPositive
    } else {
        ScaleText::Positive
    }
}

/// A refused command line: what is wrong, and the argument at fault when it is unknown.
#[derive(Debug)]
pub struct ArgsError {
    pub kind: ArgsErrorKind,
    pub argument: String,
}

pub open spec fn args_error(kind: ArgsErrorKind) -> (ArgsErrorKind, Seq<char>) {
    (kind, seq![])
}

/// Splits `s` at every `,`, empty pieces kept (read from the left).
pub open spec fn comma_state(s: Seq<char>) -> (Seq<Seq<char>>, Seq<char>)
    decreases s.len(),
{
    if s.len() == 0 {
        (seq![], seq![])
    } else {
        let (done, cur) = comma_state(s.drop_last());
        if s.last() == ',' {
            (done.push(cur), seq![])
        } else {
            (done, cur.push(s.last()))
        }
    }
}

/// The trimmed pieces that are not empty.
pub open spec fn nonblank_trimmed(ps: Seq<Seq<char>>) -> Seq<Seq<char>>
    decreases ps.len(),
{
    if ps.len() == 0 {
        seq![]
    } else if trim(ps.last()).len() > 0 {
        nonblank_trimmed(ps.drop_last()).push(trim(ps.last()))
    } else {
        nonblank_trimmed(ps.drop_last())
    }
}

/// Comma-separated page names, each trimmed, empty ones left out.
pub open spec fn page_list(v: Seq<char>) -> Seq<Seq<char>> {
    nonblank_trimmed(comma_state(v).0.push(comma_state(v).1))
}

/// Reading the arguments from position `i` on, with what was read before in `acc`.
pub open spec fn args_from(args: Seq<Seq<char>>, i: nat, acc: ArgsView) -> Result<ArgsView, (ArgsErrorKind, Seq<char>)>
    decreases args.len() - i,
{
    if i >= args.len() {
        Ok(acc)
    } else {
        let a = args[i as int];
        let has_value = i + 1 < args.len();
        let v = args[i + 1 as int];
        if a == "--host"@ {
            args_from(args, i + 1, ArgsView { host: true, ..acc })
        } else if a == "--app"@ {
            args_from(args, i + 1, ArgsView { app: true, ..acc })
        } else if a == "--ip"@ {
            if !has_value {
                Err(args_error(ArgsErrorKind::IpMissing))
            } else if trim(v).len() == 0 {
                Err(args_error(ArgsErrorKind::IpEmpty))
            } else {
                args_from(args, i + 2, ArgsView { ip: Some(normalized_server_addr(trim(v))), ..acc })
            }
        } else if a == "--host-ip"@ {
            if !has_value {
                Err(args_error(ArgsErrorKind::HostIpMissing))
            } else if trim(v).len() == 0 {
                Err(args_error(ArgsErrorKind::HostIpEmpty))
            } else {
                args_from(args, i + 2, ArgsView { host_ip: Some(normalized_server_addr(trim(v))), ..acc })
            }
        } else if a == "--room-port-range"@ {
            if !has_value {
                Err(args_error(ArgsErrorKind::RoomPortRangeMissing))
            } else {
                match port_range_spec(v) {
                    Ok(r) => args_from(args, i + 2, ArgsView { room_port_range: Some(r), ..acc }),
                    Err(e) => Err(args_error(ArgsErrorKind::RoomPortRange(e))),
                }
            }
        } else if a == "--screenshots"@ {
            args_from(args, i + 1, ArgsView { screenshots: true, ..acc })
        } else if a == "--screenshot-pages"@ {
            if !has_value {
                Err(args_error(ArgsErrorKind::ScreenshotPagesMissing))
            } else {
                args_from(args, i + 2, ArgsView { screenshot_pages: page_list(v), ..acc })
            }
        } else if a == "--screenshot-size"@ {
            if !has_value {
                Err(args_error(ArgsErrorKind::ScreenshotSizeMissing))
            } else {
                match screenshot_size_spec(v) {
                    Ok(sz) => args_from(args, i + 2, ArgsView { screenshot_sizes: acc.screenshot_sizes.push(sz), ..acc }),
                    Err(e) => Err(args_error(ArgsErrorKind::ScreenshotSize(e))),
                }
            }
        } else if a == "--screenshot-font-scale"@ {
            if !has_value {
                Err(args_error(ArgsErrorKind::ScreenshotFontScaleMissing))
            } else if scale_text(v) == ScaleText::Invalid {
                Err(args_error(ArgsErrorKind::ScreenshotFontScaleInvalid))
            } else if scale_text(v) == ScaleText::NotPositive {
                Err(args_error(ArgsErrorKind::ScreenshotFontScaleNotPositive))
            } else {
                args_from(args, i + 2, ArgsView { screenshot_font_scale: Some(v), ..acc })
            }
        } else if a == "-h"@ || a == "--help"@ {
            Ok(ArgsView { help: true, ..acc })
        } else {
            Err((ArgsErrorKind::UnknownArgument, a))
        }
    }
}

/// The command line read in order, then checked as a whole: `--host-ip` and
/// `--room-port-range` need `--host`, screenshot options need `--screenshots`, which takes
/// no app or host option, and `--host` takes `--host-ip` or `--ip`, not both.
pub open spec fn parse_args_spec(args: Seq<Seq<char>>) -> Result<ArgsView, (ArgsErrorKind, Seq<char>)> {
    match args_from(args, 0, no_args()) {
        Err(e) => Err(e),
        Ok(o) => if o.help {
            Ok(o)
        } else if o.host_ip is Some && !o.host {
            Err(args_error(ArgsErrorKind::HostIpWithoutHost))
        } else if o.room_port_range is Some && !o.host {
            Err(args_error(ArgsErrorKind::RoomPortRangeWithoutHost))
        } else if !o.screenshots && (o.screenshot_pages.len() > 0 || o.screenshot_sizes.len() > 0
            || o.screenshot_font_scale is Some) {
            Err(args_error(ArgsErrorKind::ScreenshotOptionsWithoutScreenshots))
        } else if o.screenshots && (o.host || o.app || o.ip is Some || o.host_ip is Some) {
            Err(args_error(ArgsErrorKind::ScreenshotsWithAppOrHost))
        } else if o.host && o.host_ip is Some && o.ip is Some {
            Err(args_error(ArgsErrorKind::HostIpAndIp))
        } else {
            Ok(o)
        },
    }
}

fn page_list_exec(v: &str) -> (r: Vec<String>)
    ensures
        all_texts(r@) == page_list(v@),
{
    let cs = chars_of(v);
    let mut done: Vec<String> = Vec::new();
    let mut cur: Vec<char> = Vec::new();
    let ghost pieces = comma_state(cs@).0.push(comma_state(cs@).1);
    let mut i: usize = 0;
    while i < cs.len()
        invariant
            i <= cs.len(),
            cs@ == v@,
            all_texts(done@) == nonblank_trimmed(comma_state(cs@.take(i as int)).0),
            cur@ == comma_state(cs@.take(i as int)).1,
        decreases cs.len() - i,
    {
        assert(cs@.take(i + 1).drop_last() =~= cs@.take(i as int));
        assert(cs@.take(i + 1).last() == cs@[i as int]);
        if cs[i] == ',' {
            let t = trim_chars(cur.as_slice());
            if t.len() > 0 {
                let ghost before = done@;
                done.push(string_from_chars(t.as_slice()));
                assert(all_texts(done@) =~= all_texts(before).push(t@));
            }
            let ghost prev = comma_state(cs@.take(i as int)).0;
            assert(comma_state(cs@.take(i + 1)).0 == prev.push(cur@));
            assert(prev.push(cur@).drop_last() =~= prev);
            cur = Vec::new();
            assert(cur@ =~= seq![]);
        } else {
            cur.push(cs[i]);
        }
        i += 1;
    }
    assert(cs@.take(cs.len() as int) =~= cs@);
    let t = trim_chars(cur.as_slice());
    let ghost last_prev = comma_state(cs@).0;
    assert(last_prev.push(cur@).drop_last() =~= last_prev);
    if t.len() > 0 {
        let ghost before = done@;
        done.push(string_from_chars(t.as_slice()));
        assert(all_texts(done@) =~= all_texts(before).push(t@));
    }
    done
}

impl ArgsError {
    fn of(kind: ArgsErrorKind) -> (r: Self)
        ensures
            (r.kind, r.argument@) == args_error(kind),
    {
        let argument = String::new();
        assert(argument@ =~= seq![]);
        ArgsError { kind, argument }
    }
}

fn is_arg(a: &String, text: &str) -> (r: bool)
    ensures
        r == (a@ == text@),
{
    crate::text::str_eq(a.as_str(), text)
}

/// Reads the command line's arguments (without the program name).
pub fn parse_args(args: Vec<String>) -> (r: Result<CliArgs, ArgsError>)
    ensures
        match r {
            Ok(a) => parse_args_spec(all_texts(args@)) == Ok::<ArgsView, (ArgsErrorKind, Seq<char>)>(a@),
            Err(e) => parse_args_spec(all_texts(args@)) == Err::<ArgsView, (ArgsErrorKind, Seq<char>)>((e.kind, e.argument@)),
        },
{
    let ghost av = all_texts(args@);
    let mut out = CliArgs {
        host: false,
        app: false,
        ip: None,
        host_ip: None,
        room_port_range: None,
        screenshots: false,
        screenshot_pages: Vec::new(),
        screenshot_sizes: Vec::new(),
        screenshot_font_scale: None,
        help: false,
    };
    assert(out@.screenshot_pages =~= seq![]);
    assert(out@.screenshot_sizes =~= seq![]);
    assert(out@ == no_args());
    let mut i: usize = 0;
    while i < args.len()
        invariant
            i <= args.len(),
            av == all_texts(args@),
            args_from(av, 0, no_args()) == args_from(av, i as nat, out@),
            !out.help,
        decreases args.len() - i,
    {
        let a = &args[i];
        assert(av[i as int] == a@);
        let has_value = i + 1 < args.len();
        proof {
            if has_value {
                assert(av[i + 1] == args@[i + 1]@);
            }
        }
        if is_arg(a, "--host") {
            out.host = true;
            i += 1;
        } else if is_arg(a, "--app") {
            out.app = true;
            i += 1;
        } else if is_arg(a, "--ip") || is_arg(a, "--host-ip") {
            let is_ip = is_arg(a, "--ip");
            if !has_value {
                return Err(ArgsError::of(if is_ip { ArgsErrorKind::IpMissing } else { ArgsErrorKind::HostIpMissing }));
            }
            let t = crate::text::trimmed(args[i + 1].as_str());
            if t.len() == 0 {
                return Err(ArgsError::of(if is_ip { ArgsErrorKind::IpEmpty } else { ArgsErrorKind::HostIpEmpty }));
            }
            let ts = string_from_chars(t.as_slice());
            let addr = normalize_home_server_addr(ts.as_str());
            if is_ip {
                out.ip = Some(addr);
            } else {
                out.host_ip = Some(addr);
            }
            i += 2;
        } else if is_arg(a, "--room-port-range") {
            if !has_value {
                return Err(ArgsError::of(ArgsErrorKind::RoomPortRangeMissing));
            }
            match parse_port_range(args[i + 1].as_str()) {
                Ok(r) => out.room_port_range = Some(r),
                Err(e) => return Err(ArgsError::of(ArgsErrorKind::RoomPortRange(e))),
            }
            i += 2;
        } else if is_arg(a, "--screenshots") {
            out.screenshots = true;
            i += 1;
        } else if is_arg(a, "--screenshot-pages") {
            if !has_value {
                return Err(ArgsError::of(ArgsErrorKind::ScreenshotPagesMissing));
            }
            out.screenshot_pages = page_list_exec(args[i + 1].as_str());
            i += 2;
        } else if is_arg(a, "--screenshot-size") {
            if !has_value {
                return Err(ArgsError::of(ArgsErrorKind::ScreenshotSizeMissing));
            }
            match parse_screenshot_size(args[i + 1].as_str()) {
                Ok(sz) => out.screenshot_sizes.push(sz),
                Err(e) => return Err(ArgsError::of(ArgsErrorKind::ScreenshotSize(e))),
            }
            i += 2;
        } else if is_arg(a, "--screenshot-font-scale") {
            if !has_value {
                return Err(ArgsError::of(ArgsErrorKind::ScreenshotFontScaleMissing));
            }
            match screenshot_scale_text(args[i + 1].as_str()) {
                ScaleText::Invalid => return Err(ArgsError::of(ArgsErrorKind::ScreenshotFontScaleInvalid)),
                ScaleText::NotPositive => return Err(ArgsError::of(ArgsErrorKind::ScreenshotFontScaleNotPositive)),
                ScaleText::Positive => {},
            }
            out.screenshot_font_scale = Some(args[i + 1].clone());
            i += 2;
        } else if is_arg(a, "-h") || is_arg(a, "--help") {
            out.help = true;
            return Ok(out);
        } else {
            return Err(ArgsError { kind: ArgsErrorKind::UnknownArgument, argument: a.clone() });
        }
    }
    if out.host_ip.is_some() && !out.host {
        return Err(ArgsError::of(ArgsErrorKind::HostIpWithoutHost));
    }
    if out.room_port_range.is_some() && !out.host {
        return Err(ArgsError::of(ArgsErrorKind::RoomPortRangeWithoutHost));
    }
    if !out.screenshots && (out.screenshot_pages.len() > 0 || out.screenshot_sizes.len() > 0
        || out.screenshot_font_scale.is_some()) {
        return Err(ArgsError::of(ArgsErrorKind::ScreenshotOptionsWithoutScreenshots));
    }
    if out.screenshots && (out.host || out.app || out.ip.is_some() || out.host_ip.is_some()) {
        return Err(ArgsError::of(ArgsErrorKind::ScreenshotsWithAppOrHost));
    }
    if out.host && out.host_ip.is_some() && out.ip.is_some() {
        return Err(ArgsError::of(ArgsErrorKind::HostIpAndIp));
    }
    Ok(out)
}

pub open spec fn cli_error_text(e: CliError) -> Seq<char> {
    match e {
        CliError::PortRangeFormat => "port range must be start-end"@,
        CliError::InvalidStartPort => "invalid start port"@,
        CliError::InvalidEndPort => "invalid end port"@,
        CliError::PortOutOfRange => "ports must be between 1 and 65535"@,
        CliError::PortRangeOrder => "range start must be <= end"@,
        CliError::ScreenshotSizeFormat => "screenshot size must be COLSxROWS"@,
        CliError::InvalidScreenshotColumns => "invalid screenshot columns"@,
        CliError::InvalidScreenshotRows => "invalid screenshot rows"@,
        CliError::ScreenshotTooSmall => "screenshot size must be at least 60x20"@,
    }
}

impl CliError {
    /// What went wrong, in words.
    pub fn message(self) -> (r: &'static str)
        ensures
            r@ == cli_error_text(self),
    {
        match self {
            CliError::PortRangeFormat => "port range must be start-end",
            CliError::InvalidStartPort => "invalid start port",
            CliError::InvalidEndPort => "invalid end port",
            CliError::PortOutOfRange => "ports must be between 1 and 65535",
            CliError::PortRangeOrder => "range start must be <= end",
            CliError::ScreenshotSizeFormat => "screenshot size must be COLSxROWS",
            CliError::InvalidScreenshotColumns => "invalid screenshot columns",
            CliError::InvalidScreenshotRows => "invalid screenshot rows",
            CliError::ScreenshotTooSmall => "screenshot size must be at least 60x20",
        }
    }
}

pub open spec fn args_error_text(kind: ArgsErrorKind, argument: Seq<char>) -> Seq<char> {
    match kind {
        ArgsErrorKind::IpMissing => "--ip requires server host or host:port value"@,
        ArgsErrorKind::IpEmpty => "--ip cannot be empty"@,
        ArgsErrorKind::HostIpMissing => "--host-ip requires bind host or host:port value"@,
        ArgsErrorKind::HostIpEmpty => "--host-ip cannot be empty"@,
        ArgsErrorKind::RoomPortRangeMissing => "--room-port-range requires start-end value"@,
        ArgsErrorKind::RoomPortRange(e) => cli_error_text(e),
        ArgsErrorKind::ScreenshotPagesMissing => "--screenshot-pages requires comma-separated page names"@,
        ArgsErrorKind::ScreenshotSizeMissing => "--screenshot-size requires COLSxROWS value"@,
        ArgsErrorKind::ScreenshotSize(e) => cli_error_text(e),
        ArgsErrorKind::ScreenshotFontScaleMissing => "--screenshot-font-scale requires a positive number"@,
        ArgsErrorKind::ScreenshotFontScaleInvalid => "invalid screenshot font scale"@,
        ArgsErrorKind::ScreenshotFontScaleNotPositive => "--screenshot-font-scale must be positive"@,
        ArgsErrorKind::UnknownArgument => "unknown argument "@ + argument,
        ArgsErrorKind::HostIpWithoutHost => "--host-ip requires --host"@,
        ArgsErrorKind::RoomPortRangeWithoutHost => "--room-port-range requires --host"@,
        ArgsErrorKind::ScreenshotOptionsWithoutScreenshots => "screenshot options require --screenshots"@,
        ArgsErrorKind::ScreenshotsWithAppOrHost => "--screenshots cannot be combined with app or host options"@,
        ArgsErrorKind::HostIpAndIp => "use --host-ip for host bind address or --ip as the legacy host alias, not both"@,
    }
}

impl ArgsError {
    /// What is wrong with the command line, in words.
    pub fn message(&self) -> (r: String)
        ensures
            r@ == args_error_text(self.kind, self.argument@),
    {
        let text: &str = match self.kind {
            ArgsErrorKind::IpMissing => "--ip requires server host or host:port value",
            ArgsErrorKind::IpEmpty => "--ip cannot be empty",
            ArgsErrorKind::HostIpMissing => "--host-ip requires bind host or host:port value",
            ArgsErrorKind::HostIpEmpty => "--host-ip cannot be empty",
            ArgsErrorKind::RoomPortRangeMissing => "--room-port-range requires start-end value",
            ArgsErrorKind::RoomPortRange(e) => e.message(),
            ArgsErrorKind::ScreenshotPagesMissing => "--screenshot-pages requires comma-separated page names",
            ArgsErrorKind::ScreenshotSizeMissing => "--screenshot-size requires COLSxROWS value",
            ArgsErrorKind::ScreenshotSize(e) => e.message(),
            ArgsErrorKind::ScreenshotFontScaleMissing => "--screenshot-font-scale requires a positive number",
            ArgsErrorKind::ScreenshotFontScaleInvalid => "invalid screenshot font scale",
            ArgsErrorKind::ScreenshotFontScaleNotPositive => "--screenshot-font-scale must be positive",
            ArgsErrorKind::UnknownArgument => {
                let mut cs = chars_of("unknown argument ");
                extend_str(&mut cs, self.argument.as_str());
                return string_from_chars(cs.as_slice());
            },
            ArgsErrorKind::HostIpWithoutHost => "--host-ip requires --host",
            ArgsErrorKind::RoomPortRangeWithoutHost => "--room-port-range requires --host",
            ArgsErrorKind::ScreenshotOptionsWithoutScreenshots => "screenshot options require --screenshots",
            ArgsErrorKind::ScreenshotsWithAppOrHost => "--screenshots cannot be combined with app or host options",
            ArgsErrorKind::HostIpAndIp => "use --host-ip for host bind address or --ip as the legacy host alias, not both",
        };
        text.to_owned()
    }
}

} // verus!
