use crate::id3::{from_utf8_lossy, utf8_lossy};
use crate::model::CoverArtTemplate;
use crate::online::{
    effective_delay, has_local, is_first_local, queue_view, OnlineSession, Participant,
    QueueItemView, SessionView,
};
use crate::text::{
    chars_of, decimal, extend_str, push_decimal, string_from_chars, sub_chars, trim, trim_chars,
};
use vstd::prelude::*;

verus! {

// ---------------------------------------------------------------------------
// Moving on when a track ends
// ---------------------------------------------------------------------------

pub const NANOS_PER_SECOND: u128 = 1_000_000_000;

/// The crossfade into the next track starts once no more than the crossfade length remains
/// of the track (times in nanoseconds).
pub open spec fn crossfade_due(crossfade_seconds: u16, position: Option<u128>, duration: Option<u128>) -> bool {
    crossfade_seconds != 0 && match (position, duration) {
        (Some(p), Some(d)) => p < d && d - p <= crossfade_seconds * NANOS_PER_SECOND,
        _ => false,
    }
}

/// With crossfading on, the crossfade starts exactly when the time left in the track is
/// more than nothing and at most the crossfade length; it never starts with crossfading off
/// or when the position or the length is unknown.
pub proof fn crossfade_starts_in_the_last_seconds(crossfade_seconds: u16, position: u128, duration: u128)
    ensures
        crossfade_seconds > 0 ==> (crossfade_due(crossfade_seconds, Some(position), Some(duration)) <==> (position
            < duration && duration - position <= crossfade_seconds as int * 1_000_000_000)),
        !crossfade_due(0, Some(position), Some(duration)),
        !crossfade_due(crossfade_seconds, None, Some(duration)),
        !crossfade_due(crossfade_seconds, Some(position), None),
{
}

pub fn should_trigger_crossfade_advance(crossfade_seconds: u16, position: Option<u128>, duration: Option<u128>) -> (r: bool)
    ensures
        r == crossfade_due(crossfade_seconds, position, duration),
{
    if crossfade_seconds == 0 {
        return false;
    }
    let p = match position {
        Some(p) => p,
        None => return false,
    };
    let d = match duration {
        Some(d) => d,
        None => return false,
    };
    if d <= p {
        return false;
    }
    d - p <= (crossfade_seconds as u128) * NANOS_PER_SECOND
}

/// Where scrubbing by `seconds` lands: forward or back from the position (never below the
/// start), and not past the end when the length is known (times in nanoseconds).
pub open spec fn scrub_target(position: u128, duration: Option<u128>, seconds: u16, forward: bool) -> u128 {
    let step = seconds * NANOS_PER_SECOND;
    let moved: int = if forward {
        if position + step > u128::MAX { u128::MAX as int } else { position + step }
    } else if position >= step {
        position - step
    } else {
        0
    };
    match duration {
        Some(d) => if moved <= d { moved as u128 } else { d },
        None => moved as u128,
    }
}

/// Scrubbing moves by exactly the step (`seconds` whole seconds, in nanoseconds) while it
/// stays within the track: back by it from a position at least a step in, forward by it when
/// that does not pass the end. Back from less than a step in lands on the start, and a
/// known end is never passed.
pub proof fn scrub_moves_by_one_step(position: u128, duration: Option<u128>, seconds: u16)
    ensures
        ({
            let step: int = seconds as int * 1_000_000_000;
            let back = scrub_target(position, duration, seconds, false);
            let ahead = scrub_target(position, duration, seconds, true);
            &&& (position >= step && (duration matches Some(d) ==> position - step <= d)) ==> back == position - step
            &&& position < step ==> back == 0
            &&& (position + step <= u128::MAX && (duration matches Some(d) ==> position + step <= d)) ==> ahead
                == position + step
            &&& duration matches Some(d) ==> back <= d && ahead <= d
            &&& (duration matches Some(d) ==> position <= d) ==> back <= position && position <= ahead
        }),
{
}

pub fn scrub_position(position: u128, duration: Option<u128>, seconds: u16, forward: bool) -> (r: u128)
    ensures
        r == scrub_target(position, duration, seconds, forward),
{
    let step = (seconds as u128) * NANOS_PER_SECOND;
    let moved = if forward {
        position.saturating_add(step)
    } else {
        position.saturating_sub(step)
    };
    match duration {
        Some(d) => if moved <= d {
            moved
        } else {
            d
        },
        None => moved,
    }
}

// ---------------------------------------------------------------------------
// Settings menus
// ---------------------------------------------------------------------------

pub open spec fn on_off(b: bool) -> Seq<char> {
    if b {
        "On"@
    } else {
        "Off"@
    }
}

pub fn on_off_text(b: bool) -> (r: &'static str)
    ensures
        r@ == on_off(b),
{
    if b {
        "On"
    } else {
        "Off"
    }
}

/// The playback settings menu: loudness normalisation, crossfade, scrub length, stats
/// tracking and rows, the missing-cover fallback, then the online delay entry and back.
pub fn playback_settings_options(
    loudness_normalization: bool,
    crossfade_seconds: u16,
    scrub_seconds: u16,
    stats_enabled: bool,
    stats_top_songs_count: u8,
    fallback_cover_template: CoverArtTemplate,
) -> (r: Vec<String>)
    ensures
        r@.len() == 8,
        r@[0]@ == "Loudness normalization: "@ + on_off(loudness_normalization),
        r@[1]@ == "Song crossfade: "@ + (if crossfade_seconds == 0 {
            "Off"@
        } else {
            decimal(crossfade_seconds as nat) + "s"@
        }),
        r@[2]@ == "Scrub length: "@ + (if scrub_seconds == 60 {
            "1m"@
        } else {
            decimal(scrub_seconds as nat) + "s"@
        }),
        r@[3]@ == "Stats tracking: "@ + on_off(stats_enabled),
        r@[4]@ == "Stats top songs rows: "@ + decimal(stats_top_songs_count as nat),
        r@[5]@ == "Missing cover fallback: Music Note"@,
        r@[6]@ == "Online sync delay settings"@,
        r@[7]@ == "Back"@,
{
    let mut out: Vec<String> = Vec::new();
    let mut a = chars_of("Loudness normalization: ");
    extend_str(&mut a, on_off_text(loudness_normalization));
    out.push(string_from_chars(a.as_slice()));
    let mut b = chars_of("Song crossfade: ");
    let cl = crate::panel::crossfade_label(crossfade_seconds);
    extend_str(&mut b, cl.as_str());
    out.push(string_from_chars(b.as_slice()));
    let mut c = chars_of("Scrub length: ");
    let sl = crate::panel::scrub_label(scrub_seconds);
    extend_str(&mut c, sl.as_str());
    out.push(string_from_chars(c.as_slice()));
    let mut d = chars_of("Stats tracking: ");
    extend_str(&mut d, on_off_text(stats_enabled));
    out.push(string_from_chars(d.as_slice()));
    let mut e = chars_of("Stats top songs rows: ");
    push_decimal(&mut e, stats_top_songs_count as u64);
    out.push(string_from_chars(e.as_slice()));
    let mut f = chars_of("Missing cover fallback: ");
    extend_str(&mut f, crate::panel::cover_template_label(fallback_cover_template));
    proof {
        reveal_strlit("Missing cover fallback: ");
        reveal_strlit("Music Note");
        reveal_strlit("Missing cover fallback: Music Note");
    }
    assert(f@ =~= "Missing cover fallback: Music Note"@);
    out.push(string_from_chars(f.as_slice()));
    out.push("Online sync delay settings".to_owned());
    out.push("Back".to_owned());
    out
}

/// The online delay menu; its last entry shows the local participant's delays, or asks to
/// join or host a room first.
pub fn online_delay_settings_options(local: Option<&Participant>, sync_correction_threshold_ms: u16) -> (r: Vec<String>)
    ensures
        r@.len() == 6,
        r@[0]@ == "Manual delay -10ms"@,
        r@[1]@ == "Manual delay +10ms"@,
        r@[2]@ == "Toggle auto-ping delay"@,
        r@[3]@ == "Refresh ping calibration"@,
        r@[4]@ == "Sync correction threshold: "@ + decimal(sync_correction_threshold_ms as nat) + "ms"@,
        r@[5]@ == "Back ("@ + (match local {
            Some(p) => "Manual "@ + decimal(p@.manual_extra_delay_ms as nat) + "ms  Effective "@ + decimal(
                effective_delay(p@) as nat,
            ) + "ms  Auto "@ + on_off(p@.auto_ping_delay),
            None => "Join or host a room first"@,
        }) + ")"@,
{
    let mut out: Vec<String> = Vec::new();
    out.push("Manual delay -10ms".to_owned());
    out.push("Manual delay +10ms".to_owned());
    out.push("Toggle auto-ping delay".to_owned());
    out.push("Refresh ping calibration".to_owned());
    let mut t = chars_of("Sync correction threshold: ");
    push_decimal(&mut t, sync_correction_threshold_ms as u64);
    extend_str(&mut t, "ms");
    out.push(string_from_chars(t.as_slice()));
    let mut back = chars_of("Back (");
    match local {
        Some(p) => {
            extend_str(&mut back, "Manual ");
            push_decimal(&mut back, p.manual_extra_delay_ms as u64);
            extend_str(&mut back, "ms  Effective ");
            push_decimal(&mut back, p.effective_delay_ms() as u64);
            extend_str(&mut back, "ms  Auto ");
            extend_str(&mut back, on_off_text(p.auto_ping_delay));
        },
        None => {
            extend_str(&mut back, "Join or host a room first");
        },
    }
    extend_str(&mut back, ")");
    out.push(string_from_chars(back.as_slice()));
    out
}

// ---------------------------------------------------------------------------
// What a folder picker printed
// ---------------------------------------------------------------------------

/// The folder a picker printed: its output read as UTF-8 (lossily) and trimmed, without a
/// `file://` prefix; nothing when the output is blank.
pub open spec fn picked_folder(stdout: Seq<u8>) -> Option<Seq<char>> {
    let selected = trim(utf8_lossy(stdout));
    if selected.len() == 0 {
        None
    } else if selected.len() >= 7 && selected.take(7) == "file://"@ {
        Some(selected.skip(7))
    } else {
        Some(selected)
    }
}

pub fn parse_folder_picker_selection(stdout: &[u8]) -> (r: Option<String>)
    ensures
        match r {
            Some(p) => picked_folder(stdout@) == Some(p@),
            None => picked_folder(stdout@) is None,
        },
{
    let text = from_utf8_lossy(stdout);
    let cs = chars_of(text.as_str());
    let selected = trim_chars(cs.as_slice());
    if selected.len() == 0 {
        return None;
    }
    let prefix = chars_of("file://");
    proof {
        reveal_strlit("file://");
    }
    if crate::text::starts_with_chars(selected.as_slice(), prefix.as_slice()) {
        let rest = sub_chars(selected.as_slice(), 7, selected.len());
        assert(rest@ =~= selected@.skip(7));
        return Some(string_from_chars(rest.as_slice()));
    }
    Some(string_from_chars(selected.as_slice()))
}

// ---------------------------------------------------------------------------
// Following a remote peer's playback position
// ---------------------------------------------------------------------------

/// The drift from the remote position that a paused player corrects, in milliseconds.
pub const PAUSED_SYNC_CORRECTION_THRESHOLD_MS: u64 = 100;

/// What following a remote position decides: where the remote playback stands once the
/// local delay is added, how far the local position is from it, and whether to seek there.
#[derive(Debug, Clone, Copy, PartialEq, Eq, Structural)]
pub struct SyncCorrection {
    pub target_ms: u64,
    pub drift_ms: u64,
    pub seek: bool,
}

pub open spec fn session_view(s: Option<OnlineSession>) -> Option<SessionView> {
    match s {
        Some(x) => Some(x@),
        None => None,
    }
}

/// The delay the local participant adds to what it hears: none while paused or outside a
/// room.
pub open spec fn local_delay(session: Option<SessionView>, paused: bool) -> u16 {
    match session {
        Some(s) => if !paused && has_local(s.participants) {
            effective_delay(s.participants[choose|i: int| is_first_local(s.participants, i)])
        } else {
            0
        },
        None => 0,
    }
}

pub open spec fn sync_correction(position_ms: u64, local_ms: u64, delay_ms: u16, paused: bool, threshold_ms: u16) -> SyncCorrection {
    let target: int = if position_ms + delay_ms > i64::MAX { i64::MAX as int } else { position_ms + delay_ms };
    let drift: int = if target >= local_ms { target - local_ms } else { local_ms - target };
    SyncCorrection {
        target_ms: target as u64,
        drift_ms: drift as u64,
        seek: drift >= (if paused { PAUSED_SYNC_CORRECTION_THRESHOLD_MS as int } else { threshold_ms as int }),
    }
}

/// Follows a remote playback position (`position_ms`) given the local one (unknown counts as
/// zero): the correction to make, with the drift recorded in the session (capped to fit).
pub fn apply_remote_sync(
    session: &mut Option<OnlineSession>,
    position_ms: u64,
    local_position_ms: Option<u64>,
    paused: bool,
    threshold_ms: u16,
) -> (r: SyncCorrection)
    requires
        position_ms <= i64::MAX,
        local_position_ms matches Some(l) ==> l <= i64::MAX,
    ensures
        r == sync_correction(
            position_ms,
            match local_position_ms {
                Some(l) => l,
                None => 0,
            },
            local_delay(session_view(*old(session)), paused),
            paused,
            threshold_ms,
        ),
        match *old(session) {
            Some(s) => *final(session) matches Some(t) && t@ == (SessionView {
                last_sync_drift_ms: if r.drift_ms > i32::MAX { i32::MAX } else { r.drift_ms as i32 },
                ..s@
            }),
            None => *final(session) is None,
        },
{
    let delay = local_delay_ms(session, paused);
    let local: u64 = match local_position_ms {
        Some(l) => l,
        None => 0,
    };
    let c = correction_for(position_ms, local, delay, paused, threshold_ms);
    let recorded: i32 = if c.drift_ms > 0x7FFF_FFFF {
        0x7FFF_FFFF
    } else {
        c.drift_ms as i32
    };
    match session {
        Some(s) => {
            s.last_sync_drift_ms = recorded;
        },
        None => {},
    }
    c
}

/// The delay the local participant of `session` adds (none while paused).
pub fn local_delay_ms(session: &Option<OnlineSession>, paused: bool) -> (r: u16)
    ensures
        r == local_delay(session_view(*session), paused),
{
    if paused {
        return 0;
    }
    match session {
        Some(s) => match s.local_participant() {
            Some(p) => {
                proof {
                    let i = choose|i: int| is_first_local(s@.participants, i) && p@ == s@.participants[i];
                    let c = choose|c: int| is_first_local(s@.participants, c);
                    if c < i {
                        assert(!s@.participants[c].is_local);
                    }
                    if i < c {
                        assert(!s@.participants[i].is_local);
                    }
                }
                p.effective_delay_ms()
            },
            None => 0,
        },
        None => 0,
    }
}

/// The correction that follows a remote position `position_ms` from the local one.
pub fn correction_for(position_ms: u64, local: u64, delay: u16, paused: bool, threshold_ms: u16) -> (r: SyncCorrection)
    ensures
        r == sync_correction(position_ms, local, delay, paused, threshold_ms),
{
    let limit: u64 = 0x7FFF_FFFF_FFFF_FFFF;
    let target: u64 = if position_ms > limit - delay as u64 {
        limit
    } else {
        position_ms + delay as u64
    };
    let drift: u64 = if target >= local {
        target - local
    } else {
        local - target
    };
    let threshold: u64 = if paused {
        PAUSED_SYNC_CORRECTION_THRESHOLD_MS
    } else {
        threshold_ms as u64
    };
    SyncCorrection { target_ms: target, drift_ms: drift, seek: drift >= threshold }
}

// ---------------------------------------------------------------------------
// Moving on in an online room
// ---------------------------------------------------------------------------

/// Where the track playing in a room came from.
#[derive(Debug, Clone, Copy, PartialEq, Eq, Structural)]
pub enum OnlinePlaybackSource {
    LocalQueue,
    SharedQueue,
}

/// What the room's authority does when its track ends.
#[derive(Debug)]
pub enum OnlineAdvance {
    Nothing,
    /// Switch to the shared queue's first track (and consume it once switched).
    StartShared(String),
    /// The shared queue ran out: stop and tell the room.
    EndSharedQueue,
    /// Go on with the local queue.
    NextLocal,
}

/// Whether the local user speaks for the room: it is the authority, ASCII case ignored.
pub open spec fn local_is_authority(s: SessionView, local_nickname: Seq<char>) -> bool {
    match crate::panel::authority(s.participants, s.last_transport) {
        Some(a) => crate::text::eq_ignore_case(a, local_nickname),
        None => false,
    }
}

pub enum AdvanceView {
    Nothing,
    StartShared(Seq<char>),
    EndSharedQueue,
    NextLocal,
}

impl View for OnlineAdvance {
    type V = AdvanceView;

    open spec fn view(&self) -> AdvanceView {
        match self {
            OnlineAdvance::Nothing => AdvanceView::Nothing,
            OnlineAdvance::StartShared(p) => AdvanceView::StartShared(p@),
            OnlineAdvance::EndSharedQueue => AdvanceView::EndSharedQueue,
            OnlineAdvance::NextLocal => AdvanceView::NextLocal,
        }
    }
}

pub open spec fn online_advance(
    s: SessionView,
    local_nickname: Seq<char>,
    finished: bool,
    pending_stream: Option<Seq<char>>,
    source: OnlinePlaybackSource,
) -> AdvanceView {
    if !finished || !local_is_authority(s, local_nickname) {
        AdvanceView::Nothing
    } else if s.shared_queue.len() > 0 {
        if pending_stream == Some(s.shared_queue[0].path) {
            AdvanceView::Nothing
        } else {
            AdvanceView::StartShared(s.shared_queue[0].path)
        }
    } else if source == OnlinePlaybackSource::SharedQueue {
        AdvanceView::EndSharedQueue
    } else {
        AdvanceView::NextLocal
    }
}

fn authority_is_local(session: &OnlineSession, local_nickname: &str) -> (r: bool)
    ensures
        r == local_is_authority(session@, local_nickname@),
{
    match crate::panel::online_authority_nickname(session) {
        Some(a) => crate::text::eq_ignore_ascii_case(a.as_str(), local_nickname),
        None => false,
    }
}

/// When the track playing in a room ends (`finished`), what its authority does next; others
/// do nothing, and a shared track already being streamed is waited for.
pub fn online_advance_decision(
    session: &OnlineSession,
    local_nickname: &str,
    finished: bool,
    pending_stream_path: Option<&str>,
    source: OnlinePlaybackSource,
) -> (r: OnlineAdvance)
    ensures
        r@ == online_advance(session@, local_nickname@, finished, crate::config::opt_text(pending_stream_path), source),
{
    if !finished || !authority_is_local(session, local_nickname) {
        return OnlineAdvance::Nothing;
    }
    if session.shared_queue.len() > 0 {
        let first = &session.shared_queue[0];
        assert(session@.shared_queue[0] == first@);
        let waiting = match pending_stream_path {
            Some(p) => crate::text::str_eq(p, first.path.as_str()),
            None => false,
        };
        if waiting {
            return OnlineAdvance::Nothing;
        }
        return OnlineAdvance::StartShared(first.path.clone());
    }
    if source == OnlinePlaybackSource::SharedQueue {
        OnlineAdvance::EndSharedQueue
    } else {
        OnlineAdvance::NextLocal
    }
}

/// With nothing playing and no stream pending, the room's authority starts the shared
/// queue's first track, if there is one.
pub fn idle_shared_queue_start(
    session: &OnlineSession,
    local_nickname: &str,
    has_track: bool,
    stream_pending: bool,
) -> (r: Option<String>)
    ensures
        match r {
            Some(p) => !has_track && !stream_pending && local_is_authority(session@, local_nickname@)
                && session@.shared_queue.len() > 0 && p@ == session@.shared_queue[0].path,
            None => has_track || stream_pending || !local_is_authority(session@, local_nickname@)
                || session@.shared_queue.len() == 0,
        },
{
    if has_track || stream_pending {
        return None;
    }
    if !authority_is_local(session, local_nickname) {
        return None;
    }
    if session.shared_queue.len() == 0 {
        return None;
    }
    assert(session@.shared_queue[0] == session.shared_queue@[0]@);
    Some(session.shared_queue[0].path.clone())
}


/// Consuming the shared queue's head without a room network: it leaves when it is the
/// expected track (any head when none is expected).
pub open spec fn head_consumed(q: Seq<QueueItemView>, expected: Option<Seq<char>>) -> Seq<QueueItemView> {
    if q.len() > 0 && (expected is None || expected == Some(q[0].path)) {
        q.drop_first()
    } else {
        q
    }
}

pub fn consume_shared_head(session: &mut OnlineSession, expected_path: Option<&str>)
    ensures
        final(session)@ == (SessionView {
            shared_queue: head_consumed(old(session)@.shared_queue, crate::config::opt_text(expected_path)),
            ..old(session)@
        }),
{
    if session.shared_queue.len() == 0 {
        return;
    }
    let matches = match expected_path {
        None => true,
        Some(p) => crate::text::str_eq(session.shared_queue[0].path.as_str(), p),
    };
    assert(session@.shared_queue[0] == session.shared_queue@[0]@);
    if matches {
        let ghost before = session.shared_queue@;
        session.shared_queue.remove(0);
        assert(queue_view(session.shared_queue@) =~= queue_view(before).drop_first());
    }
}

/// The shared queue ran out: the room's authority goes back to its own queue.
pub fn end_shared_queue(core: &mut crate::tune_core::TuneCore, source: &mut OnlinePlaybackSource)
    ensures
        final(core)@ == crate::tune_core::with_status(old(core)@, "Reached end of shared queue"@),
        *final(source) == OnlinePlaybackSource::LocalQueue,
{
    core.show_status("Reached end of shared queue");
    *source = OnlinePlaybackSource::LocalQueue;
}


// ---------------------------------------------------------------------------
// Following the room's transport
// ---------------------------------------------------------------------------

/// The transport carried by a synced session that the local player has not seen yet: its
/// sequence number, and whether another participant sent it (only then is it followed).
pub fn new_remote_transport(session: &OnlineSession, last_seq: u64, local_nickname: &str) -> (r: Option<(u64, bool)>)
    ensures
        match session@.last_transport {
            Some(t) => if t.seq > last_seq {
                r == Some((t.seq, !crate::text::eq_ignore_case(t.origin_nickname, local_nickname@)))
            } else {
                r is None
            },
            None => r is None,
        },
{
    match &session.last_transport {
        Some(t) => {
            if t.seq > last_seq {
                let own = crate::text::eq_ignore_ascii_case(t.origin_nickname.as_str(), local_nickname);
                Some((t.seq, !own))
            } else {
                None
            }
        },
        None => None,
    }
}

/// The status after following a remote pause or resume.
pub fn remote_pause_status(paused: bool) -> (r: &'static str)
    ensures
        r@ == (if paused {
            "Remote paused playback"@
        } else {
            "Remote resumed playback"@
        }),
{
    if paused {
        "Remote paused playback"
    } else {
        "Remote resumed playback"
    }
}

/// The status after following a remote playback position.
pub fn remote_sync_status(drift_ms: u64) -> (r: String)
    ensures
        r@ == "Remote sync drift "@ + decimal(drift_ms as nat) + "ms"@,
{
    let mut cs = chars_of("Remote sync drift ");
    push_decimal(&mut cs, drift_ms);
    extend_str(&mut cs, "ms");
    string_from_chars(cs.as_slice())
}

} // verus!
