use crate::online::{
    has_local, is_first_local, CommandView, OnlineSession, OnlineState,
    QueueItemView, SessionView, TransportCommand,
};
use crate::online_keys::{after_shutdown, OnlinePrompts, PromptsView};
use crate::online_net::{localized, normalize_local_online_participant, NetworkRole};
use crate::panel::{concise_audio_error, concise_error_text, is_disconnect_message, is_online_disconnect_status};
use crate::paths::{file_name, file_name_of, paths_equal, same_path};
use crate::playback::{
    correction_for, local_delay, local_delay_ms, new_remote_transport, remote_pause_status, remote_sync_status,
    session_view, sync_correction, OnlinePlaybackSource,
};
use crate::text::{chars_of, decimal, eq_ignore_ascii_case, eq_ignore_case, extend_chars, extend_str, string_from_chars};
use crate::tune_core::{queue_match, with_status, CoreView, TuneCore};
use vstd::prelude::*;

verus! {

// ---------------------------------------------------------------------------
// What the room network reports, and what the player is asked to do
// ---------------------------------------------------------------------------

/// Something the room connection reports. Paths are kept as text.
#[derive(Debug)]
pub enum OnlineEvent {
    /// The room's shared session as the host now sees it.
    SessionSync(OnlineSession),
    /// A track asked for by stream has arrived and was written to `local_temp_path`.
    StreamTrackReady { requested_path: String, local_temp_path: String },
    /// A line for the status bar.
    Status(String),
}

pub enum EventView {
    SessionSync(SessionView),
    StreamTrackReady { requested_path: Seq<char>, local_temp_path: Seq<char> },
    Status(Seq<char>),
}

impl View for OnlineEvent {
    type V = EventView;

    open spec fn view(&self) -> EventView {
        match self {
            OnlineEvent::SessionSync(s) => EventView::SessionSync(s@),
            OnlineEvent::StreamTrackReady { requested_path, local_temp_path } => EventView::StreamTrackReady {
                requested_path: requested_path@,
                local_temp_path: local_temp_path@,
            },
            OnlineEvent::Status(m) => EventView::Status(m@),
        }
    }
}

/// What the audio player and the room connection are asked to do, in order. A `Play` or
/// `PlayIfPresent` comes last, and its outcome is handed back to `online_play_outcome`.
#[derive(Debug)]
pub enum PlayerAction {
    /// Close the room connection.
    ShutDownNetwork,
    /// Play the file at this path.
    Play(String),
    /// Play the file at this path if it still exists; a missing file counts as a failed play.
    PlayIfPresent(String),
    Pause,
    Resume,
    /// Seek to this position, in milliseconds.
    SeekTo(u64),
    /// Ask the room to stream the track at `path`, from `source` when one is named.
    RequestStream { path: String, source: Option<String> },
}

pub enum ActionView {
    ShutDownNetwork,
    Play(Seq<char>),
    PlayIfPresent(Seq<char>),
    Pause,
    Resume,
    SeekTo(u64),
    RequestStream { path: Seq<char>, source: Option<Seq<char>> },
}

pub open spec fn opt_seq(o: Option<String>) -> Option<Seq<char>> {
    match o {
        Some(s) => Some(s@),
        None => None,
    }
}

impl View for PlayerAction {
    type V = ActionView;

    open spec fn view(&self) -> ActionView {
        match self {
            PlayerAction::ShutDownNetwork => ActionView::ShutDownNetwork,
            PlayerAction::Play(p) => ActionView::Play(p@),
            PlayerAction::PlayIfPresent(p) => ActionView::PlayIfPresent(p@),
            PlayerAction::Pause => ActionView::Pause,
            PlayerAction::Resume => ActionView::Resume,
            PlayerAction::SeekTo(ms) => ActionView::SeekTo(*ms),
            PlayerAction::RequestStream { path, source } => ActionView::RequestStream {
                path: path@,
                source: opt_seq(*source),
            },
        }
    }
}

pub open spec fn actions_view(a: Seq<PlayerAction>) -> Seq<ActionView> {
    a.map_values(|x: PlayerAction| x@)
}

// ---------------------------------------------------------------------------
// The state kept for following the room
// ---------------------------------------------------------------------------

/// A remote track to follow: its path, the position to follow (with whether the room is
/// paused) when the command carried one, the local delay to add to that position, and the
/// participant to stream the track from should it be missing here.
#[derive(Debug)]
pub struct TrackFollow {
    pub path: String,
    pub sync: Option<(u64, bool)>,
    pub delay_ms: u16,
    pub source: Option<String>,
}

pub struct FollowView {
    pub path: Seq<char>,
    pub sync: Option<(u64, bool)>,
    pub delay_ms: u16,
    pub source: Option<Seq<char>>,
}

impl View for TrackFollow {
    type V = FollowView;

    open spec fn view(&self) -> FollowView {
        FollowView { path: self.path@, sync: self.sync, delay_ms: self.delay_ms, source: opt_seq(self.source) }
    }
}

/// The play whose outcome is awaited.
#[derive(Debug)]
pub enum AwaitedPlay {
    /// The streamed copy of the track at this path.
    StreamCopy(String),
    /// The cached streamed copy of a remote track.
    CachedCopy(TrackFollow),
    /// A remote track at its own path.
    Original(TrackFollow),
}

pub enum AwaitedView {
    StreamCopy(Seq<char>),
    CachedCopy(FollowView),
    Original(FollowView),
}

impl View for AwaitedPlay {
    type V = AwaitedView;

    open spec fn view(&self) -> AwaitedView {
        match self {
            AwaitedPlay::StreamCopy(p) => AwaitedView::StreamCopy(p@),
            AwaitedPlay::CachedCopy(f) => AwaitedView::CachedCopy(f@),
            AwaitedPlay::Original(f) => AwaitedView::Original(f@),
        }
    }
}

/// What the local player keeps while it follows a room: the last transport sequence number
/// seen, the streamed copies received (a path's newest copy counts), the path whose stream
/// is awaited, the remote track being played, who sent the last remote transport, where the
/// playing track came from, and the play whose outcome is awaited.
#[derive(Debug)]
pub struct RemotePlayback {
    pub last_transport_seq: u64,
    pub streamed_tracks: Vec<(String, String)>,
    pub pending_stream_path: Option<String>,
    pub remote_logical_track: Option<String>,
    pub last_remote_transport_origin: Option<String>,
    pub playback_source: OnlinePlaybackSource,
    pub awaiting: Option<AwaitedPlay>,
}

pub struct RemoteView {
    pub last_transport_seq: u64,
    pub streamed_tracks: Seq<(Seq<char>, Seq<char>)>,
    pub pending_stream_path: Option<Seq<char>>,
    pub remote_logical_track: Option<Seq<char>>,
    pub last_remote_transport_origin: Option<Seq<char>>,
    pub playback_source: OnlinePlaybackSource,
    pub awaiting: Option<AwaitedView>,
}

pub open spec fn pair_view(p: (String, String)) -> (Seq<char>, Seq<char>) {
    (p.0@, p.1@)
}

pub open spec fn awaited_opt(a: Option<AwaitedPlay>) -> Option<AwaitedView> {
    match a {
        Some(x) => Some(x@),
        None => None,
    }
}

impl View for RemotePlayback {
    type V = RemoteView;

    open spec fn view(&self) -> RemoteView {
        RemoteView {
            last_transport_seq: self.last_transport_seq,
            streamed_tracks: self.streamed_tracks@.map_values(|p: (String, String)| pair_view(p)),
            pending_stream_path: opt_seq(self.pending_stream_path),
            remote_logical_track: opt_seq(self.remote_logical_track),
            last_remote_transport_origin: opt_seq(self.last_remote_transport_origin),
            playback_source: self.playback_source,
            awaiting: awaited_opt(self.awaiting),
        }
    }
}

impl RemotePlayback {
    /// Nothing followed yet.
    pub fn new() -> (r: Self)
        ensures
            r@ == (RemoteView {
                last_transport_seq: 0,
                streamed_tracks: seq![],
                pending_stream_path: None,
                remote_logical_track: None,
                last_remote_transport_origin: None,
                playback_source: OnlinePlaybackSource::LocalQueue,
                awaiting: None,
            }),
    {
        let r = RemotePlayback {
            last_transport_seq: 0,
            streamed_tracks: Vec::new(),
            pending_stream_path: None,
            remote_logical_track: None,
            last_remote_transport_origin: None,
            playback_source: OnlinePlaybackSource::LocalQueue,
            awaiting: None,
        };
        assert(r@.streamed_tracks =~= seq![]);
        r
    }
}

// ---------------------------------------------------------------------------
// The decisions, stated
// ---------------------------------------------------------------------------

/// The newest streamed copy received for a track at `path`.
pub open spec fn streamed_copy(c: Seq<(Seq<char>, Seq<char>)>, path: Seq<char>) -> Option<Seq<char>>
    decreases c.len(),
{
    if c.len() == 0 {
        None
    } else if same_path(c.last().0, path) {
        Some(c.last().1)
    } else {
        streamed_copy(c.drop_last(), path)
    }
}

/// Whether a shared-queue entry for `path` was added by someone other than the local
/// participant (named `local` when there is one).
pub open spec fn owned_elsewhere(item: QueueItemView, path: Seq<char>, local: Option<Seq<char>>) -> bool {
    &&& same_path(item.path, path)
    &&& item.owner_nickname is Some
    &&& match local {
        Some(l) => !eq_ignore_case(item.owner_nickname->0, l),
        None => true,
    }
}

/// The owner of the latest shared-queue entry for `path` that someone else added.
pub open spec fn queue_owner(q: Seq<QueueItemView>, path: Seq<char>, local: Option<Seq<char>>) -> Option<Seq<char>>
    decreases q.len(),
{
    if q.len() == 0 {
        None
    } else if owned_elsewhere(q.last(), path, local) {
        q.last().owner_nickname
    } else {
        queue_owner(q.drop_last(), path, local)
    }
}

/// The nickname of the session's local participant.
pub open spec fn local_name(s: SessionView) -> Option<Seq<char>> {
    if has_local(s.participants) {
        Some(s.participants[choose|i: int| is_first_local(s.participants, i)].nickname)
    } else {
        None
    }
}

/// Whom a host asks to stream a track it lacks: the participant who queued it, else the
/// sender of the last remote transport, in both cases only when that is not the host itself.
/// A client names nobody (the host chooses).
pub open spec fn preferred_source(
    role: NetworkRole,
    session: Option<SessionView>,
    last_origin: Option<Seq<char>>,
    path: Seq<char>,
) -> Option<Seq<char>> {
    if role != NetworkRole::Host || session is None {
        None
    } else {
        let s = session->0;
        let local = local_name(s);
        match queue_owner(s.shared_queue, path, local) {
            Some(o) => Some(o),
            None => match last_origin {
                Some(o) => if local matches Some(l) && eq_ignore_case(o, l) {
                    None
                } else {
                    Some(o)
                },
                None => None,
            },
        }
    }
}

pub struct Outcome {
    pub core: CoreView,
    pub remote: RemoteView,
    pub session: Option<SessionView>,
    pub prompts: PromptsView,
    pub actions: Seq<ActionView>,
}

pub struct Step {
    pub core: CoreView,
    pub remote: RemoteView,
    pub actions: Seq<ActionView>,
}

pub open spec fn queue_index(core: CoreView, path: Seq<char>) -> Option<usize> {
    match queue_match(core.tracks, core.queue, path) {
        Some(k) => Some(k as usize),
        None => None,
    }
}

/// The remote track plays here: it becomes the local queue's current track (when queued),
/// and a position to follow is followed.
#[verifier::opaque]
pub open spec fn followed(core: CoreView, remote: RemoteView, f: FollowView, local_ms: Option<u64>, threshold_ms: u16) -> Step {
    let core1 = CoreView { current_queue_index: queue_index(core, f.path), ..core };
    let remote1 = RemoteView { playback_source: OnlinePlaybackSource::LocalQueue, awaiting: None, ..remote };
    match f.sync {
        None => Step { core: with_status(core1, "Remote switched track"@), remote: remote1, actions: seq![] },
        Some((position_ms, paused)) => {
            let c = sync_correction(
                position_ms,
                match local_ms {
                    Some(l) => l,
                    None => 0,
                },
                f.delay_ms,
                paused,
                threshold_ms,
            );
            Step {
                core: with_status(core1, "Remote sync drift "@ + decimal(c.drift_ms as nat) + "ms"@),
                remote: RemoteView { remote_logical_track: Some(f.path), ..remote1 },
                actions: (if c.seek {
                    seq![ActionView::SeekTo(c.target_ms)]
                } else {
                    seq![]
                }) + seq![if paused { ActionView::Pause } else { ActionView::Resume }],
            }
        },
    }
}

/// Starting to follow a remote track: already playing it, it is followed at once; else its
/// newest streamed copy is tried, else the track at its own path.
#[verifier::opaque]
pub open spec fn begin_follow(core: CoreView, remote: RemoteView, f: FollowView, track_loaded: bool, local_ms: Option<u64>, threshold_ms: u16) -> Step {
    if remote.remote_logical_track matches Some(t) && same_path(t, f.path) && track_loaded {
        followed(core, remote, f, local_ms, threshold_ms)
    } else {
        match streamed_copy(remote.streamed_tracks, f.path) {
            Some(copy) => Step {
                core,
                remote: RemoteView { awaiting: Some(AwaitedView::CachedCopy(f)), ..remote },
                actions: seq![ActionView::PlayIfPresent(copy)],
            },
            None => Step {
                core,
                remote: RemoteView { awaiting: Some(AwaitedView::Original(f)), ..remote },
                actions: seq![ActionView::Play(f.path)],
            },
        }
    }
}

/// Following a transport command sent by another participant (`session` is the session as
/// it stood before the sync that carried the command).
#[verifier::opaque]
pub open spec fn transport_step(
    core: CoreView,
    remote: RemoteView,
    session: Option<SessionView>,
    command: CommandView,
    role: NetworkRole,
    track_loaded: bool,
    local_ms: Option<u64>,
    threshold_ms: u16,
) -> Step {
    match command {
        CommandView::SetPaused { paused } => Step {
            core: with_status(core, if paused { "Remote paused playback"@ } else { "Remote resumed playback"@ }),
            remote,
            actions: seq![if paused { ActionView::Pause } else { ActionView::Resume }],
        },
        CommandView::PlayTrack { path } => begin_follow(
            core,
            remote,
            FollowView {
                path,
                sync: None,
                delay_ms: 0,
                source: preferred_source(role, session, remote.last_remote_transport_origin, path),
            },
            track_loaded,
            local_ms,
            threshold_ms,
        ),
        CommandView::SetPlaybackState { path, position_ms, paused } => begin_follow(
            core,
            remote,
            FollowView {
                path,
                sync: Some((position_ms, paused)),
                delay_ms: local_delay(session, paused),
                source: preferred_source(role, session, remote.last_remote_transport_origin, path),
            },
            track_loaded,
            local_ms,
            threshold_ms,
        ),
    }
}

/// The status shown while a missing track is asked for by stream.
pub open spec fn requesting_text(source: Option<Seq<char>>) -> Seq<char> {
    match source {
        Some(s) => "Remote track missing locally, requesting stream from "@ + s + "..."@,
        None => "Remote track missing locally, requesting stream..."@,
    }
}

/// The name shown for a streamed track: its file name, else `track`.
pub open spec fn shown_name(path: Seq<char>) -> Seq<char> {
    match file_name(path) {
        Some(n) => n,
        None => "track"@,
    }
}

/// One event from the room connection (any awaited play is given up). A status line is
/// shown, and one that reports the connection gone leaves the room: the connection closes,
/// the prompts close, the session ends and the followed state resets. A streamed copy is
/// kept, and played when it is the one awaited. A synced session has the local participant
/// marked, follows its transport command when it is new and sent by someone else, and
/// replaces the session.
pub open spec fn event_outcome(
    core: CoreView,
    remote0: RemoteView,
    session: Option<SessionView>,
    prompts: PromptsView,
    event: EventView,
    local_nickname: Seq<char>,
    role: NetworkRole,
    track_loaded: bool,
    local_ms: Option<u64>,
    threshold_ms: u16,
) -> Outcome {
    let remote = RemoteView { awaiting: None, ..remote0 };
    match event {
        EventView::Status(message) => status_outcome(core, remote, session, prompts, message),
        EventView::StreamTrackReady { requested_path, local_temp_path } => stream_outcome(
            core,
            remote,
            session,
            prompts,
            requested_path,
            local_temp_path,
        ),
        EventView::SessionSync(s) => sync_outcome(
            core,
            remote,
            session,
            prompts,
            s,
            local_nickname,
            role,
            track_loaded,
            local_ms,
            threshold_ms,
        ),
    }
}

pub open spec fn status_outcome(core: CoreView, remote: RemoteView, session: Option<SessionView>, prompts: PromptsView, message: Seq<char>) -> Outcome {
    if is_disconnect_message(message) {
        Outcome {
            core: with_status(core, message),
            remote: RemoteView {
                last_transport_seq: 0,
                pending_stream_path: None,
                remote_logical_track: None,
                last_remote_transport_origin: None,
                playback_source: OnlinePlaybackSource::LocalQueue,
                ..remote
            },
            session: None,
            prompts: after_shutdown(prompts),
            actions: seq![ActionView::ShutDownNetwork],
        }
    } else {
        Outcome { core: with_status(core, message), remote, session, prompts, actions: seq![] }
    }
}

/// A streamed copy arrived: it is kept, and played when it is the one awaited.
pub open spec fn stream_step(remote: RemoteView, requested_path: Seq<char>, local_temp_path: Seq<char>) -> (RemoteView, Seq<ActionView>) {
    let kept = RemoteView {
        streamed_tracks: remote.streamed_tracks.push((requested_path, local_temp_path)),
        ..remote
    };
    if remote.pending_stream_path matches Some(p) && same_path(p, requested_path) {
        (RemoteView { awaiting: Some(AwaitedView::StreamCopy(requested_path)), ..kept }, seq![ActionView::Play(local_temp_path)])
    } else {
        (kept, seq![])
    }
}

pub open spec fn stream_outcome(
    core: CoreView,
    remote: RemoteView,
    session: Option<SessionView>,
    prompts: PromptsView,
    requested_path: Seq<char>,
    local_temp_path: Seq<char>,
) -> Outcome {
    let (r, a) = stream_step(remote, requested_path, local_temp_path);
    Outcome { core, remote: r, session, prompts, actions: a }
}

pub open spec fn sync_step(
    core: CoreView,
    remote: RemoteView,
    session: Option<SessionView>,
    s: SessionView,
    local_nickname: Seq<char>,
    role: NetworkRole,
    track_loaded: bool,
    local_ms: Option<u64>,
    threshold_ms: u16,
) -> Step {
    match s.last_transport {
        Some(t) => if t.seq > remote.last_transport_seq {
            let seen = RemoteView { last_transport_seq: t.seq, ..remote };
            if eq_ignore_case(t.origin_nickname, local_nickname) {
                Step { core, remote: seen, actions: seq![] }
            } else {
                transport_step(
                    core,
                    RemoteView { last_remote_transport_origin: Some(t.origin_nickname), ..seen },
                    session,
                    t.command,
                    role,
                    track_loaded,
                    local_ms,
                    threshold_ms,
                )
            }
        } else {
            Step { core, remote, actions: seq![] }
        },
        None => Step { core, remote, actions: seq![] },
    }
}

pub open spec fn sync_outcome(
    core: CoreView,
    remote: RemoteView,
    session: Option<SessionView>,
    prompts: PromptsView,
    s: SessionView,
    local_nickname: Seq<char>,
    role: NetworkRole,
    track_loaded: bool,
    local_ms: Option<u64>,
    threshold_ms: u16,
) -> Outcome {
    let step = sync_step(core, remote, session, s, local_nickname, role, track_loaded, local_ms, threshold_ms);
    Outcome {
        core: CoreView { dirty: true, ..step.core },
        remote: step.remote,
        session: Some(SessionView { participants: localized(s.participants, local_nickname, role == NetworkRole::Host), ..s }),
        prompts,
        actions: step.actions,
    }
}

/// The outcome of the awaited play (`Err` with the player's message). A streamed copy that
/// plays becomes the followed track; either way the stream is no longer awaited. A cached
/// copy that fails is followed by the track at its own path; that failing too, the track is
/// asked for by stream unless it already is.
pub open spec fn play_outcome(
    core: CoreView,
    remote: RemoteView,
    outcome: Result<(), Seq<char>>,
    local_ms: Option<u64>,
    threshold_ms: u16,
) -> Step {
    match remote.awaiting {
        None => Step { core, remote, actions: seq![] },
        Some(AwaitedView::StreamCopy(requested)) => {
            let done = RemoteView { awaiting: None, pending_stream_path: None, ..remote };
            match outcome {
                Ok(_) => Step {
                    core: with_status(core, "Streaming fallback active: "@ + shown_name(requested)),
                    remote: RemoteView { remote_logical_track: Some(requested), ..done },
                    actions: seq![],
                },
                Err(e) => Step {
                    core: with_status(core, "Stream playback failed: "@ + concise_error_text(e)),
                    remote: done,
                    actions: seq![],
                },
            }
        },
        Some(AwaitedView::CachedCopy(f)) => match outcome {
            Ok(_) => followed(core, RemoteView { remote_logical_track: Some(f.path), awaiting: None, ..remote }, f, local_ms, threshold_ms),
            Err(_) => Step {
                core,
                remote: RemoteView { awaiting: Some(AwaitedView::Original(f)), ..remote },
                actions: seq![ActionView::Play(f.path)],
            },
        },
        Some(AwaitedView::Original(f)) => match outcome {
            Ok(_) => followed(core, RemoteView { remote_logical_track: Some(f.path), awaiting: None, ..remote }, f, local_ms, threshold_ms),
            Err(_) => if remote.pending_stream_path matches Some(p) && same_path(p, f.path) {
                Step { core: CoreView { dirty: true, ..core }, remote: RemoteView { awaiting: None, ..remote }, actions: seq![] }
            } else {
                Step {
                    core: with_status(core, requesting_text(f.source)),
                    remote: RemoteView {
                        awaiting: None,
                        pending_stream_path: Some(f.path),
                        remote_logical_track: Some(f.path),
                        ..remote
                    },
                    actions: seq![ActionView::RequestStream { path: f.path, source: f.source }],
                }
            },
        },
    }
}

// ---------------------------------------------------------------------------
// The decisions, carried out
// ---------------------------------------------------------------------------

fn same_path_text(a: &str, b: &str) -> (r: bool)
    ensures
        r == same_path(a@, b@),
{
    let x = chars_of(a);
    let y = chars_of(b);
    paths_equal(x.as_slice(), y.as_slice())
}

fn copy_text(o: &Option<String>) -> (r: Option<String>)
    ensures
        opt_seq(r) == opt_seq(*o),
{
    match o {
        Some(s) => Some(s.clone()),
        None => None,
    }
}

/// The newest streamed copy received for a track at `path`.
pub fn find_streamed_copy(copies: &Vec<(String, String)>, path: &str) -> (r: Option<String>)
    ensures
        opt_seq(r) == streamed_copy(copies@.map_values(|p: (String, String)| pair_view(p)), path@),
{
    let ghost c = copies@.map_values(|p: (String, String)| pair_view(p));
    let mut i: usize = copies.len();
    assert(c.take(i as int) =~= c);
    while i > 0
        invariant
            i <= copies.len(),
            c == copies@.map_values(|p: (String, String)| pair_view(p)),
            streamed_copy(c, path@) == streamed_copy(c.take(i as int), path@),
        decreases i,
    {
        let ghost t = c.take(i as int);
        assert(t.drop_last() =~= c.take(i - 1));
        assert(t.last() == pair_view(copies@[i - 1]));
        i -= 1;
        if same_path_text(copies[i].0.as_str(), path) {
            return Some(copies[i].1.clone());
        }
    }
    assert(c.take(0) =~= Seq::<(Seq<char>, Seq<char>)>::empty());
    None
}

/// The owner of the latest shared-queue entry for `path` that someone other than `local`
/// added.
fn find_queue_owner(q: &Vec<crate::online::SharedQueueItem>, path: &str, local: &Option<String>) -> (r: Option<String>)
    ensures
        opt_seq(r) == queue_owner(crate::online::queue_view(q@), path@, opt_seq(*local)),
{
    let ghost v = crate::online::queue_view(q@);
    let mut i: usize = q.len();
    assert(v.take(i as int) =~= v);
    while i > 0
        invariant
            i <= q.len(),
            v == crate::online::queue_view(q@),
            queue_owner(v, path@, opt_seq(*local)) == queue_owner(v.take(i as int), path@, opt_seq(*local)),
        decreases i,
    {
        let ghost t = v.take(i as int);
        assert(t.drop_last() =~= v.take(i - 1));
        assert(t.last() == q@[i - 1]@);
        i -= 1;
        let item = &q[i];
        let other = match &item.owner_nickname {
            Some(o) => match local {
                Some(l) => !eq_ignore_ascii_case(o.as_str(), l.as_str()),
                None => true,
            },
            None => false,
        };
        if other && same_path_text(item.path.as_str(), path) {
            return copy_text(&item.owner_nickname);
        }
    }
    assert(v.take(0) =~= Seq::<QueueItemView>::empty());
    None
}

/// The nickname of the session's local participant.
fn local_name_of(s: &OnlineSession) -> (r: Option<String>)
    ensures
        opt_seq(r) == local_name(s@),
{
    match s.local_index() {
        Some(i) => {
            proof {
                let c = choose|c: int| is_first_local(s@.participants, c);
                if c < i {
                    assert(!s@.participants[c].is_local);
                }
                if i < c {
                    assert(!s@.participants[i as int].is_local);
                }
            }
            assert(s@.participants[i as int] == s.participants@[i as int]@);
            Some(s.participants[i].nickname.clone())
        },
        None => None,
    }
}

/// Whom a host asks to stream a track it lacks (see `preferred_source`).
pub fn preferred_stream_source(
    role: NetworkRole,
    session: &Option<OnlineSession>,
    last_origin: &Option<String>,
    path: &str,
) -> (r: Option<String>)
    ensures
        opt_seq(r) == preferred_source(role, session_view(*session), opt_seq(*last_origin), path@),
{
    if role != NetworkRole::Host {
        return None;
    }
    match session {
        None => None,
        Some(s) => {
            let local = local_name_of(s);
            let owner = find_queue_owner(&s.shared_queue, path, &local);
            if owner.is_some() {
                return owner;
            }
            match last_origin {
                Some(o) => {
                    let own = match &local {
                        Some(l) => eq_ignore_ascii_case(o.as_str(), l.as_str()),
                        None => false,
                    };
                    if own {
                        None
                    } else {
                        Some(o.clone())
                    }
                },
                None => None,
            }
        },
    }
}

fn push_action(actions: &mut Vec<PlayerAction>, a: PlayerAction)
    ensures
        actions_view(final(actions)@) == actions_view(old(actions)@).push(a@),
{
    actions.push(a);
    assert(actions_view(actions@) =~= actions_view(old(actions)@).push(a@));
}

fn follow_track(core: &mut TuneCore, remote: &mut RemotePlayback, f: TrackFollow, local_ms: Option<u64>, threshold_ms: u16) -> (actions: Vec<PlayerAction>)
    ensures
        ({
            let st = followed(old(core)@, old(remote)@, f@, local_ms, threshold_ms);
            final(core)@ == st.core && final(remote)@ == st.remote && actions_view(actions@) == st.actions
        }),
{
    reveal(followed);
    remote.playback_source = OnlinePlaybackSource::LocalQueue;
    remote.awaiting = None;
    let mut actions: Vec<PlayerAction> = Vec::new();
    assert(actions_view(actions@) =~= seq![]);
    match f.sync {
        None => {
            core.follow_remote_track(f.path.as_str(), "Remote switched track");
        },
        Some((position_ms, paused)) => {
            let local: u64 = match local_ms {
                Some(l) => l,
                None => 0,
            };
            let c = correction_for(position_ms, local, f.delay_ms, paused, threshold_ms);
            if c.seek {
                push_action(&mut actions, PlayerAction::SeekTo(c.target_ms));
            }
            if paused {
                push_action(&mut actions, PlayerAction::Pause);
            } else {
                push_action(&mut actions, PlayerAction::Resume);
            }
            let status = remote_sync_status(c.drift_ms);
            core.follow_remote_track(f.path.as_str(), status.as_str());
            remote.remote_logical_track = Some(f.path);
        },
    }
    actions
}

fn one_action(a: PlayerAction) -> (r: Vec<PlayerAction>)
    ensures
        actions_view(r@) == seq![a@],
{
    let mut v: Vec<PlayerAction> = Vec::new();
    assert(actions_view(v@) =~= seq![]);
    push_action(&mut v, a);
    assert(seq![a@] =~= Seq::<ActionView>::empty().push(a@));
    v
}

fn begin_follow_track(
    core: &mut TuneCore,
    remote: &mut RemotePlayback,
    f: TrackFollow,
    track_loaded: bool,
    local_ms: Option<u64>,
    threshold_ms: u16,
) -> (actions: Vec<PlayerAction>)
    ensures
        ({
            let st = begin_follow(old(core)@, old(remote)@, f@, track_loaded, local_ms, threshold_ms);
            final(core)@ == st.core && final(remote)@ == st.remote && actions_view(actions@) == st.actions
        }),
{
    reveal(begin_follow);
    let current = match &remote.remote_logical_track {
        Some(t) => same_path_text(t.as_str(), f.path.as_str()),
        None => false,
    };
    if current && track_loaded {
        return follow_track(core, remote, f, local_ms, threshold_ms);
    }
    match find_streamed_copy(&remote.streamed_tracks, f.path.as_str()) {
        Some(copy) => {
            remote.awaiting = Some(AwaitedPlay::CachedCopy(f));
            one_action(PlayerAction::PlayIfPresent(copy))
        },
        None => {
            let p = f.path.clone();
            remote.awaiting = Some(AwaitedPlay::Original(f));
            one_action(PlayerAction::Play(p))
        },
    }
}

fn follow_transport(
    core: &mut TuneCore,
    remote: &mut RemotePlayback,
    session: &Option<OnlineSession>,
    command: TransportCommand,
    role: NetworkRole,
    track_loaded: bool,
    local_ms: Option<u64>,
    threshold_ms: u16,
) -> (actions: Vec<PlayerAction>)
    ensures
        ({
            let st = transport_step(old(core)@, old(remote)@, session_view(*session), command@, role, track_loaded, local_ms, threshold_ms);
            final(core)@ == st.core && final(remote)@ == st.remote && actions_view(actions@) == st.actions
        }),
{
    reveal(transport_step);
    match command {
        TransportCommand::SetPaused { paused } => {
            core.show_status(remote_pause_status(paused));
            if paused {
                one_action(PlayerAction::Pause)
            } else {
                one_action(PlayerAction::Resume)
            }
        },
        TransportCommand::PlayTrack { path } => {
            let source = preferred_stream_source(role, session, &remote.last_remote_transport_origin, path.as_str());
            let f = TrackFollow { path, sync: None, delay_ms: 0, source };
            begin_follow_track(core, remote, f, track_loaded, local_ms, threshold_ms)
        },
        TransportCommand::SetPlaybackState { path, position_ms, paused } => {
            let source = preferred_stream_source(role, session, &remote.last_remote_transport_origin, path.as_str());
            let delay = local_delay_ms(session, paused);
            let f = TrackFollow { path, sync: Some((position_ms, paused)), delay_ms: delay, source };
            begin_follow_track(core, remote, f, track_loaded, local_ms, threshold_ms)
        },
    }
}

/// Handles one event from the room connection (see `event_outcome`). `track_loaded` and
/// `local_position_ms` say whether the audio player has a track loaded and where it is;
/// `sync_threshold_ms` is the drift a playing player corrects. The actions are for the
/// caller to carry out, in order; the outcome of a final play goes to `online_play_outcome`.
pub fn online_event_step(
    core: &mut TuneCore,
    remote: &mut RemotePlayback,
    online: &mut OnlineState,
    prompts: &mut OnlinePrompts,
    event: OnlineEvent,
    local_nickname: &str,
    role: NetworkRole,
    track_loaded: bool,
    local_position_ms: Option<u64>,
    sync_threshold_ms: u16,
) -> (actions: Vec<PlayerAction>)
    ensures
        ({
            let o = event_outcome(
                old(core)@,
                old(remote)@,
                session_view(old(online).session),
                old(prompts)@,
                event@,
                local_nickname@,
                role,
                track_loaded,
                local_position_ms,
                sync_threshold_ms,
            );
            &&& final(core)@ == o.core
            &&& final(remote)@ == o.remote
            &&& session_view(final(online).session) == o.session
            &&& final(prompts)@ == o.prompts
            &&& actions_view(actions@) == o.actions
        }),
{
    remote.awaiting = None;
    match event {
        OnlineEvent::Status(message) => status_event(core, remote, online, prompts, message),
        OnlineEvent::StreamTrackReady { requested_path, local_temp_path } => stream_event(
            remote,
            requested_path,
            local_temp_path,
        ),
        OnlineEvent::SessionSync(s) => sync_event(
            core,
            remote,
            online,
            s,
            local_nickname,
            role,
            track_loaded,
            local_position_ms,
            sync_threshold_ms,
        ),
    }
}

fn status_event(
    core: &mut TuneCore,
    remote: &mut RemotePlayback,
    online: &mut OnlineState,
    prompts: &mut OnlinePrompts,
    message: String,
) -> (actions: Vec<PlayerAction>)
    ensures
        ({
            let o = status_outcome(old(core)@, old(remote)@, session_view(old(online).session), old(prompts)@, message@);
            &&& final(core)@ == o.core
            &&& final(remote)@ == o.remote
            &&& session_view(final(online).session) == o.session
            &&& final(prompts)@ == o.prompts
            &&& actions_view(actions@) == o.actions
        }),
{
    let mut actions: Vec<PlayerAction> = Vec::new();
    assert(actions_view(actions@) =~= seq![]);
    let disconnected = is_online_disconnect_status(message.as_str());
    core.show_status(message.as_str());
    if disconnected {
        prompts.reset_after_shutdown();
        remote.last_transport_seq = 0;
        remote.pending_stream_path = None;
        remote.remote_logical_track = None;
        remote.last_remote_transport_origin = None;
        remote.playback_source = OnlinePlaybackSource::LocalQueue;
        online.leave_room();
        push_action(&mut actions, PlayerAction::ShutDownNetwork);
        assert(actions_view(actions@) =~= seq![ActionView::ShutDownNetwork]);
    }
    actions
}

fn stream_event(remote: &mut RemotePlayback, requested_path: String, local_temp_path: String) -> (actions: Vec<PlayerAction>)
    ensures
        ({
            let (r, a) = stream_step(old(remote)@, requested_path@, local_temp_path@);
            &&& final(remote)@ == r
            &&& actions_view(actions@) == a
        }),
{
    let mut actions: Vec<PlayerAction> = Vec::new();
    assert(actions_view(actions@) =~= seq![]);
    let awaited = match &remote.pending_stream_path {
        Some(p) => same_path_text(p.as_str(), requested_path.as_str()),
        None => false,
    };
    let ghost before = remote.streamed_tracks@;
    remote.streamed_tracks.push((requested_path.clone(), local_temp_path.clone()));
    assert(remote.streamed_tracks@.map_values(|p: (String, String)| pair_view(p)) =~= before.map_values(
        |p: (String, String)| pair_view(p),
    ).push((requested_path@, local_temp_path@)));
    if awaited {
        remote.awaiting = Some(AwaitedPlay::StreamCopy(requested_path));
        push_action(&mut actions, PlayerAction::Play(local_temp_path));
        assert(actions_view(actions@) =~= seq![ActionView::Play(local_temp_path@)]);
    }
    actions
}

fn sync_event(
    core: &mut TuneCore,
    remote: &mut RemotePlayback,
    online: &mut OnlineState,
    s: OnlineSession,
    local_nickname: &str,
    role: NetworkRole,
    track_loaded: bool,
    local_position_ms: Option<u64>,
    sync_threshold_ms: u16,
) -> (actions: Vec<PlayerAction>)
    ensures
        ({
            let st = sync_step(old(core)@, old(remote)@, session_view(old(online).session), s@, local_nickname@, role, track_loaded, local_position_ms, sync_threshold_ms);
            &&& final(core)@ == (CoreView { dirty: true, ..st.core })
            &&& final(remote)@ == st.remote
            &&& session_view(final(online).session) == Some(SessionView { participants: localized(s@.participants, local_nickname@, role == NetworkRole::Host), ..s@ })
            &&& actions_view(actions@) == st.actions
        }),
{
    let mut s = s;
    let ghost s0 = s@;
    normalize_local_online_participant(&mut s, local_nickname, role);
    assert(s@ == SessionView { participants: localized(s0.participants, local_nickname@, role == NetworkRole::Host), ..s0 });
    let mut actions: Vec<PlayerAction> = Vec::new();
    assert(actions_view(actions@) =~= seq![]);
    let mut command: Option<TransportCommand> = None;
    match new_remote_transport(&s, remote.last_transport_seq, local_nickname) {
        Some((seq, from_other)) => {
            remote.last_transport_seq = seq;
            if from_other {
                match &s.last_transport {
                    Some(t) => {
                        remote.last_remote_transport_origin = Some(t.origin_nickname.clone());
                        command = Some(t.command.copy());
                    },
                    None => {},
                }
            }
        },
        None => {},
    }
    match command {
        Some(c) => {
            actions = follow_transport(
                core,
                remote,
                &online.session,
                c,
                role,
                track_loaded,
                local_position_ms,
                sync_threshold_ms,
            );
        },
        None => {},
    }
    core.mark_dirty();
    online.session = Some(s);
    actions
}

pub open spec fn outcome_view(o: Result<(), String>) -> Result<(), Seq<char>> {
    match o {
        Ok(_) => Ok(()),
        Err(e) => Err(e@),
    }
}

fn shown_name_of(path: &str) -> (r: Vec<char>)
    ensures
        r@ == shown_name(path@),
{
    let cs = chars_of(path);
    match file_name_of(cs.as_slice()) {
        Some(n) => n,
        None => chars_of("track"),
    }
}

/// Handles the outcome of the awaited play (see `play_outcome`); `local_position_ms` is the
/// player's position after it.
pub fn online_play_outcome(
    core: &mut TuneCore,
    remote: &mut RemotePlayback,
    outcome: Result<(), String>,
    local_position_ms: Option<u64>,
    sync_threshold_ms: u16,
) -> (actions: Vec<PlayerAction>)
    ensures
        ({
            let st = play_outcome(old(core)@, old(remote)@, outcome_view(outcome), local_position_ms, sync_threshold_ms);
            final(core)@ == st.core && final(remote)@ == st.remote && actions_view(actions@) == st.actions
        }),
{
    let mut awaited: Option<AwaitedPlay> = None;
    std::mem::swap(&mut awaited, &mut remote.awaiting);
    match awaited {
        None => {
            remote.awaiting = None;
            let v: Vec<PlayerAction> = Vec::new();
            assert(actions_view(v@) =~= seq![]);
            v
        },
        Some(AwaitedPlay::StreamCopy(requested)) => stream_copy_played(core, remote, requested, outcome),
        Some(AwaitedPlay::CachedCopy(f)) => cached_copy_played(core, remote, f, outcome, local_position_ms, sync_threshold_ms),
        Some(AwaitedPlay::Original(f)) => original_played(core, remote, f, outcome, local_position_ms, sync_threshold_ms),
    }
}

fn stream_copy_played(core: &mut TuneCore, remote: &mut RemotePlayback, requested: String, outcome: Result<(), String>) -> (actions: Vec<PlayerAction>)
    requires
        old(remote).awaiting is None,
    ensures
        ({
            let st = play_outcome(
                old(core)@,
                RemoteView { awaiting: Some(AwaitedView::StreamCopy(requested@)), ..old(remote)@ },
                outcome_view(outcome),
                None,
                0,
            );
            final(core)@ == st.core && final(remote)@ == st.remote && actions_view(actions@) == st.actions
        }),
{
    remote.pending_stream_path = None;
    match outcome {
        Ok(_) => {
            let mut cs = chars_of("Streaming fallback active: ");
            let name = shown_name_of(requested.as_str());
            extend_chars(&mut cs, name.as_slice());
            let status = string_from_chars(cs.as_slice());
            core.show_status(status.as_str());
            remote.remote_logical_track = Some(requested);
        },
        Err(e) => {
            let mut cs = chars_of("Stream playback failed: ");
            let short = concise_audio_error(e.as_str());
            extend_str(&mut cs, short.as_str());
            let status = string_from_chars(cs.as_slice());
            core.show_status(status.as_str());
        },
    }
    let v: Vec<PlayerAction> = Vec::new();
    assert(actions_view(v@) =~= seq![]);
    v
}

fn cached_copy_played(
    core: &mut TuneCore,
    remote: &mut RemotePlayback,
    f: TrackFollow,
    outcome: Result<(), String>,
    local_position_ms: Option<u64>,
    sync_threshold_ms: u16,
) -> (actions: Vec<PlayerAction>)
    requires
        old(remote).awaiting is None,
    ensures
        ({
            let st = play_outcome(
                old(core)@,
                RemoteView { awaiting: Some(AwaitedView::CachedCopy(f@)), ..old(remote)@ },
                outcome_view(outcome),
                local_position_ms,
                sync_threshold_ms,
            );
            final(core)@ == st.core && final(remote)@ == st.remote && actions_view(actions@) == st.actions
        }),
{
    match outcome {
        Ok(_) => {
            remote.remote_logical_track = Some(f.path.clone());
            follow_track(core, remote, f, local_position_ms, sync_threshold_ms)
        },
        Err(_) => {
            let p = f.path.clone();
            remote.awaiting = Some(AwaitedPlay::Original(f));
            one_action(PlayerAction::Play(p))
        },
    }
}

fn original_played(
    core: &mut TuneCore,
    remote: &mut RemotePlayback,
    f: TrackFollow,
    outcome: Result<(), String>,
    local_position_ms: Option<u64>,
    sync_threshold_ms: u16,
) -> (actions: Vec<PlayerAction>)
    requires
        old(remote).awaiting is None,
    ensures
        ({
            let st = play_outcome(
                old(core)@,
                RemoteView { awaiting: Some(AwaitedView::Original(f@)), ..old(remote)@ },
                outcome_view(outcome),
                local_position_ms,
                sync_threshold_ms,
            );
            final(core)@ == st.core && final(remote)@ == st.remote && actions_view(actions@) == st.actions
        }),
{
    match outcome {
        Ok(_) => {
            remote.remote_logical_track = Some(f.path.clone());
            follow_track(core, remote, f, local_position_ms, sync_threshold_ms)
        },
        Err(_) => {
            let already = match &remote.pending_stream_path {
                Some(p) => same_path_text(p.as_str(), f.path.as_str()),
                None => false,
            };
            if already {
                core.mark_dirty();
                let v: Vec<PlayerAction> = Vec::new();
                assert(actions_view(v@) =~= seq![]);
                v
            } else {
                match &f.source {
                    Some(src) => {
                        let mut cs = chars_of("Remote track missing locally, requesting stream from ");
                        extend_str(&mut cs, src.as_str());
                        extend_str(&mut cs, "...");
                        let status = string_from_chars(cs.as_slice());
                        core.show_status(status.as_str());
                    },
                    None => {
                        core.show_status("Remote track missing locally, requesting stream...");
                    },
                }
                remote.pending_stream_path = Some(f.path.clone());
                remote.remote_logical_track = Some(f.path.clone());
                one_action(PlayerAction::RequestStream { path: f.path, source: f.source })
            }
        },
    }
}

// ---------------------------------------------------------------------------
// Laws
// ---------------------------------------------------------------------------

/// A synced session whose transport was already seen (its sequence number is not above the
/// last one seen) is taken as the new session and nothing else happens: no action, and the
/// followed state unchanged.
pub proof fn stale_transport_is_ignored(
    core: CoreView,
    remote: RemoteView,
    session: Option<SessionView>,
    prompts: PromptsView,
    s: SessionView,
    local_nickname: Seq<char>,
    role: NetworkRole,
    track_loaded: bool,
    local_ms: Option<u64>,
    threshold_ms: u16,
)
    requires
        s.last_transport matches Some(t) && t.seq <= remote.last_transport_seq,
    ensures
        ({
            let o = event_outcome(core, remote, session, prompts, EventView::SessionSync(s), local_nickname, role, track_loaded, local_ms, threshold_ms);
            &&& o.actions == Seq::<ActionView>::empty()
            &&& o.remote == (RemoteView { awaiting: None, ..remote })
            &&& o.core == (CoreView { dirty: true, ..core })
            &&& o.session == Some(SessionView { participants: localized(s.participants, local_nickname, role == NetworkRole::Host), ..s })
        }),
{
}

/// A status reporting the connection gone always leaves the room: the connection closes,
/// the session ends, the next transport of any sequence number is new, and no stream is
/// awaited.
pub proof fn disconnect_leaves_room(
    core: CoreView,
    remote: RemoteView,
    session: Option<SessionView>,
    prompts: PromptsView,
    message: Seq<char>,
    local_nickname: Seq<char>,
    role: NetworkRole,
    track_loaded: bool,
    local_ms: Option<u64>,
    threshold_ms: u16,
)
    requires
        is_disconnect_message(message),
    ensures
        ({
            let o = event_outcome(core, remote, session, prompts, EventView::Status(message), local_nickname, role, track_loaded, local_ms, threshold_ms);
            &&& o.actions == seq![ActionView::ShutDownNetwork]
            &&& o.session is None
            &&& o.remote.last_transport_seq == 0
            &&& o.remote.pending_stream_path is None
            &&& o.remote.awaiting is None
            &&& o.core.status == message
        }),
{
}

} // verus!
