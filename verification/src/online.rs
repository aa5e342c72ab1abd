use crate::random::{random_range_i32, random_range_u16, random_range_usize, thread_rng};
use crate::text::{
    chars_of, push_decimal, decimal, string_from_chars, trim, trimmed, upper_chars, upper_seq,
};
use vstd::prelude::*;

verus! {

pub const ROOM_CODE_LEN: usize = 6;

pub const MAX_SHARED_QUEUE_ITEMS: usize = 512;

pub open spec fn toggled_mode(m: OnlineRoomMode) -> OnlineRoomMode {
    match m {
        OnlineRoomMode::Collaborative => OnlineRoomMode::HostOnly,
        OnlineRoomMode::HostOnly => OnlineRoomMode::Collaborative,
    }
}

pub open spec fn next_quality(q: StreamQuality) -> StreamQuality {
    match q {
        StreamQuality::Lossless => StreamQuality::Balanced,
        StreamQuality::Balanced => StreamQuality::Lossless,
    }
}

#[derive(Debug, Clone, Copy, PartialEq, Eq, Structural)]
pub enum OnlineRoomMode {
    Collaborative,
    HostOnly,
}

impl OnlineRoomMode {
    pub fn toggle(self) -> (r: Self)
        ensures
            r != self,
            r == toggled_mode(self),
    {
        match self {
            OnlineRoomMode::Collaborative => OnlineRoomMode::HostOnly,
            OnlineRoomMode::HostOnly => OnlineRoomMode::Collaborative,
        }
    }

    pub fn label(self) -> (r: &'static str)
        ensures
            self == OnlineRoomMode::Collaborative ==> r@ == "Collaborative"@,
            self == OnlineRoomMode::HostOnly ==> r@ == "Host-only DJ"@,
    {
        match self {
            OnlineRoomMode::Collaborative => "Collaborative",
            OnlineRoomMode::HostOnly => "Host-only DJ",
        }
    }
}

#[derive(Debug, Clone, Copy, PartialEq, Eq, Structural)]
pub enum StreamQuality {
    Lossless,
    Balanced,
}

impl StreamQuality {
    pub fn next(self) -> (r: Self)
        ensures
            r != self,
            r == next_quality(self),
    {
        match self {
            StreamQuality::Lossless => StreamQuality::Balanced,
            StreamQuality::Balanced => StreamQuality::Lossless,
        }
    }

    pub fn label(self) -> (r: &'static str)
        ensures
            self == StreamQuality::Lossless ==> r@ == "Lossless"@,
            self == StreamQuality::Balanced ==> r@ == "Balanced"@,
    {
        match self {
            StreamQuality::Lossless => "Lossless",
            StreamQuality::Balanced => "Balanced",
        }
    }
}

#[derive(Debug, Clone, Copy, PartialEq, Eq, Structural)]
pub enum QueueDelivery {
    PreferLocalWithStreamFallback,
    HostStreamOnly,
}

impl QueueDelivery {
    pub fn label(self) -> (r: &'static str)
        ensures
            self == QueueDelivery::PreferLocalWithStreamFallback ==> r@ == "Local+stream fallback"@,
            self == QueueDelivery::HostStreamOnly ==> r@ == "Host stream"@,
    {
        match self {
            QueueDelivery::PreferLocalWithStreamFallback => "Local+stream fallback",
            QueueDelivery::HostStreamOnly => "Host stream",
        }
    }
}

pub open spec fn text_opt(o: Option<String>) -> Option<Seq<char>> {
    match o {
        Some(s) => Some(s@),
        None => None,
    }
}

/// A track waiting in the room's shared queue; paths are kept as text.
#[derive(Debug)]
pub struct SharedQueueItem {
    pub path: String,
    pub title: String,
    pub delivery: QueueDelivery,
    pub owner_nickname: Option<String>,
}

pub struct QueueItemView {
    pub path: Seq<char>,
    pub title: Seq<char>,
    pub delivery: QueueDelivery,
    pub owner_nickname: Option<Seq<char>>,
}

impl View for SharedQueueItem {
    type V = QueueItemView;

    open spec fn view(&self) -> QueueItemView {
        QueueItemView {
            path: self.path@,
            title: self.title@,
            delivery: self.delivery,
            owner_nickname: text_opt(self.owner_nickname),
        }
    }
}

pub fn copy_opt_string(o: &Option<String>) -> (r: Option<String>)
    ensures
        text_opt(r) == text_opt(*o),
{
    match o {
        Some(s) => Some(s.clone()),
        None => None,
    }
}

impl SharedQueueItem {
    pub fn copy(&self) -> (r: Self)
        ensures
            r@ == self@,
    {
        SharedQueueItem {
            path: self.path.clone(),
            title: self.title.clone(),
            delivery: self.delivery,
            owner_nickname: copy_opt_string(&self.owner_nickname),
        }
    }
}

#[derive(Debug)]
pub struct Participant {
    pub nickname: String,
    pub is_local: bool,
    pub is_host: bool,
    pub ping_ms: u16,
    pub manual_extra_delay_ms: u16,
    pub auto_ping_delay: bool,
}

pub struct ParticipantView {
    pub nickname: Seq<char>,
    pub is_local: bool,
    pub is_host: bool,
    pub ping_ms: u16,
    pub manual_extra_delay_ms: u16,
    pub auto_ping_delay: bool,
}

impl View for Participant {
    type V = ParticipantView;

    open spec fn view(&self) -> ParticipantView {
        ParticipantView {
            nickname: self.nickname@,
            is_local: self.is_local,
            is_host: self.is_host,
            ping_ms: self.ping_ms,
            manual_extra_delay_ms: self.manual_extra_delay_ms,
            auto_ping_delay: self.auto_ping_delay,
        }
    }
}

/// The delay a participant's playback is shifted by: the measured ping (saturating) plus
/// the manual extra delay when auto-ping is on, the manual delay alone otherwise.
pub open spec fn effective_delay(p: ParticipantView) -> u16 {
    if p.auto_ping_delay {
        if p.ping_ms + p.manual_extra_delay_ms > u16::MAX {
            u16::MAX
        } else {
            (p.ping_ms + p.manual_extra_delay_ms) as u16
        }
    } else {
        p.manual_extra_delay_ms
    }
}

impl Participant {
    pub fn effective_delay_ms(&self) -> (r: u16)
        ensures
            r == effective_delay(self@),
    {
        if self.auto_ping_delay {
            self.ping_ms.saturating_add(self.manual_extra_delay_ms)
        } else {
            self.manual_extra_delay_ms
        }
    }

    pub fn copy(&self) -> (r: Self)
        ensures
            r@ == self@,
    {
        Participant {
            nickname: self.nickname.clone(),
            is_local: self.is_local,
            is_host: self.is_host,
            ping_ms: self.ping_ms,
            manual_extra_delay_ms: self.manual_extra_delay_ms,
            auto_ping_delay: self.auto_ping_delay,
        }
    }
}

#[derive(Debug)]
pub enum TransportCommand {
    SetPaused { paused: bool },
    PlayTrack { path: String },
    SetPlaybackState { path: String, position_ms: u64, paused: bool },
}

pub enum CommandView {
    SetPaused { paused: bool },
    PlayTrack { path: Seq<char> },
    SetPlaybackState { path: Seq<char>, position_ms: u64, paused: bool },
}

impl View for TransportCommand {
    type V = CommandView;

    open spec fn view(&self) -> CommandView {
        match self {
            TransportCommand::SetPaused { paused } => CommandView::SetPaused { paused: *paused },
            TransportCommand::PlayTrack { path } => CommandView::PlayTrack { path: path@ },
            TransportCommand::SetPlaybackState { path, position_ms, paused } =>
                CommandView::SetPlaybackState {
                path: path@,
                position_ms: *position_ms,
                paused: *paused,
            },
        }
    }
}

impl TransportCommand {
    pub fn copy(&self) -> (r: Self)
        ensures
            r@ == self@,
    {
        match self {
            TransportCommand::SetPaused { paused } => TransportCommand::SetPaused { paused: *paused },
            TransportCommand::PlayTrack { path } => TransportCommand::PlayTrack { path: path.clone() },
            TransportCommand::SetPlaybackState { path, position_ms, paused } =>
                TransportCommand::SetPlaybackState {
                path: path.clone(),
                position_ms: *position_ms,
                paused: *paused,
            },
        }
    }
}

#[derive(Debug)]
pub struct TransportEnvelope {
    pub seq: u64,
    pub origin_nickname: String,
    pub command: TransportCommand,
}

pub struct EnvelopeView {
    pub seq: u64,
    pub origin_nickname: Seq<char>,
    pub command: CommandView,
}

impl View for TransportEnvelope {
    type V = EnvelopeView;

    open spec fn view(&self) -> EnvelopeView {
        EnvelopeView { seq: self.seq, origin_nickname: self.origin_nickname@, command: self.command@ }
    }
}

pub open spec fn envelope_opt(o: Option<TransportEnvelope>) -> Option<EnvelopeView> {
    match o {
        Some(e) => Some(e@),
        None => None,
    }
}

#[derive(Debug)]
pub struct OnlineSession {
    pub room_code: String,
    pub mode: OnlineRoomMode,
    pub quality: StreamQuality,
    pub participants: Vec<Participant>,
    pub shared_queue: Vec<SharedQueueItem>,
    pub last_sync_drift_ms: i32,
    pub last_transport: Option<TransportEnvelope>,
}

pub struct SessionView {
    pub room_code: Seq<char>,
    pub mode: OnlineRoomMode,
    pub quality: StreamQuality,
    pub participants: Seq<ParticipantView>,
    pub shared_queue: Seq<QueueItemView>,
    pub last_sync_drift_ms: i32,
    pub last_transport: Option<EnvelopeView>,
}

pub open spec fn participants_view(ps: Seq<Participant>) -> Seq<ParticipantView> {
    ps.map_values(|p: Participant| p@)
}

pub open spec fn queue_view(q: Seq<SharedQueueItem>) -> Seq<QueueItemView> {
    q.map_values(|i: SharedQueueItem| i@)
}

impl View for OnlineSession {
    type V = SessionView;

    open spec fn view(&self) -> SessionView {
        SessionView {
            room_code: self.room_code@,
            mode: self.mode,
            quality: self.quality,
            participants: participants_view(self.participants@),
            shared_queue: queue_view(self.shared_queue@),
            last_sync_drift_ms: self.last_sync_drift_ms,
            last_transport: envelope_opt(self.last_transport),
        }
    }
}

/// The characters a generated room code is drawn from.
pub open spec fn room_code_alphabet() -> Seq<char> {
    "ABCDEFGHJKLMNPQRSTUVWXYZ23456789"@
}

pub open spec fn is_room_code(code: Seq<char>) -> bool {
    &&& code.len() == ROOM_CODE_LEN
    &&& forall|i: int| 0 <= i < code.len() ==> room_code_alphabet().contains(#[trigger] code[i])
}

/// A nickname as entered, or "you" when nothing but white space was entered.
pub open spec fn normalized_nickname_spec(input: Seq<char>) -> Seq<char> {
    if trim(input).len() == 0 {
        "you"@
    } else {
        trim(input)
    }
}

/// Index `i` holds the first participant marked as local.
pub open spec fn is_first_local(ps: Seq<ParticipantView>, i: int) -> bool {
    &&& 0 <= i < ps.len()
    &&& ps[i].is_local
    &&& forall|j: int| 0 <= j < i ==> !(#[trigger] ps[j]).is_local
}

pub open spec fn has_local(ps: Seq<ParticipantView>) -> bool {
    exists|i: int| 0 <= i < ps.len() && (#[trigger] ps[i]).is_local
}

pub open spec fn count_remote(ps: Seq<ParticipantView>) -> nat
    decreases ps.len(),
{
    if ps.len() == 0 {
        0
    } else {
        count_remote(ps.drop_last()) + if ps.last().is_local {
            0nat
        } else {
            1nat
        }
    }
}

/// The participant a session starts with for the local user.
pub open spec fn local_participant_spec(nickname: Seq<char>, is_host: bool) -> ParticipantView {
    ParticipantView {
        nickname: normalized_nickname_spec(nickname),
        is_local: true,
        is_host,
        ping_ms: if is_host {
            18
        } else {
            42
        },
        manual_extra_delay_ms: 0,
        auto_ping_delay: true,
    }
}

/// The queue after appending one item, keeping only the newest `MAX_SHARED_QUEUE_ITEMS`.
pub open spec fn queue_after_push<T>(q: Seq<T>, item: T) -> Seq<T> {
    let pushed = q.push(item);
    if pushed.len() > MAX_SHARED_QUEUE_ITEMS {
        pushed.skip(pushed.len() - MAX_SHARED_QUEUE_ITEMS)
    } else {
        pushed
    }
}

/// Drops the oldest items so that at most `MAX_SHARED_QUEUE_ITEMS` remain.
pub fn cap_shared_queue(queue: &mut Vec<SharedQueueItem>)
    ensures
        queue_view(final(queue)@) == (if old(queue)@.len() > MAX_SHARED_QUEUE_ITEMS {
            queue_view(old(queue)@).skip(old(queue)@.len() - MAX_SHARED_QUEUE_ITEMS)
        } else {
            queue_view(old(queue)@)
        }),
{
    if queue.len() <= MAX_SHARED_QUEUE_ITEMS {
        return ;
    }
    let remove = queue.len() - MAX_SHARED_QUEUE_ITEMS;
    let ghost before = queue_view(queue@);
    let mut kept: Vec<SharedQueueItem> = Vec::new();
    let mut i = remove;
    while i < queue.len()
        invariant
            remove <= i <= queue.len(),
            before == queue_view(queue@),
            queue_view(kept@) == before.subrange(remove as int, i as int),
        decreases queue.len() - i,
    {
        let item = queue[i].copy();
        let ghost prev = kept@;
        kept.push(item);
        assert(kept@ == prev.push(item));
        assert(before[i as int] == item@);
        i += 1;
        assert(queue_view(kept@) =~= queue_view(prev).push(item@));
        assert(queue_view(kept@) =~= before.subrange(remove as int, i as int));
    }
    *queue = kept;
    assert(before.subrange(remove as int, before.len() as int) =~= before.skip(remove as int));
}

pub fn normalized_nickname(input: &str) -> (out: String)
    ensures
        out@ == normalized_nickname_spec(input@),
{
    let t = trimmed(input);
    if t.len() == 0 {
        let you = chars_of("you");
        string_from_chars(you.as_slice())
    } else {
        string_from_chars(t.as_slice())
    }
}

/// A fresh room code: six characters drawn at random from the room-code alphabet.
pub fn generate_room_code() -> (out: String)
    ensures
        is_room_code(out@),
{
    let alphabet = chars_of("ABCDEFGHJKLMNPQRSTUVWXYZ23456789");
    let mut rng = thread_rng();
    let mut out: Vec<char> = Vec::new();
    let mut i: usize = 0;
    while i < ROOM_CODE_LEN
        invariant
            alphabet@ == room_code_alphabet(),
            i <= ROOM_CODE_LEN,
            out@.len() == i,
            forall|k: int| 0 <= k < i ==> room_code_alphabet().contains(#[trigger] out@[k]),
        decreases ROOM_CODE_LEN - i,
    {
        proof {
            reveal_strlit("ABCDEFGHJKLMNPQRSTUVWXYZ23456789");
        }
        let idx = random_range_usize(&mut rng, 0, alphabet.len());
        let c = alphabet[idx];
        assert(room_code_alphabet()[idx as int] == c);
        out.push(c);
        i += 1;
    }
    string_from_chars(out.as_slice())
}

impl OnlineSession {
    /// A new room hosted by the local user.
    pub fn host(local_nickname: &str) -> (r: Self)
        ensures
            is_room_code(r@.room_code),
            r@.mode == OnlineRoomMode::Collaborative,
            r@.quality == StreamQuality::Lossless,
            r@.participants == seq![local_participant_spec(local_nickname@, true)],
            r@.shared_queue.len() == 0,
            r@.last_sync_drift_ms == 0,
            r@.last_transport is None,
    {
        let mut participants: Vec<Participant> = Vec::new();
        participants.push(
            Participant {
                nickname: normalized_nickname(local_nickname),
                is_local: true,
                is_host: true,
                ping_ms: 18,
                manual_extra_delay_ms: 0,
                auto_ping_delay: true,
            },
        );
        let r = OnlineSession {
            room_code: generate_room_code(),
            mode: OnlineRoomMode::Collaborative,
            quality: StreamQuality::Lossless,
            participants,
            shared_queue: Vec::new(),
            last_sync_drift_ms: 0,
            last_transport: None,
        };
        assert(r@.participants =~= seq![local_participant_spec(local_nickname@, true)]);
        r
    }

    /// Joins a room by code: the code is trimmed and upper-cased; a blank code is replaced
    /// by a generated one.
    pub fn join(room_code: &str, local_nickname: &str) -> (r: Self)
        ensures
            upper_seq(trim(room_code@)).len() > 0 ==> r@.room_code == upper_seq(trim(room_code@)),
            upper_seq(trim(room_code@)).len() == 0 ==> is_room_code(r@.room_code),
            r@.mode == OnlineRoomMode::Collaborative,
            r@.quality == StreamQuality::Lossless,
            r@.participants == seq![local_participant_spec(local_nickname@, false)],
            r@.shared_queue.len() == 0,
            r@.last_sync_drift_ms == 0,
            r@.last_transport is None,
    {
        let t = trimmed(room_code);
        let upper = upper_chars(t.as_slice());
        let code = if upper.len() == 0 {
            generate_room_code()
        } else {
            string_from_chars(upper.as_slice())
        };
        let mut participants: Vec<Participant> = Vec::new();
        participants.push(
            Participant {
                nickname: normalized_nickname(local_nickname),
                is_local: true,
                is_host: false,
                ping_ms: 42,
                manual_extra_delay_ms: 0,
                auto_ping_delay: true,
            },
        );
        let r = OnlineSession {
            room_code: code,
            mode: OnlineRoomMode::Collaborative,
            quality: StreamQuality::Lossless,
            participants,
            shared_queue: Vec::new(),
            last_sync_drift_ms: 0,
            last_transport: None,
        };
        assert(r@.participants =~= seq![local_participant_spec(local_nickname@, false)]);
        r
    }

    /// Position of the first participant marked as local.
    pub fn local_index(&self) -> (r: Option<usize>)
        ensures
            match r {
                Some(i) => is_first_local(self@.participants, i as int),
                None => !has_local(self@.participants),
            },
    {
        let mut i: usize = 0;
        while i < self.participants.len()
            invariant
                i <= self.participants.len(),
                forall|j: int| 0 <= j < i ==> !(#[trigger] self@.participants[j]).is_local,
            decreases self.participants.len() - i,
        {
            if self.participants[i].is_local {
                return Some(i);
            }
            i += 1;
        }
        None
    }

    pub fn local_participant(&self) -> (r: Option<&Participant>)
        ensures
            match r {
                Some(p) => exists|i: int| is_first_local(self@.participants, i) && p@
                    == self@.participants[i],
                None => !has_local(self@.participants),
            },
    {
        match self.local_index() {
            Some(i) => Some(&self.participants[i]),
            None => None,
        }
    }

    pub fn local_participant_mut(&mut self) -> (r: Option<&mut Participant>)
        ensures
            match r {
                Some(p) => exists|i: int|
                    {
                        &&& is_first_local(old(self)@.participants, i)
                        &&& (*p)@ == old(self)@.participants[i]
                        &&& final(self)@.participants == old(self)@.participants.update(
                            i,
                            (*final(p))@,
                        )
                    },
                None => !has_local(old(self)@.participants) && *final(self) == *old(self),
            },
            final(self)@.room_code == old(self)@.room_code,
            final(self)@.mode == old(self)@.mode,
            final(self)@.quality == old(self)@.quality,
            final(self)@.shared_queue == old(self)@.shared_queue,
            final(self)@.last_sync_drift_ms == old(self)@.last_sync_drift_ms,
            final(self)@.last_transport == old(self)@.last_transport,
    {
        match self.local_index() {
            Some(i) => Some(&mut self.participants[i]),
            None => None,
        }
    }

    pub fn can_local_control_playback(&self) -> (r: bool)
        ensures
            r == exists|i: int|
                is_first_local(self@.participants, i) && (self@.mode
                    == OnlineRoomMode::Collaborative || self@.participants[i].is_host),
    {
        match self.local_index() {
            Some(i) => {
                let r = self.mode == OnlineRoomMode::Collaborative || self.participants[i].is_host;
                proof {
                    assert forall|j: int| is_first_local(self@.participants, j) implies j == i by {
                        if j < i {
                            assert(!self@.participants[j].is_local);
                        }
                        if j > i {
                            assert(!self@.participants[i as int].is_local);
                        }
                    }
                }
                r
            },
            None => false,
        }
    }

}


/// Everything but the participants is as before.
pub open spec fn same_but_participants(a: SessionView, b: SessionView) -> bool {
    &&& a.room_code == b.room_code
    &&& a.mode == b.mode
    &&& a.quality == b.quality
    &&& a.shared_queue == b.shared_queue
    &&& a.last_sync_drift_ms == b.last_sync_drift_ms
    &&& a.last_transport == b.last_transport
}

/// `manual + delta`, clamped to the range of `u16`.
pub open spec fn clamped_delay(manual: u16, delta: i16) -> u16 {
    if manual + delta < 0 {
        0
    } else if manual + delta > u16::MAX {
        u16::MAX
    } else {
        (manual + delta) as u16
    }
}

pub open spec fn sat_u16(x: int) -> u16 {
    if x > u16::MAX {
        u16::MAX
    } else {
        x as u16
    }
}

/// The ping a recalibration starts from: 18 ms plus 4 ms per remote participant (the count
/// taken modulo 2^16), saturating.
pub open spec fn recalibration_base(remote: nat) -> u16 {
    sat_u16(18 + sat_u16((remote as u16) * 4))
}

/// The participants after the one at `i` gets the recalibrated ping with the given jitter.
pub open spec fn with_recalibrated_ping(ps: Seq<ParticipantView>, i: int, jitter: int) -> Seq<
    ParticipantView,
> {
    ps.update(
        i,
        ParticipantView {
            ping_ms: sat_u16(recalibration_base(count_remote(ps)) + jitter),
            ..ps[i]
        },
    )
}

pub open spec fn simulated_listener_name(n: nat) -> Seq<char> {
    "listener-"@ + decimal(n)
}

/// Index `i` holds the last participant that is not local.
pub open spec fn is_last_remote(ps: Seq<ParticipantView>, i: int) -> bool {
    &&& 0 <= i < ps.len()
    &&& !ps[i].is_local
    &&& forall|j: int| i < j < ps.len() ==> (#[trigger] ps[j]).is_local
}

pub proof fn lemma_count_remote_bound(ps: Seq<ParticipantView>)
    ensures
        count_remote(ps) <= ps.len(),
    decreases ps.len(),
{
    if ps.len() > 0 {
        lemma_count_remote_bound(ps.drop_last());
    }
}

impl OnlineSession {
    /// Number of participants that are not local.
    pub fn remote_count(&self) -> (r: usize)
        ensures
            r == count_remote(self@.participants),
    {
        let mut n: usize = 0;
        let mut i: usize = 0;
        while i < self.participants.len()
            invariant
                i <= self.participants.len(),
                n == count_remote(participants_view(self.participants@).take(i as int)),
                n <= i,
            decreases self.participants.len() - i,
        {
            let ghost vs = participants_view(self.participants@);
            assert(vs.take(i + 1).drop_last() == vs.take(i as int));
            if !self.participants[i].is_local {
                n += 1;
            }
            i += 1;
        }
        assert(participants_view(self.participants@).take(i as int) == participants_view(
            self.participants@,
        ));
        n
    }

    pub fn toggle_mode(&mut self)
        ensures
            final(self)@.mode == toggled_mode(old(self)@.mode),
            final(self)@.participants == old(self)@.participants,
            final(self)@.quality == old(self)@.quality,
            final(self)@.room_code == old(self)@.room_code,
            final(self)@.shared_queue == old(self)@.shared_queue,
            final(self)@.last_sync_drift_ms == old(self)@.last_sync_drift_ms,
            final(self)@.last_transport == old(self)@.last_transport,
    {
        self.mode = self.mode.toggle();
    }

    pub fn cycle_quality(&mut self)
        ensures
            final(self)@.quality == next_quality(old(self)@.quality),
            final(self)@.participants == old(self)@.participants,
            final(self)@.mode == old(self)@.mode,
            final(self)@.room_code == old(self)@.room_code,
            final(self)@.shared_queue == old(self)@.shared_queue,
            final(self)@.last_sync_drift_ms == old(self)@.last_sync_drift_ms,
            final(self)@.last_transport == old(self)@.last_transport,
    {
        self.quality = self.quality.next();
    }

    /// Flips the auto-ping setting of the local participant, if there is one.
    pub fn toggle_local_auto_delay(&mut self)
        ensures
            same_but_participants(final(self)@, old(self)@),
            !has_local(old(self)@.participants) ==> final(self)@.participants == old(
                self,
            )@.participants,
            forall|i: int|
                is_first_local(old(self)@.participants, i) ==> final(self)@.participants == old(
                    self,
                )@.participants.update(
                    i,
                    ParticipantView {
                        auto_ping_delay: !old(self)@.participants[i].auto_ping_delay,
                        ..old(self)@.participants[i]
                    },
                ),
    {
        let ghost before = self@;
        match self.local_index() {
            Some(i) => {
                let flipped = !self.participants[i].auto_ping_delay;
                self.participants[i].auto_ping_delay = flipped;
                proof {
                    assert forall|j: int| is_first_local(before.participants, j) implies j
                        == i by {
                        if j < i {
                            assert(!before.participants[j].is_local);
                        }
                        if j > i {
                            assert(!before.participants[i as int].is_local);
                        }
                    }
                    assert(self@.participants =~= before.participants.update(
                        i as int,
                        ParticipantView {
                            auto_ping_delay: !before.participants[i as int].auto_ping_delay,
                            ..before.participants[i as int]
                        },
                    ));
                }
            },
            None => {},
        }
    }

    /// Shifts the local participant's manual delay by `delta_ms`, clamped to `0..=u16::MAX`.
    pub fn adjust_local_manual_delay(&mut self, delta_ms: i16)
        ensures
            same_but_participants(final(self)@, old(self)@),
            !has_local(old(self)@.participants) ==> final(self)@.participants == old(
                self,
            )@.participants,
            forall|i: int|
                is_first_local(old(self)@.participants, i) ==> final(self)@.participants == old(
                    self,
                )@.participants.update(
                    i,
                    ParticipantView {
                        manual_extra_delay_ms: clamped_delay(
                            old(self)@.participants[i].manual_extra_delay_ms,
                            delta_ms,
                        ),
                        ..old(self)@.participants[i]
                    },
                ),
    {
        let ghost before = self@;
        match self.local_index() {
            Some(i) => {
                let current: i32 = self.participants[i].manual_extra_delay_ms as i32;
                let sum: i32 = current + delta_ms as i32;
                let updated: u16 = if sum < 0 {
                    0
                } else if sum > 65535 {
                    65535
                } else {
                    sum as u16
                };
                self.participants[i].manual_extra_delay_ms = updated;
                proof {
                    assert forall|j: int| is_first_local(before.participants, j) implies j
                        == i by {
                        if j < i {
                            assert(!before.participants[j].is_local);
                        }
                        if j > i {
                            assert(!before.participants[i as int].is_local);
                        }
                    }
                    assert(self@.participants =~= before.participants.update(
                        i as int,
                        ParticipantView {
                            manual_extra_delay_ms: clamped_delay(
                                before.participants[i as int].manual_extra_delay_ms,
                                delta_ms,
                            ),
                            ..before.participants[i as int]
                        },
                    ));
                }
            },
            None => {},
        }
    }

    /// Re-estimates the local ping: a base of 18 ms plus 4 ms per remote participant, plus a
    /// random jitter below 18 ms; the sync drift is redrawn in `-35..35`. Without a local
    /// participant nothing changes.
    pub fn recalibrate_local_ping(&mut self)
        ensures
            !has_local(old(self)@.participants) ==> final(self)@ == old(self)@,
            has_local(old(self)@.participants) ==> {
                &&& -35 <= final(self)@.last_sync_drift_ms < 35
                &&& final(self)@.room_code == old(self)@.room_code
                &&& final(self)@.mode == old(self)@.mode
                &&& final(self)@.quality == old(self)@.quality
                &&& final(self)@.shared_queue == old(self)@.shared_queue
                &&& final(self)@.last_transport == old(self)@.last_transport
                &&& exists|i: int, jitter: int|
                    {
                        &&& is_first_local(old(self)@.participants, i)
                        &&& 0 <= jitter < 18
                        &&& final(self)@.participants == #[trigger] with_recalibrated_ping(
                            old(self)@.participants,
                            i,
                            jitter,
                        )
                    }
            },
    {
        let ghost before = self@;
        let remote = self.remote_count();
        match self.local_index() {
            Some(i) => {
                let mut rng = thread_rng();
                let truncated: u16 = remote as u16;
                let scaled: u16 = if truncated > 16383 {
                    u16::MAX
                } else {
                    truncated * 4
                };
                let base: u16 = 18u16.saturating_add(scaled);
                let jitter = random_range_u16(&mut rng, 0, 18);
                self.participants[i].ping_ms = base.saturating_add(jitter);
                self.last_sync_drift_ms = random_range_i32(&mut rng, -35, 35);
                proof {
                    assert(self@.participants =~= with_recalibrated_ping(
                        before.participants,
                        i as int,
                        jitter as int,
                    ));
                }
            },
            None => {
                assert(self@ == before);
            },
        }
    }

    /// Adds a simulated remote listener named `listener-N`, where N is one more than the
    /// number of remote participants, with a random ping in `22..120`; returns its name.
    pub fn add_simulated_listener(&mut self) -> (r: String)
        ensures
            r@ == simulated_listener_name(
                if count_remote(old(self)@.participants) < usize::MAX {
                    count_remote(old(self)@.participants) + 1
                } else {
                    count_remote(old(self)@.participants)
                },
            ),
            same_but_participants(final(self)@, old(self)@),
            exists|ping: u16|
                22 <= ping < 120 && final(self)@.participants == old(self)@.participants.push(
                    ParticipantView {
                        nickname: r@,
                        is_local: false,
                        is_host: false,
                        ping_ms: ping,
                        manual_extra_delay_ms: 0,
                        auto_ping_delay: true,
                    },
                ),
    {
        let ghost before = self@;
        let remote = self.remote_count();
        proof {
            lemma_count_remote_bound(before.participants);
        }
        let next_index = remote.saturating_add(1);
        let mut name: Vec<char> = chars_of("listener-");
        push_decimal(&mut name, next_index as u64);
        let nickname = string_from_chars(name.as_slice());
        let mut rng = thread_rng();
        let ping = random_range_u16(&mut rng, 22, 120);
        self.participants.push(
            Participant {
                nickname: nickname.clone(),
                is_local: false,
                is_host: false,
                ping_ms: ping,
                manual_extra_delay_ms: 0,
                auto_ping_delay: true,
            },
        );
        assert(self@.participants =~= before.participants.push(
            ParticipantView {
                nickname: nickname@,
                is_local: false,
                is_host: false,
                ping_ms: ping,
                manual_extra_delay_ms: 0,
                auto_ping_delay: true,
            },
        ));
        nickname
    }

    /// Removes the most recently added remote participant and returns its name.
    pub fn remove_latest_listener(&mut self) -> (r: Option<String>)
        ensures
            same_but_participants(final(self)@, old(self)@),
            match r {
                Some(name) => exists|i: int|
                    {
                        &&& is_last_remote(old(self)@.participants, i)
                        &&& name@ == old(self)@.participants[i].nickname
                        &&& final(self)@.participants == old(self)@.participants.remove(i)
                    },
                None => final(self)@.participants == old(self)@.participants && forall|i: int|
                    0 <= i < old(self)@.participants.len() ==> (#[trigger] old(
                        self,
                    )@.participants[i]).is_local,
            },
    {
        let ghost before = self@;
        let ghost raw = self.participants@;
        let mut i = self.participants.len();
        while i > 0
            invariant
                i <= self.participants.len(),
                self@ == before,
                before == old(self)@,
                self.participants@ == raw,
                forall|j: int| i <= j < self.participants.len() ==> (#[trigger] before.participants[j]).is_local,
            decreases i,
        {
            if !self.participants[i - 1].is_local {
                let removed = self.participants.remove(i - 1);
                proof {
                    assert(self.participants@ == raw.remove(i - 1));
                    assert(removed@ == before.participants[i - 1]);
                    assert(same_but_participants(self@, before));
                    assert(is_last_remote(before.participants, i - 1));
                    assert(participants_view(self.participants@) =~= before.participants.remove(
                        i - 1,
                    ));
                }
                return Some(removed.nickname);
            }
            i -= 1;
        }
        None
    }

    /// Appends a track to the shared queue, keeping only the newest 512 items. A path that
    /// exists locally is delivered locally with a stream fallback, any other from the host
    /// stream.
    pub fn push_shared_track(
        &mut self,
        path: &str,
        title: String,
        owner_nickname: Option<String>,
        path_exists: bool,
    )
        ensures
            final(self)@.shared_queue == queue_after_push(
                old(self)@.shared_queue,
                QueueItemView {
                    path: path@,
                    title: title@,
                    delivery: if path_exists {
                        QueueDelivery::PreferLocalWithStreamFallback
                    } else {
                        QueueDelivery::HostStreamOnly
                    },
                    owner_nickname: text_opt(owner_nickname),
                },
            ),
            final(self)@.participants == old(self)@.participants,
            final(self)@.room_code == old(self)@.room_code,
            final(self)@.mode == old(self)@.mode,
            final(self)@.quality == old(self)@.quality,
            final(self)@.last_sync_drift_ms == old(self)@.last_sync_drift_ms,
            final(self)@.last_transport == old(self)@.last_transport,
    {
        let delivery = if path_exists {
            QueueDelivery::PreferLocalWithStreamFallback
        } else {
            QueueDelivery::HostStreamOnly
        };
        let chars = chars_of(path);
        let item = SharedQueueItem {
            path: string_from_chars(chars.as_slice()),
            title,
            delivery,
            owner_nickname,
        };
        let ghost item_view = item@;
        let ghost before = queue_view(self.shared_queue@);
        self.shared_queue.push(item);
        assert(queue_view(self.shared_queue@) =~= before.push(item_view));
        cap_shared_queue(&mut self.shared_queue);
    }
}

#[derive(Debug)]
pub struct OnlineState {
    pub session: Option<OnlineSession>,
}

impl Default for OnlineState {
    fn default() -> (r: Self)
        ensures
            r.session is None,
    {
        OnlineState { session: None }
    }
}

impl OnlineState {
    pub fn leave_room(&mut self)
        ensures
            final(self).session is None,
    {
        self.session = None;
    }

    pub fn host_room(&mut self, local_nickname: &str)
        ensures
            final(self).session matches Some(s) && {
                &&& is_room_code(s@.room_code)
                &&& s@.mode == OnlineRoomMode::Collaborative
                &&& s@.quality == StreamQuality::Lossless
                &&& s@.participants == seq![local_participant_spec(local_nickname@, true)]
                &&& s@.shared_queue.len() == 0
                &&& s@.last_sync_drift_ms == 0
                &&& s@.last_transport is None
            },
    {
        self.session = Some(OnlineSession::host(local_nickname));
    }

    pub fn join_room(&mut self, room_code: &str, local_nickname: &str)
        ensures
            final(self).session matches Some(s) && {
                &&& upper_seq(trim(room_code@)).len() > 0 ==> s@.room_code == upper_seq(
                    trim(room_code@),
                )
                &&& upper_seq(trim(room_code@)).len() == 0 ==> is_room_code(s@.room_code)
                &&& s@.mode == OnlineRoomMode::Collaborative
                &&& s@.quality == StreamQuality::Lossless
                &&& s@.participants == seq![local_participant_spec(local_nickname@, false)]
                &&& s@.shared_queue.len() == 0
                &&& s@.last_sync_drift_ms == 0
                &&& s@.last_transport is None
            },
    {
        self.session = Some(OnlineSession::join(room_code, local_nickname));
    }
}

} // verus!
