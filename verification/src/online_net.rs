use crate::online::{
    cap_shared_queue, queue_after_push, queue_view, text_opt, EnvelopeView, OnlineRoomMode,
    OnlineSession, ParticipantView, QueueItemView, SessionView, SharedQueueItem, StreamQuality,
    TransportEnvelope, is_first_local, participants_view,
};
use crate::online::Participant;
use crate::text::{
    chars_of, decimal, eq_ignore_ascii_case, eq_ignore_case, extend_str, is_alnum,
    is_ascii_alphanumeric, push_decimal, string_from_chars, trim, trimmed, str_eq,
};
use vstd::prelude::*;

verus! {

// ---------------------------------------------------------------------------
// Actions that change a shared session
// ---------------------------------------------------------------------------

/// Which side of a room connection this process plays.
#[derive(Debug, Clone, Copy, PartialEq, Eq, Structural)]
pub enum NetworkRole {
    Host,
    Client,
}

/// A change to the shared session requested by a participant. Paths are kept as text.
#[derive(Debug)]
pub enum LocalAction {
    SetMode(OnlineRoomMode),
    SetQuality(StreamQuality),
    SetNickname { nickname: String },
    QueueAdd(SharedQueueItem),
    QueueConsume { expected_path: Option<String> },
    DelayUpdate { manual_extra_delay_ms: u16, auto_ping_delay: bool },
    Transport(TransportEnvelope),
}

pub enum ActionView {
    SetMode(OnlineRoomMode),
    SetQuality(StreamQuality),
    SetNickname { nickname: Seq<char> },
    QueueAdd(QueueItemView),
    QueueConsume { expected_path: Option<Seq<char>> },
    DelayUpdate { manual_extra_delay_ms: u16, auto_ping_delay: bool },
    Transport(EnvelopeView),
}

impl View for LocalAction {
    type V = ActionView;

    open spec fn view(&self) -> ActionView {
        match self {
            LocalAction::SetMode(m) => ActionView::SetMode(*m),
            LocalAction::SetQuality(q) => ActionView::SetQuality(*q),
            LocalAction::SetNickname { nickname } => ActionView::SetNickname {
                nickname: nickname@,
            },
            LocalAction::QueueAdd(item) => ActionView::QueueAdd(item@),
            LocalAction::QueueConsume { expected_path } => ActionView::QueueConsume {
                expected_path: text_opt(*expected_path),
            },
            LocalAction::DelayUpdate { manual_extra_delay_ms, auto_ping_delay } =>
                ActionView::DelayUpdate {
                manual_extra_delay_ms: *manual_extra_delay_ms,
                auto_ping_delay: *auto_ping_delay,
            },
            LocalAction::Transport(e) => ActionView::Transport(e@),
        }
    }
}

/// Some participant is the host and is named `origin`, ignoring ASCII case.
pub open spec fn origin_is_host_spec(ps: Seq<ParticipantView>, origin: Seq<char>) -> bool {
    exists|i: int|
        0 <= i < ps.len() && (#[trigger] ps[i]).is_host && eq_ignore_case(ps[i].nickname, origin)
}

/// In a host-only room only the host changes the session, except that anyone may update
/// their own delay or nickname.
pub open spec fn allowed_spec(s: SessionView, a: ActionView, origin: Seq<char>) -> bool {
    ||| s.mode != OnlineRoomMode::HostOnly
    ||| origin_is_host_spec(s.participants, origin)
    ||| a is DelayUpdate
    ||| a is SetNickname
}

/// Index `i` holds the first participant named `name`, ignoring ASCII case.
pub open spec fn is_first_named(ps: Seq<ParticipantView>, name: Seq<char>, i: int) -> bool {
    &&& 0 <= i < ps.len()
    &&& eq_ignore_case(ps[i].nickname, name)
    &&& forall|j: int| 0 <= j < i ==> !eq_ignore_case(#[trigger] ps[j].nickname, name)
}

/// Index `i` holds the first participant named exactly `name`.
pub open spec fn is_first_exact(ps: Seq<ParticipantView>, name: Seq<char>, i: int) -> bool {
    &&& 0 <= i < ps.len()
    &&& ps[i].nickname == name
    &&& forall|j: int| 0 <= j < i ==> (#[trigger] ps[j]).nickname != name
}

pub open spec fn first_named(ps: Seq<ParticipantView>, name: Seq<char>) -> Option<int> {
    if exists|i: int| is_first_named(ps, name, i) {
        Some(choose|i: int| is_first_named(ps, name, i))
    } else {
        None
    }
}

/// The participant a delay update from `origin` applies to: the first one named exactly
/// `origin`, else the first local one.
pub open spec fn delay_target(ps: Seq<ParticipantView>, origin: Seq<char>) -> Option<int> {
    if exists|i: int| is_first_exact(ps, origin, i) {
        Some(choose|i: int| is_first_exact(ps, origin, i))
    } else if exists|i: int| is_first_local(ps, i) {
        Some(choose|i: int| is_first_local(ps, i))
    } else {
        None
    }
}

/// Some other participant than `origin` already goes by `name` (both ignoring ASCII case).
pub open spec fn nickname_taken(ps: Seq<ParticipantView>, name: Seq<char>, origin: Seq<char>) -> bool {
    exists|i: int|
        0 <= i < ps.len() && eq_ignore_case((#[trigger] ps[i]).nickname, name) && !eq_ignore_case(
            ps[i].nickname,
            origin,
        )
}

pub open spec fn renamed_owner(item: QueueItemView, previous: Seq<char>, name: Seq<char>) -> QueueItemView {
    match item.owner_nickname {
        Some(o) => if eq_ignore_case(o, previous) {
            QueueItemView { owner_nickname: Some(name), ..item }
        } else {
            item
        },
        None => item,
    }
}

pub open spec fn renamed_origin(t: Option<EnvelopeView>, previous: Seq<char>, name: Seq<char>) -> Option<
    EnvelopeView,
> {
    match t {
        Some(e) => if eq_ignore_case(e.origin_nickname, previous) {
            Some(EnvelopeView { origin_nickname: name, ..e })
        } else {
            t
        },
        None => t,
    }
}

/// A nickname change requested by `origin`: the trimmed name replaces the first participant
/// named `origin` (ignoring ASCII case), and the queue items and last transport command that
/// carried the old name follow. A blank name, or one another participant already uses,
/// changes nothing.
pub open spec fn nickname_applied(s: SessionView, origin: Seq<char>, requested: Seq<char>) -> SessionView {
    let t = trim(requested);
    if t.len() == 0 || nickname_taken(s.participants, t, origin) {
        s
    } else {
        match first_named(s.participants, origin) {
            None => s,
            Some(i) => {
                let previous = s.participants[i].nickname;
                SessionView {
                    participants: s.participants.update(
                        i,
                        ParticipantView { nickname: t, ..s.participants[i] },
                    ),
                    shared_queue: s.shared_queue.map_values(
                        |q: QueueItemView| renamed_owner(q, previous, t),
                    ),
                    last_transport: renamed_origin(s.last_transport, previous, t),
                    ..s
                }
            },
        }
    }
}

/// The queue after a consume: the front item leaves when there is one and it is the
/// expected path (or no path is expected).
pub open spec fn consumed(q: Seq<QueueItemView>, expected: Option<Seq<char>>) -> Seq<QueueItemView> {
    if q.len() > 0 && (expected is None || q[0].path == expected->0) {
        q.drop_first()
    } else {
        q
    }
}

pub open spec fn next_transport_seq(t: Option<EnvelopeView>) -> u64 {
    match t {
        Some(e) => if e.seq == u64::MAX {
            u64::MAX
        } else {
            (e.seq + 1) as u64
        },
        None => 1,
    }
}

/// The session after `origin`'s action, when it is allowed; otherwise the session as it was.
pub open spec fn applied(s: SessionView, a: ActionView, origin: Seq<char>) -> SessionView {
    if !allowed_spec(s, a, origin) {
        s
    } else {
        match a {
            ActionView::SetMode(m) => SessionView { mode: m, ..s },
            ActionView::SetQuality(q) => SessionView { quality: q, ..s },
            ActionView::SetNickname { nickname } => nickname_applied(s, origin, nickname),
            ActionView::QueueAdd(item) => SessionView {
                shared_queue: queue_after_push(s.shared_queue, item),
                ..s
            },
            ActionView::QueueConsume { expected_path } => SessionView {
                shared_queue: consumed(s.shared_queue, expected_path),
                ..s
            },
            ActionView::DelayUpdate { manual_extra_delay_ms, auto_ping_delay } => match delay_target(
                s.participants,
                origin,
            ) {
                None => s,
                Some(i) => SessionView {
                    participants: s.participants.update(
                        i,
                        ParticipantView {
                            manual_extra_delay_ms,
                            auto_ping_delay,
                            ..s.participants[i]
                        },
                    ),
                    ..s
                },
            },
            ActionView::Transport(e) => SessionView {
                last_transport: Some(
                    EnvelopeView {
                        seq: next_transport_seq(s.last_transport),
                        origin_nickname: origin,
                        ..e
                    },
                ),
                ..s
            },
        }
    }
}

/// In a host-only room, a participant other than the host changes nothing but their own
/// delay or nickname: any other action leaves the session as it was.
pub proof fn host_only_room_ignores_listener_control(s: SessionView, a: ActionView, origin: Seq<char>)
    requires
        s.mode == OnlineRoomMode::HostOnly,
        !origin_is_host_spec(s.participants, origin),
        !(a is DelayUpdate),
        !(a is SetNickname),
    ensures
        applied(s, a, origin) == s,
{
}

/// Where the sender may change the room (any room but a host-only one, or the host), a
/// mode or quality change takes effect and changes nothing else, and a track added goes to
/// the end of the shared queue, after the tracks already there.
pub proof fn room_settings_take_effect(s: SessionView, origin: Seq<char>, m: OnlineRoomMode, q: StreamQuality, item: QueueItemView)
    requires
        s.mode != OnlineRoomMode::HostOnly || origin_is_host_spec(s.participants, origin),
        s.shared_queue.len() < crate::online::MAX_SHARED_QUEUE_ITEMS,
    ensures
        applied(s, ActionView::SetQuality(q), origin).quality == q,
        applied(s, ActionView::SetQuality(q), origin).mode == s.mode,
        applied(s, ActionView::SetQuality(q), origin).participants == s.participants,
        applied(s, ActionView::SetQuality(q), origin).shared_queue == s.shared_queue,
        applied(s, ActionView::SetMode(m), origin).mode == m,
        applied(s, ActionView::SetMode(m), origin).quality == s.quality,
        applied(s, ActionView::SetMode(m), origin).shared_queue == s.shared_queue,
        ({
            let after = applied(s, ActionView::QueueAdd(item), origin).shared_queue;
            &&& after.len() == s.shared_queue.len() + 1
            &&& after.last() == item
            &&& forall|k: int| 0 <= k < s.shared_queue.len() ==> #[trigger] after[k] == s.shared_queue[k]
        }),
{
}

/// A participant's own delay update sets that participant's delay and nothing else of the
/// room, and consuming the queue head that was expected removes exactly that head.
pub proof fn own_updates_take_effect(
    s: SessionView,
    origin: Seq<char>,
    i: int,
    manual: u16,
    auto: bool,
)
    requires
        0 <= i < s.participants.len(),
        s.participants[i].nickname == origin,
        forall|j: int| 0 <= j < i ==> (#[trigger] s.participants[j]).nickname != origin,
    ensures
        ({
            let after = applied(s, ActionView::DelayUpdate { manual_extra_delay_ms: manual, auto_ping_delay: auto }, origin);
            &&& after.participants.len() == s.participants.len()
            &&& after.participants[i].manual_extra_delay_ms == manual
            &&& after.participants[i].auto_ping_delay == auto
            &&& after.participants[i].nickname == origin
            &&& forall|j: int| 0 <= j < s.participants.len() && j != i ==> #[trigger] after.participants[j] == s.participants[j]
            &&& after.shared_queue == s.shared_queue
            &&& after.mode == s.mode
        }),
{
    assert(is_first_exact(s.participants, origin, i));
    let c = choose|x: int| is_first_exact(s.participants, origin, x);
    if c < i {
        assert(s.participants[c].nickname != origin);
    }
    if c > i {
        assert(s.participants[i].nickname != origin);
    }
}

/// Consuming the queue with the head's path expected (or none expected) removes the head and
/// keeps the rest in order; expecting another path leaves the queue as it was.
pub proof fn consuming_removes_the_expected_head(s: SessionView, origin: Seq<char>, expected: Option<Seq<char>>)
    requires
        s.mode != OnlineRoomMode::HostOnly || origin_is_host_spec(s.participants, origin),
        s.shared_queue.len() > 0,
    ensures
        ({
            let after = applied(s, ActionView::QueueConsume { expected_path: expected }, origin).shared_queue;
            &&& (expected is None || expected == Some(s.shared_queue[0].path)) ==> (after.len() + 1
                == s.shared_queue.len() && forall|k: int| 0 <= k < after.len() ==> #[trigger] after[k] == s.shared_queue[k + 1])
            &&& !(expected is None || expected == Some(s.shared_queue[0].path)) ==> after == s.shared_queue
        }),
{
}

/// The shared queue never grows past its limit.
pub proof fn shared_queue_stays_capped(s: SessionView, a: ActionView, origin: Seq<char>)
    requires
        s.shared_queue.len() <= crate::online::MAX_SHARED_QUEUE_ITEMS,
    ensures
        applied(s, a, origin).shared_queue.len() <= crate::online::MAX_SHARED_QUEUE_ITEMS,
{
    if allowed_spec(s, a, origin) {
        match a {
            ActionView::SetNickname { nickname } => {
                let t = trim(nickname);
                if !(t.len() == 0 || nickname_taken(s.participants, t, origin)) {
                    match first_named(s.participants, origin) {
                        Some(i) => {
                            let previous = s.participants[i].nickname;
                            assert(s.shared_queue.map_values(|q: QueueItemView| renamed_owner(q, previous, t)).len() == s.shared_queue.len());
                        },
                        None => {},
                    }
                }
            },
            _ => {},
        }
    }
}

/// No action adds or removes participants.
pub proof fn actions_keep_participant_count(s: SessionView, a: ActionView, origin: Seq<char>)
    ensures
        applied(s, a, origin).participants.len() == s.participants.len(),
{
}

/// Every transport command accepted gets the next sequence number and its sender's name,
/// so the last command always carries the highest number seen (until it saturates).
pub proof fn transport_sequence_advances(s: SessionView, e: EnvelopeView, origin: Seq<char>)
    requires
        allowed_spec(s, ActionView::Transport(e), origin),
    ensures
        applied(s, ActionView::Transport(e), origin).last_transport == Some(
            EnvelopeView { seq: next_transport_seq(s.last_transport), origin_nickname: origin, ..e },
        ),
        s.last_transport is Some && s.last_transport->0.seq < u64::MAX ==> next_transport_seq(s.last_transport) == s.last_transport->0.seq + 1,
{
}

/// Whether a participant named `origin_nickname` (ignoring ASCII case) is the host.
pub fn origin_is_host(session: &OnlineSession, origin_nickname: &str) -> (r: bool)
    ensures
        r == origin_is_host_spec(session@.participants, origin_nickname@),
{
    let ghost ps = session@.participants;
    let mut i: usize = 0;
    while i < session.participants.len()
        invariant
            i <= session.participants.len(),
            ps == session@.participants,
            forall|j: int|
                0 <= j < i ==> !((#[trigger] ps[j]).is_host && eq_ignore_case(
                    ps[j].nickname,
                    origin_nickname@,
                )),
        decreases session.participants.len() - i,
    {
        let p = &session.participants[i];
        assert(ps[i as int] == p@);
        if p.is_host && eq_ignore_ascii_case(p.nickname.as_str(), origin_nickname) {
            return true;
        }
        i += 1;
    }
    false
}

/// Whether `origin_nickname` may apply the action to the session.
pub fn action_allowed_for_origin(session: &OnlineSession, action: &LocalAction, origin_nickname: &str) -> (r: bool)
    ensures
        r == allowed_spec(session@, action@, origin_nickname@),
{
    if session.mode != OnlineRoomMode::HostOnly {
        return true;
    }
    if origin_is_host(session, origin_nickname) {
        return true;
    }
    match action {
        LocalAction::DelayUpdate { .. } => true,
        LocalAction::SetNickname { .. } => true,
        _ => false,
    }
}

proof fn lemma_first_named_unique(ps: Seq<ParticipantView>, name: Seq<char>, i: int, j: int)
    requires
        is_first_named(ps, name, i),
        is_first_named(ps, name, j),
    ensures
        i == j,
{
    if i < j {
        assert(!eq_ignore_case(ps[i].nickname, name));
    }
    if j < i {
        assert(!eq_ignore_case(ps[j].nickname, name));
    }
}

proof fn lemma_first_exact_unique(ps: Seq<ParticipantView>, name: Seq<char>, i: int, j: int)
    requires
        is_first_exact(ps, name, i),
        is_first_exact(ps, name, j),
    ensures
        i == j,
{
    if i < j {
        assert(ps[i].nickname != name);
    }
    if j < i {
        assert(ps[j].nickname != name);
    }
}

proof fn lemma_first_local_unique(ps: Seq<ParticipantView>, i: int, j: int)
    requires
        is_first_local(ps, i),
        is_first_local(ps, j),
    ensures
        i == j,
{
    if i < j {
        assert(!ps[i].is_local);
    }
    if j < i {
        assert(!ps[j].is_local);
    }
}

/// Position of the first participant named `name`, ignoring ASCII case.
fn first_named_index(session: &OnlineSession, name: &str) -> (r: Option<usize>)
    ensures
        match r {
            Some(i) => first_named(session@.participants, name@) == Some(i as int),
            None => first_named(session@.participants, name@) is None,
        },
        r matches Some(i) ==> is_first_named(session@.participants, name@, i as int),
{
    let ghost ps = session@.participants;
    let mut i: usize = 0;
    while i < session.participants.len()
        invariant
            i <= session.participants.len(),
            ps == session@.participants,
            forall|j: int| 0 <= j < i ==> !eq_ignore_case(#[trigger] ps[j].nickname, name@),
        decreases session.participants.len() - i,
    {
        assert(ps[i as int] == session.participants@[i as int]@);
        if eq_ignore_ascii_case(session.participants[i].nickname.as_str(), name) {
            assert(is_first_named(ps, name@, i as int));
            proof {
                let k = choose|k: int| is_first_named(ps, name@, k);
                lemma_first_named_unique(ps, name@, i as int, k);
            }
            return Some(i);
        }
        i += 1;
    }
    assert(!exists|k: int| is_first_named(ps, name@, k));
    None
}

/// The participant a delay update from `origin` is applied to.
fn delay_target_index(session: &OnlineSession, origin: &str) -> (r: Option<usize>)
    ensures
        match r {
            Some(i) => delay_target(session@.participants, origin@) == Some(i as int),
            None => delay_target(session@.participants, origin@) is None,
        },
        r matches Some(i) ==> i < session@.participants.len(),
{
    let ghost ps = session@.participants;
    let mut i: usize = 0;
    while i < session.participants.len()
        invariant
            i <= session.participants.len(),
            ps == session@.participants,
            forall|j: int| 0 <= j < i ==> (#[trigger] ps[j]).nickname != origin@,
        decreases session.participants.len() - i,
    {
        assert(ps[i as int] == session.participants@[i as int]@);
        if str_eq(session.participants[i].nickname.as_str(), origin) {
            assert(is_first_exact(ps, origin@, i as int));
            proof {
                let k = choose|k: int| is_first_exact(ps, origin@, k);
                lemma_first_exact_unique(ps, origin@, i as int, k);
            }
            return Some(i);
        }
        i += 1;
    }
    assert(!exists|k: int| is_first_exact(ps, origin@, k));
    let r = session.local_index();
    proof {
        match r {
            Some(i) => {
                let k = choose|k: int| is_first_local(ps, k);
                lemma_first_local_unique(ps, i as int, k);
            },
            None => {
                assert(!exists|k: int| is_first_local(ps, k));
            },
        }
    }
    r
}

/// Whether a participant other than `origin` already goes by `name` (ignoring ASCII case).
fn nickname_in_use(session: &OnlineSession, name: &str, origin: &str) -> (r: bool)
    ensures
        r == nickname_taken(session@.participants, name@, origin@),
{
    let ghost ps = session@.participants;
    let mut i: usize = 0;
    while i < session.participants.len()
        invariant
            i <= session.participants.len(),
            ps == session@.participants,
            forall|j: int|
                0 <= j < i ==> !(eq_ignore_case((#[trigger] ps[j]).nickname, name@)
                    && !eq_ignore_case(ps[j].nickname, origin@)),
        decreases session.participants.len() - i,
    {
        assert(ps[i as int] == session.participants@[i as int]@);
        let n = session.participants[i].nickname.as_str();
        if eq_ignore_ascii_case(n, name) && !eq_ignore_ascii_case(n, origin) {
            return true;
        }
        i += 1;
    }
    false
}

/// Renames the owner of every queue item owned by `previous` (ignoring ASCII case).
fn rename_queue_owners(queue: &mut Vec<SharedQueueItem>, previous: &str, name: &str)
    ensures
        queue_view(final(queue)@) == queue_view(old(queue)@).map_values(
            |q: QueueItemView| renamed_owner(q, previous@, name@),
        ),
{
    let ghost before = queue_view(queue@);
    let mut i: usize = 0;
    while i < queue.len()
        invariant
            i <= queue.len(),
            before.len() == queue.len(),
            forall|k: int|
                0 <= k < i ==> (#[trigger] queue_view(queue@)[k]) == renamed_owner(
                    before[k],
                    previous@,
                    name@,
                ),
            forall|k: int| i <= k < queue.len() ==> (#[trigger] queue_view(queue@)[k]) == before[k],
        decreases queue.len() - i,
    {
        let ghost prev = queue_view(queue@);
        assert(prev[i as int] == before[i as int]);
        let owned = match &queue[i].owner_nickname {
            Some(o) => eq_ignore_ascii_case(o.as_str(), previous),
            None => false,
        };
        if owned {
            queue[i].owner_nickname = Some(name.to_owned());
            assert(queue_view(queue@) =~= prev.update(
                i as int,
                renamed_owner(before[i as int], previous@, name@),
            ));
        } else {
            assert(renamed_owner(before[i as int], previous@, name@) == before[i as int]);
        }
        i += 1;
    }
    assert(queue_view(queue@) =~= before.map_values(
        |q: QueueItemView| renamed_owner(q, previous@, name@),
    ));
}

/// Applies `origin_nickname`'s action to the session, when the room's mode allows it.
pub fn apply_action_to_session(session: &mut OnlineSession, action: LocalAction, origin_nickname: &str)
    ensures
        final(session)@ == applied(old(session)@, action@, origin_nickname@),
{
    if !action_allowed_for_origin(session, &action, origin_nickname) {
        return ;
    }
    let ghost before = session@;
    let ghost av = action@;
    match action {
        LocalAction::SetMode(mode) => {
            session.mode = mode;
        },
        LocalAction::SetQuality(quality) => {
            session.quality = quality;
        },
        LocalAction::SetNickname { nickname } => {
            let t = trimmed(nickname.as_str());
            let name = string_from_chars(t.as_slice());
            if t.len() == 0 {
                return ;
            }
            if nickname_in_use(session, name.as_str(), origin_nickname) {
                return ;
            }
            match first_named_index(session, origin_nickname) {
                None => {},
                Some(i) => {
                    let previous = session.participants[i].nickname.clone();
                    session.participants[i].nickname = name.clone();
                    rename_queue_owners(&mut session.shared_queue, previous.as_str(), name.as_str());
                    let retag = match &session.last_transport {
                        Some(e) => eq_ignore_ascii_case(e.origin_nickname.as_str(), previous.as_str()),
                        None => false,
                    };
                    if retag {
                        match &mut session.last_transport {
                            Some(e) => {
                                e.origin_nickname = name.clone();
                            },
                            None => {},
                        }
                    }
                    assert(session@.participants =~= before.participants.update(
                        i as int,
                        ParticipantView { nickname: name@, ..before.participants[i as int] },
                    ));
                    assert(session@ == applied(before, av, origin_nickname@));
                },
            }
        },
        LocalAction::QueueAdd(item) => {
            let ghost iv = item@;
            session.shared_queue.push(item);
            assert(queue_view(session.shared_queue@) =~= before.shared_queue.push(iv));
            cap_shared_queue(&mut session.shared_queue);
        },
        LocalAction::QueueConsume { expected_path } => {
            let can_consume = if session.shared_queue.len() == 0 {
                false
            } else {
                match &expected_path {
                    None => true,
                    Some(expected) => session.shared_queue[0].path == *expected,
                }
            };
            if can_consume {
                session.shared_queue.remove(0);
                assert(queue_view(session.shared_queue@) =~= before.shared_queue.drop_first());
            }
        },
        LocalAction::DelayUpdate { manual_extra_delay_ms, auto_ping_delay } => {
            match delay_target_index(session, origin_nickname) {
                None => {},
                Some(i) => {
                    session.participants[i].manual_extra_delay_ms = manual_extra_delay_ms;
                    session.participants[i].auto_ping_delay = auto_ping_delay;
                    assert(session@.participants =~= before.participants.update(
                        i as int,
                        ParticipantView {
                            manual_extra_delay_ms,
                            auto_ping_delay,
                            ..before.participants[i as int]
                        },
                    ));
                    assert(session@ == applied(before, av, origin_nickname@));
                },
            }
        },
        LocalAction::Transport(envelope) => {
            let next_seq: u64 = match &session.last_transport {
                Some(e) => e.seq.saturating_add(1),
                None => 1,
            };
            session.last_transport = Some(
                TransportEnvelope {
                    seq: next_seq,
                    origin_nickname: origin_nickname.to_owned(),
                    command: envelope.command,
                },
            );
        },
    }
}

/// Smoothed round-trip time: the first sample as it is, later ones weighted one to three
/// against the previous value.
pub open spec fn smoothed_ping(previous: u16, sample: u16) -> u16 {
    if previous == 0 {
        sample
    } else {
        ((previous * 3 + sample) / 4) as u16
    }
}

pub fn smooth_ping(previous: u16, sample: u16) -> (r: u16)
    ensures
        r == smoothed_ping(previous, sample),
{
    if previous == 0 {
        sample
    } else {
        ((previous as u32 * 3 + sample as u32) / 4) as u16
    }
}

/// Whether two byte strings are equal, looking at every byte whatever the earlier ones were.
pub fn constant_time_eq(left: &[u8], right: &[u8]) -> (r: bool)
    ensures
        r == (left@ == right@),
{
    if left.len() != right.len() {
        return false;
    }
    let mut diff: u8 = 0;
    let mut i: usize = 0;
    while i < left.len()
        invariant
            left.len() == right.len(),
            i <= left.len(),
            (diff == 0) == (forall|k: int| 0 <= k < i ==> left@[k] == right@[k]),
        decreases left.len() - i,
    {
        let a = left[i];
        let b = right[i];
        let d = diff;
        assert((d | (a ^ b)) == 0 <==> (d == 0 && a == b)) by (bit_vector);
        diff = diff | (a ^ b);
        i += 1;
    }
    assert((diff == 0) ==> left@ =~= right@);
    diff == 0
}


// ---------------------------------------------------------------------------
// Participants joining and leaving
// ---------------------------------------------------------------------------

/// The participants left when the one named `name` (ignoring ASCII case) leaves.
pub open spec fn remaining(ps: Seq<ParticipantView>, name: Seq<char>) -> Seq<ParticipantView> {
    ps.filter(|p: ParticipantView| !eq_ignore_case(p.nickname, name))
}

/// A participant named `name` who was the host is among `ps`.
pub open spec fn host_named(ps: Seq<ParticipantView>, name: Seq<char>) -> bool {
    exists|i: int| 0 <= i < ps.len() && (#[trigger] ps[i]).is_host && eq_ignore_case(ps[i].nickname, name)
}

/// After the host leaves, the earliest remaining participant becomes the only host.
pub open spec fn with_single_host(ps: Seq<ParticipantView>) -> Seq<ParticipantView> {
    Seq::new(ps.len(), |i: int| ParticipantView { is_host: i == 0, ..ps[i] })
}

pub open spec fn departed(ps: Seq<ParticipantView>, name: Seq<char>) -> Seq<ParticipantView> {
    let kept = remaining(ps, name);
    if host_named(ps, name) && kept.len() > 0 {
        with_single_host(kept)
    } else {
        kept
    }
}

/// Whether someone was promoted to host by the departure.
pub open spec fn promotes(ps: Seq<ParticipantView>, name: Seq<char>) -> bool {
    let kept = remaining(ps, name);
    host_named(ps, name) && kept.len() > 0 && !kept[0].is_host
}

/// What a departure changed: whether the session changed, and who became the host.
pub struct Departure {
    pub changed: bool,
    pub new_host: Option<String>,
}

/// Removes every participant named `nickname` (ignoring ASCII case); when the host left,
/// the earliest remaining participant becomes the only host.
pub fn remove_departed_participant(session: &mut OnlineSession, nickname: &str) -> (r: Departure)
    ensures
        final(session)@.participants == departed(old(session)@.participants, nickname@),
        same_session_but_participants(final(session)@, old(session)@),
        r.changed == (remaining(old(session)@.participants, nickname@).len() != old(session)@.participants.len()
            || promotes(old(session)@.participants, nickname@)),
        match r.new_host {
            Some(n) => promotes(old(session)@.participants, nickname@) && n@ == remaining(
                old(session)@.participants,
                nickname@,
            )[0].nickname,
            None => !promotes(old(session)@.participants, nickname@),
        },
{
    let ghost before = session@;
    let ghost ps = before.participants;
    let ghost pred = |p: ParticipantView| !eq_ignore_case(p.nickname, nickname@);
    let mut kept: Vec<Participant> = Vec::new();
    let mut removed_host = false;
    let mut i: usize = 0;
    let n = session.participants.len();
    proof {
        assert(ps.take(0) =~= Seq::<ParticipantView>::empty());
        assert(Seq::<ParticipantView>::empty().filter(pred) =~= Seq::<ParticipantView>::empty()) by {
            reveal(Seq::filter);
        }
    }
    while i < n
        invariant
            n == session.participants.len(),
            i <= n,
            ps == session@.participants,
            before == session@,
            pred == (|p: ParticipantView| !eq_ignore_case(p.nickname, nickname@)),
            participants_view(kept@) == ps.take(i as int).filter(pred),
            removed_host == exists|j: int| 0 <= j < i && (#[trigger] ps[j]).is_host && eq_ignore_case(ps[j].nickname, nickname@),
        decreases n - i,
    {
        let p = &session.participants[i];
        assert(ps[i as int] == p@);
        proof {
            ps.take(i as int).lemma_filter_push(ps[i as int], pred);
            assert(ps.take(i + 1) =~= ps.take(i as int).push(ps[i as int]));
        }
        if eq_ignore_ascii_case(p.nickname.as_str(), nickname) {
            if p.is_host {
                removed_host = true;
            }
        } else {
            let ghost prev = participants_view(kept@);
            let c = p.copy();
            kept.push(c);
            assert(participants_view(kept@) =~= prev.push(ps[i as int]));
        }
        i += 1;
    }
    assert(ps.take(n as int) =~= ps);
    assert(removed_host == host_named(ps, nickname@));
    let mut promoted: Option<String> = None;
    if removed_host && kept.len() > 0 {
        let ghost kv = participants_view(kept@);
        if !kept[0].is_host {
            promoted = Some(kept[0].nickname.clone());
        }
        let mut j: usize = 0;
        while j < kept.len()
            invariant
                j <= kept.len(),
                kv.len() == kept@.len(),
                forall|k: int| 0 <= k < j ==> (#[trigger] participants_view(kept@)[k]) == (ParticipantView { is_host: k == 0, ..kv[k] }),
                forall|k: int| j <= k < kept@.len() ==> (#[trigger] participants_view(kept@)[k]) == kv[k],
            decreases kept.len() - j,
        {
            let ghost pv = participants_view(kept@);
            assert(pv[j as int] == kv[j as int]);
            kept[j].is_host = j == 0;
            assert(participants_view(kept@) =~= pv.update(j as int, ParticipantView { is_host: j == 0, ..kv[j as int] }));
            j += 1;
        }
        assert(participants_view(kept@) =~= with_single_host(kv));
    }
    let changed = kept.len() != n || promoted.is_some();
    session.participants = kept;
    Departure { changed, new_host: promoted }
}

/// Everything but the participants is as before.
pub open spec fn same_session_but_participants(a: SessionView, b: SessionView) -> bool {
    &&& a.room_code == b.room_code
    &&& a.mode == b.mode
    &&& a.quality == b.quality
    &&& a.shared_queue == b.shared_queue
    &&& a.last_sync_drift_ms == b.last_sync_drift_ms
    &&& a.last_transport == b.last_transport
}

/// How a peer is named in status messages: its nickname, or `peer-` and its number.
pub fn peer_display_name(nickname: Option<&str>, peer_id: u32) -> (r: String)
    ensures
        r@ == (match nickname {
            Some(n) => n@,
            None => "peer-"@ + decimal(peer_id as nat),
        }),
{
    match nickname {
        Some(n) => n.to_owned(),
        None => {
            let mut cs = chars_of("peer-");
            push_decimal(&mut cs, peer_id as u64);
            string_from_chars(cs.as_slice())
        },
    }
}

/// The session as the local user sees it after a sync: only the participant named like the
/// local user (ignoring ASCII case) is local, and becomes the host when this side hosts;
/// when there is none, the local user is added with a 30 ms ping.
pub open spec fn localized(ps: Seq<ParticipantView>, local: Seq<char>, host: bool) -> Seq<ParticipantView> {
    let cleared = Seq::new(ps.len(), |i: int| ParticipantView { is_local: false, ..ps[i] });
    match first_named(ps, local) {
        Some(i) => cleared.update(
            i,
            ParticipantView { is_local: true, is_host: if host { true } else { ps[i].is_host }, ..cleared[i] },
        ),
        None => cleared.push(
            ParticipantView {
                nickname: local,
                is_local: true,
                is_host: host,
                ping_ms: 30,
                manual_extra_delay_ms: 0,
                auto_ping_delay: true,
            },
        ),
    }
}

pub fn normalize_local_online_participant(session: &mut OnlineSession, local_nickname: &str, role: NetworkRole)
    ensures
        final(session)@.participants == localized(old(session)@.participants, local_nickname@, role == NetworkRole::Host),
        same_session_but_participants(final(session)@, old(session)@),
{
    let ghost ps = session@.participants;
    let found = first_named_index(session, local_nickname);
    let mut i: usize = 0;
    while i < session.participants.len()
        invariant
            i <= session.participants.len(),
            ps.len() == session@.participants.len(),
            same_session_but_participants(session@, old(session)@),
            ps == old(session)@.participants,
            forall|k: int| 0 <= k < i ==> (#[trigger] session@.participants[k]) == (ParticipantView { is_local: false, ..ps[k] }),
            forall|k: int| i <= k < ps.len() ==> (#[trigger] session@.participants[k]) == ps[k],
        decreases session.participants.len() - i,
    {
        let ghost pv = session@.participants;
        assert(pv[i as int] == ps[i as int]);
        session.participants[i].is_local = false;
        assert(session@.participants =~= pv.update(i as int, ParticipantView { is_local: false, ..ps[i as int] }));
        i += 1;
    }
    let ghost cleared = Seq::new(ps.len(), |k: int| ParticipantView { is_local: false, ..ps[k] });
    assert(session@.participants =~= cleared);
    match found {
        Some(k) => {
            session.participants[k].is_local = true;
            if role == NetworkRole::Host {
                session.participants[k].is_host = true;
            }
            assert(session@.participants =~= cleared.update(
                k as int,
                ParticipantView { is_local: true, is_host: if role == NetworkRole::Host { true } else { ps[k as int].is_host }, ..cleared[k as int] },
            ));
        },
        None => {
            session.participants.push(
                Participant {
                    nickname: local_nickname.to_owned(),
                    is_local: true,
                    is_host: role == NetworkRole::Host,
                    ping_ms: 30,
                    manual_extra_delay_ms: 0,
                    auto_ping_delay: true,
                },
            );
            assert(session@.participants =~= cleared.push(
                ParticipantView {
                    nickname: local_nickname@,
                    is_local: true,
                    is_host: role == NetworkRole::Host,
                    ping_ms: 30,
                    manual_extra_delay_ms: 0,
                    auto_ping_delay: true,
                },
            ));
        },
    }
}

// ---------------------------------------------------------------------------
// Stream cache file names
// ---------------------------------------------------------------------------

pub open spec fn cache_char(c: char) -> char {
    if is_ascii_alphanumeric(c) || c == '-' || c == '_' {
        c
    } else {
        '_'
    }
}

/// A name safe for the stream cache: ASCII letters, digits, `-` and `_` kept, any other
/// character replaced by `_`, and at most 64 characters.
pub open spec fn cache_name(s: Seq<char>) -> Seq<char> {
    let n = if s.len() < 64 { s.len() } else { 64 };
    Seq::new(n, |i: int| cache_char(s[i]))
}

pub fn sanitize_cache_name(input: &str) -> (out: String)
    ensures
        out@ == cache_name(input@),
{
    let cs = chars_of(input);
    let n = if cs.len() < 64 { cs.len() } else { 64 };
    let mut out: Vec<char> = Vec::new();
    let mut i: usize = 0;
    while i < n
        invariant
            n <= cs@.len(),
            n == (if input@.len() < 64 { input@.len() } else { 64 }),
            cs@ == input@,
            i <= n,
            out@.len() == i,
            forall|k: int| 0 <= k < i ==> (#[trigger] out@[k]) == cache_char(cs@[k]),
        decreases n - i,
    {
        let c = cs[i];
        if is_alnum(c) || c == '-' || c == '_' {
            out.push(c);
        } else {
            out.push('_');
        }
        i += 1;
    }
    assert(out@ =~= cache_name(input@));
    string_from_chars(out.as_slice())
}

#[derive(Debug, Clone, Copy, PartialEq, Eq, Structural)]
pub enum StreamPayloadFormat {
    OriginalFile,
    BalancedWavMono24k,
}

/// `{stem}_{micros}.{ext}`: the sanitized stem (or `track`), the time stamp, and the
/// sanitized extension (or `bin`) for an original file, `wav` for a balanced stream.
pub open spec fn cache_file_name(stem: Option<Seq<char>>, ext: Option<Seq<char>>, format: StreamPayloadFormat, micros: u64) -> Seq<char> {
    let s = match stem {
        Some(t) => if cache_name(t).len() > 0 { cache_name(t) } else { "track"@ },
        None => "track"@,
    };
    let e = match format {
        StreamPayloadFormat::BalancedWavMono24k => "wav"@,
        StreamPayloadFormat::OriginalFile => match ext {
            Some(t) => if cache_name(t).len() > 0 { cache_name(t) } else { "bin"@ },
            None => "bin"@,
        },
    };
    s + "_"@ + decimal(micros as nat) + "."@ + e
}

pub fn stream_cache_file_name(stem: Option<&str>, ext: Option<&str>, format: StreamPayloadFormat, micros: u64) -> (out: String)
    ensures
        out@ == cache_file_name(
            match stem {
                Some(t) => Some(t@),
                None => None,
            },
            match ext {
                Some(t) => Some(t@),
                None => None,
            },
            format,
            micros,
        ),
{
    let s = match stem {
        Some(t) => {
            let c = sanitize_cache_name(t);
            if c.as_str().unicode_len() > 0 { c } else { "track".to_owned() }
        },
        None => "track".to_owned(),
    };
    let e = match format {
        StreamPayloadFormat::BalancedWavMono24k => "wav".to_owned(),
        StreamPayloadFormat::OriginalFile => match ext {
            Some(t) => {
                let c = sanitize_cache_name(t);
                if c.as_str().unicode_len() > 0 { c } else { "bin".to_owned() }
            },
            None => "bin".to_owned(),
        },
    };
    let mut out = chars_of(s.as_str());
    extend_str(&mut out, "_");
    push_decimal(&mut out, micros);
    extend_str(&mut out, ".");
    extend_str(&mut out, e.as_str());
    string_from_chars(out.as_slice())
}

} // verus!
