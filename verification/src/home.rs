use crate::text::{
    chars_of, contains_chars, has_substring, lower_chars, lower_seq, string_from_chars, trim,
    trimmed, upper_chars, upper_seq,
};
use vstd::prelude::*;

verus! {

// ---------------------------------------------------------------------------
// The home server's room directory
// ---------------------------------------------------------------------------

pub const HOME_ROOM_MAX_CONNECTIONS_MIN: u16 = 2;

pub const HOME_ROOM_MAX_CONNECTIONS_MAX: u16 = 32;

/// How long a room may stay empty before the home server closes it, in milliseconds.
pub const HOME_ROOM_EMPTY_GRACE_MS: u64 = 3000;

/// A room as the directory lists it.
#[derive(Debug)]
pub struct HomeRoomDirectoryEntry {
    pub room_name: String,
    pub room_code: String,
    pub locked: bool,
    pub current_connections: u16,
    pub max_connections: u16,
}

pub struct EntryView {
    pub room_name: Seq<char>,
    pub room_code: Seq<char>,
    pub locked: bool,
    pub current_connections: u16,
    pub max_connections: u16,
}

impl View for HomeRoomDirectoryEntry {
    type V = EntryView;

    open spec fn view(&self) -> EntryView {
        EntryView {
            room_name: self.room_name@,
            room_code: self.room_code@,
            locked: self.locked,
            current_connections: self.current_connections,
            max_connections: self.max_connections,
        }
    }
}

impl HomeRoomDirectoryEntry {
    pub fn copy(&self) -> (r: Self)
        ensures
            r@ == self@,
    {
        HomeRoomDirectoryEntry {
            room_name: self.room_name.clone(),
            room_code: self.room_code.clone(),
            locked: self.locked,
            current_connections: self.current_connections,
            max_connections: self.max_connections,
        }
    }
}

/// A room found by name, with the address its host listens on.
#[derive(Debug)]
pub struct HomeRoomResolved {
    pub room_name: String,
    pub room_code: String,
    pub room_server_addr: String,
    pub locked: bool,
    pub current_connections: u16,
    pub max_connections: u16,
}

/// What the home server answers.
#[derive(Debug)]
pub enum HomeResponse {
    Accepted,
    Rooms { rooms: Vec<HomeRoomDirectoryEntry> },
    RoomResolved { room: HomeRoomResolved },
    Error { message: String },
}

#[derive(Debug)]
pub enum HomeError {
    /// The server answered with an error message.
    Server(String),
    /// The server answered with something else than the request calls for.
    UnexpectedResponse,
    RoomNameRequired,
    MaxConnectionsOutOfRange,
    RoomExists,
}

/// The room a resolve request gives, or the error the server sent.
pub fn resolve_from_response(response: HomeResponse) -> (r: Result<HomeRoomResolved, HomeError>)
    ensures
        match response {
            HomeResponse::RoomResolved { room } => r matches Ok(x) && x == room,
            HomeResponse::Error { message } => r matches Err(HomeError::Server(m)) && m == message,
            _ => r matches Err(HomeError::UnexpectedResponse),
        },
{
    match response {
        HomeResponse::RoomResolved { room } => Ok(room),
        HomeResponse::Error { message } => Err(HomeError::Server(message)),
        _ => Err(HomeError::UnexpectedResponse),
    }
}

/// Whether the server answered a verify request with `Ok`.
pub fn verify_response(response: HomeResponse) -> (r: Result<(), HomeError>)
    ensures
        match response {
            HomeResponse::Accepted => r is Ok,
            HomeResponse::Error { message } => r matches Err(HomeError::Server(m)) && m == message,
            _ => r matches Err(HomeError::UnexpectedResponse),
        },
{
    match response {
        HomeResponse::Accepted => Ok(()),
        HomeResponse::Error { message } => Err(HomeError::Server(message)),
        _ => Err(HomeError::UnexpectedResponse),
    }
}

/// The rooms a list request gives, or the error the server sent.
pub fn rooms_from_response(response: HomeResponse) -> (r: Result<Vec<HomeRoomDirectoryEntry>, HomeError>)
    ensures
        match response {
            HomeResponse::Rooms { rooms } => r matches Ok(x) && x == rooms,
            HomeResponse::Error { message } => r matches Err(HomeError::Server(m)) && m == message,
            _ => r matches Err(HomeError::UnexpectedResponse),
        },
{
    match response {
        HomeResponse::Rooms { rooms } => Ok(rooms),
        HomeResponse::Error { message } => Err(HomeError::Server(message)),
        _ => Err(HomeError::UnexpectedResponse),
    }
}

/// The key rooms are kept under: the trimmed name in ASCII lower case.
pub open spec fn room_key(name: Seq<char>) -> Seq<char> {
    lower_seq(trim(name))
}

pub fn room_lookup_key(room_name: &str) -> (r: String)
    ensures
        r@ == room_key(room_name@),
{
    let t = trimmed(room_name);
    let l = lower_chars(t.as_slice());
    string_from_chars(l.as_slice())
}

/// Whether a room with this name's key is among the keys.
fn key_taken(keys: &Vec<String>, key: &Vec<char>) -> (r: bool)
    ensures
        r == exists|i: int| 0 <= i < keys@.len() && (#[trigger] keys@[i])@ == key@,
{
    let mut i: usize = 0;
    while i < keys.len()
        invariant
            i <= keys.len(),
            forall|j: int| 0 <= j < i ==> (#[trigger] keys@[j])@ != key@,
        decreases keys.len() - i,
    {
        let k = chars_of(keys[i].as_str());
        if crate::text::chars_eq(k.as_slice(), key.as_slice()) {
            return true;
        }
        i += 1;
    }
    false
}

/// A request to create a room: the trimmed name must not be empty, the connection limit must
/// lie in `2..=32`, and no room may hold the name's key yet. On success the trimmed name.
pub open spec fn new_room_check(name: Seq<char>, max_connections: u16, keys: Seq<Seq<char>>) -> Result<Seq<char>, int> {
    if trim(name).len() == 0 {
        Err(0)
    } else if !(HOME_ROOM_MAX_CONNECTIONS_MIN <= max_connections <= HOME_ROOM_MAX_CONNECTIONS_MAX) {
        Err(1)
    } else if keys.contains(room_key(name)) {
        Err(2)
    } else {
        Ok(trim(name))
    }
}

pub fn validate_new_room(room_name: &str, max_connections: u16, existing_keys: &Vec<String>) -> (r: Result<String, HomeError>)
    ensures
        match r {
            Ok(n) => new_room_check(room_name@, max_connections, existing_keys@.map_values(|k: String| k@))
                == Ok::<Seq<char>, int>(n@),
            Err(HomeError::RoomNameRequired) => new_room_check(room_name@, max_connections, existing_keys@.map_values(|k: String| k@))
                == Err::<Seq<char>, int>(0),
            Err(HomeError::MaxConnectionsOutOfRange) => new_room_check(room_name@, max_connections, existing_keys@.map_values(|k: String| k@))
                == Err::<Seq<char>, int>(1),
            Err(HomeError::RoomExists) => new_room_check(room_name@, max_connections, existing_keys@.map_values(|k: String| k@))
                == Err::<Seq<char>, int>(2),
            Err(_) => false,
        },
{
    let ghost keys = existing_keys@.map_values(|k: String| k@);
    let t = trimmed(room_name);
    if t.len() == 0 {
        return Err(HomeError::RoomNameRequired);
    }
    if !(HOME_ROOM_MAX_CONNECTIONS_MIN <= max_connections && max_connections <= HOME_ROOM_MAX_CONNECTIONS_MAX) {
        return Err(HomeError::MaxConnectionsOutOfRange);
    }
    let key = lower_chars(t.as_slice());
    if key_taken(existing_keys, &key) {
        proof {
            let i = choose|i: int| 0 <= i < existing_keys@.len() && (#[trigger] existing_keys@[i])@ == key@;
            assert(keys[i] == room_key(room_name@));
        }
        return Err(HomeError::RoomExists);
    }
    proof {
        if keys.contains(room_key(room_name@)) {
            let i = choose|i: int| 0 <= i < keys.len() && keys[i] == room_key(room_name@);
            assert(existing_keys@[i]@ == key@);
        }
    }
    Ok(string_from_chars(t.as_slice()))
}

/// Whether an empty room is due to close, and since when it has been empty: a room with
/// connections is not empty; an empty one starts its grace period now unless it already
/// had, and closes once the period has run out.
pub open spec fn idle_step(current_connections: u16, empty_since_ms: Option<u64>, now_ms: u64) -> (Option<u64>, bool) {
    if current_connections > 0 {
        (None, false)
    } else {
        match empty_since_ms {
            None => (Some(now_ms), false),
            Some(since) => (Some(since), now_ms >= since && now_ms - since >= HOME_ROOM_EMPTY_GRACE_MS),
        }
    }
}

pub fn room_idle_update(current_connections: u16, empty_since_ms: Option<u64>, now_ms: u64) -> (r: (Option<u64>, bool))
    ensures
        r == idle_step(current_connections, empty_since_ms, now_ms),
{
    if current_connections > 0 {
        return (None, false);
    }
    match empty_since_ms {
        None => (Some(now_ms), false),
        Some(since) => (Some(since), now_ms >= since && now_ms - since >= HOME_ROOM_EMPTY_GRACE_MS),
    }
}

// ---------------------------------------------------------------------------
// Listing rooms
// ---------------------------------------------------------------------------

/// `a` comes strictly before `b` in character order.
pub open spec fn text_before(a: Seq<char>, b: Seq<char>) -> bool
    decreases a.len(),
{
    if a.len() == 0 {
        b.len() > 0
    } else if b.len() == 0 {
        false
    } else if a[0] != b[0] {
        a[0] < b[0]
    } else {
        text_before(a.drop_first(), b.drop_first())
    }
}

fn name_before(a: &[char], b: &[char]) -> (r: bool)
    ensures
        r == text_before(a@, b@),
{
    let mut i: usize = 0;
    assert(a@.skip(0) =~= a@);
    assert(b@.skip(0) =~= b@);
    while i < a.len() && i < b.len() && a[i] == b[i]
        invariant
            i <= a.len(),
            i <= b.len(),
            text_before(a@, b@) == text_before(a@.skip(i as int), b@.skip(i as int)),
        decreases a.len() - i,
    {
        assert(a@.skip(i as int).drop_first() =~= a@.skip(i + 1));
        assert(b@.skip(i as int).drop_first() =~= b@.skip(i + 1));
        i += 1;
    }
    if i == a.len() {
        i < b.len()
    } else if i == b.len() {
        false
    } else {
        a[i] < b[i]
    }
}

/// The entry matches a lower-case query when the query is empty or occurs in its lower-case
/// name.
pub open spec fn entry_matches(e: EntryView, query_lower: Seq<char>) -> bool {
    query_lower.len() == 0 || has_substring(lower_seq(e.room_name), query_lower)
}

pub open spec fn names_sorted(s: Seq<EntryView>) -> bool {
    forall|i: int, j: int| 0 <= i < j < s.len() ==> !text_before(#[trigger] s[j].room_name, #[trigger] s[i].room_name)
}

pub open spec fn entries_view(s: Seq<HomeRoomDirectoryEntry>) -> Seq<EntryView> {
    s.map_values(|e: HomeRoomDirectoryEntry| e@)
}

proof fn lemma_text_before_asym(a: Seq<char>, b: Seq<char>)
    ensures
        text_before(a, b) ==> !text_before(b, a),
        !text_before(a, b) && !text_before(b, a) ==> a == b,
    decreases a.len(),
{
    if a.len() > 0 && b.len() > 0 && a[0] == b[0] {
        lemma_text_before_asym(a.drop_first(), b.drop_first());
        if !text_before(a, b) && !text_before(b, a) {
            assert(a =~= seq![a[0]] + a.drop_first());
            assert(b =~= seq![b[0]] + b.drop_first());
        }
    }
    if a.len() == 0 && b.len() == 0 {
        assert(a =~= b);
    }
}

proof fn lemma_text_before_trans(a: Seq<char>, b: Seq<char>, c: Seq<char>)
    requires
        !text_before(b, a),
        !text_before(c, b),
    ensures
        !text_before(c, a),
    decreases a.len(),
{
    if a.len() > 0 && b.len() > 0 && c.len() > 0 && a[0] == b[0] && b[0] == c[0] {
        lemma_text_before_trans(a.drop_first(), b.drop_first(), c.drop_first());
    }
}

/// The rooms whose name contains the query (both in ASCII lower case), in name order.
pub fn directory_listing(rooms: &Vec<HomeRoomDirectoryEntry>, query: Option<&str>) -> (out: Vec<HomeRoomDirectoryEntry>)
    ensures
        names_sorted(entries_view(out@)),
        entries_view(out@).to_multiset() == entries_view(rooms@).filter(
            |e: EntryView| entry_matches(e, match query {
                Some(q) => lower_seq(q@),
                None => seq![],
            }),
        ).to_multiset(),
{
    let q: Vec<char> = match query {
        Some(s) => {
            let cs = chars_of(s);
            lower_chars(cs.as_slice())
        },
        None => Vec::new(),
    };
    let ghost ql = q@;
    let ghost src = entries_view(rooms@);
    let ghost pred = |e: EntryView| entry_matches(e, ql);
    let mut out: Vec<HomeRoomDirectoryEntry> = Vec::new();
    let mut i: usize = 0;
    proof {
        assert(src.take(0) =~= Seq::<EntryView>::empty());
        assert(Seq::<EntryView>::empty().filter(pred) =~= Seq::<EntryView>::empty()) by {
            reveal(Seq::filter);
        }
        assert(entries_view(out@) =~= Seq::<EntryView>::empty());
    }
    while i < rooms.len()
        invariant
            i <= rooms.len(),
            src == entries_view(rooms@),
            pred == (|e: EntryView| entry_matches(e, ql)),
            q@ == ql,
            names_sorted(entries_view(out@)),
            entries_view(out@).to_multiset() == src.take(i as int).filter(pred).to_multiset(),
        decreases rooms.len() - i,
    {
        let entry = &rooms[i];
        assert(src[i as int] == entry@);
        assert(src.take(i + 1).drop_last() =~= src.take(i as int));
        let name = chars_of(entry.room_name.as_str());
        let lname = lower_chars(name.as_slice());
        let keep = q.len() == 0 || contains_chars(lname.as_slice(), q.as_slice());
        proof {
            src.take(i as int).lemma_filter_push(src[i as int], pred);
            assert(src.take(i + 1) =~= src.take(i as int).push(src[i as int]));
        }
        if keep {
            let item = entry.copy();
            let ghost before = entries_view(out@);
            let mut p = out.len();
            while p > 0 && name_before(name.as_slice(), chars_of(out[p - 1].room_name.as_str()).as_slice())
                invariant
                    p <= out.len(),
                    before == entries_view(out@),
                    names_sorted(before),
                    item@.room_name == name@,
                    forall|k: int| p <= k < before.len() ==> text_before(name@, #[trigger] before[k].room_name),
                decreases p,
            {
                p -= 1;
            }
            proof {
                assert forall|k: int| 0 <= k < p implies !text_before(name@, #[trigger] before[k].room_name) by {
                    if p > 0 {
                        assert(!text_before(name@, before[p - 1].room_name));
                        if k < p - 1 {
                            lemma_text_before_asym(before[k].room_name, before[p - 1].room_name);
                            lemma_text_before_trans(before[k].room_name, before[p - 1].room_name, name@);
                        }
                    }
                }
            }
            let ghost iv = item@;
            out.insert(p, item);
            proof {
                let now = entries_view(out@);
                assert(now =~= before.take(p as int).push(iv) + before.skip(p as int));
                assert forall|a: int, b: int| 0 <= a < b < now.len() implies !text_before(#[trigger] now[b].room_name, #[trigger] now[a].room_name) by {
                    if a < p && b < p {
                        assert(now[a] == before[a] && now[b] == before[b]);
                    } else if a < p && b == p {
                        assert(now[a] == before[a]);
                        lemma_text_before_asym(before[a].room_name, name@);
                    } else if a < p && b > p {
                        assert(now[a] == before[a] && now[b] == before[b - 1]);
                    } else if a == p {
                        assert(now[b] == before[b - 1]);
                        lemma_text_before_asym(name@, before[b - 1].room_name);
                    } else {
                        assert(now[a] == before[a - 1] && now[b] == before[b - 1]);
                    }
                }
                assert(now =~= before.insert(p as int, iv));
                vstd::seq_lib::to_multiset_insert(before, p as int, iv);
                assert(src.take(i + 1).filter(pred) == src.take(i as int).filter(pred).push(iv));
                vstd::seq_lib::to_multiset_build(src.take(i as int).filter(pred), iv);
            }
        } else {
            assert(src.take(i + 1).filter(pred) == src.take(i as int).filter(pred));
        }
        i += 1;
    }
    assert(src.take(rooms.len() as int) =~= src);
    assert(pred =~= (|e: EntryView| entry_matches(e, match query {
        Some(q) => lower_seq(q@),
        None => seq![],
    })));
    out
}

// ---------------------------------------------------------------------------
// Answering requests
// ---------------------------------------------------------------------------

/// A request to the home server.
#[derive(Debug)]
pub enum HomeRequest {
    Verify,
    ListRooms { query: Option<String> },
    CreateRoom { room_name: String, owner_nickname: String, password: Option<String>, max_connections: u16 },
    ResolveRoom { room_name: String },
}

/// What the home server does with a request: answer at once; answer with the directory's
/// room at this position; or start hosting a new room (its name, code, password and
/// connection limit) and answer with it.
#[derive(Debug)]
pub enum HomeDecision {
    Respond(HomeResponse),
    ResolveAt(usize),
    StartRoom { room_name: String, room_code: String, password: Option<String>, max_connections: u16 },
}

/// The position of the first room whose key is `key`.
pub open spec fn room_position(rooms: Seq<EntryView>, key: Seq<char>) -> Option<int> {
    if exists|i: int| 0 <= i < rooms.len() && room_key((#[trigger] rooms[i]).room_name) == key {
        Some(choose|i: int| 0 <= i < rooms.len() && room_key((#[trigger] rooms[i]).room_name) == key
            && forall|j: int| 0 <= j < i ==> room_key((#[trigger] rooms[j]).room_name) != key)
    } else {
        None
    }
}

/// The password a new room keeps: the trimmed text, unless blank.
pub open spec fn kept_password(p: Option<Seq<char>>) -> Option<Seq<char>> {
    match p {
        Some(t) => if trim(t).len() > 0 {
            Some(trim(t))
        } else {
            None
        },
        None => None,
    }
}

pub open spec fn error_text(r: HomeResponse) -> Option<Seq<char>> {
    match r {
        HomeResponse::Error { message } => Some(message@),
        _ => None,
    }
}

fn error_response(message: &str) -> (r: HomeResponse)
    ensures
        error_text(r) == Some(message@),
{
    HomeResponse::Error { message: message.to_owned() }
}

fn first_room_with_key(rooms: &Vec<HomeRoomDirectoryEntry>, key: &Vec<char>) -> (r: Option<usize>)
    ensures
        match r {
            Some(i) => room_position(entries_view(rooms@), key@) == Some(i as int),
            None => room_position(entries_view(rooms@), key@) is None,
        },
{
    let ghost ev = entries_view(rooms@);
    let mut i: usize = 0;
    while i < rooms.len()
        invariant
            i <= rooms.len(),
            ev == entries_view(rooms@),
            forall|j: int| 0 <= j < i ==> room_key((#[trigger] ev[j]).room_name) != key@,
        decreases rooms.len() - i,
    {
        let k = room_lookup_key(rooms[i].room_name.as_str());
        let kc = chars_of(k.as_str());
        assert(ev[i as int] == rooms@[i as int]@);
        if crate::text::chars_eq(kc.as_slice(), key.as_slice()) {
            proof {
                let c = choose|c: int| 0 <= c < ev.len() && room_key((#[trigger] ev[c]).room_name) == key@
                    && forall|j: int| 0 <= j < c ==> room_key((#[trigger] ev[j]).room_name) != key@;
                if c < i {
                    assert(room_key(ev[c].room_name) != key@);
                }
                if c > i {
                    assert(room_key(ev[i as int].room_name) != key@);
                }
            }
            return Some(i);
        }
        i += 1;
    }
    None
}

fn password_to_keep(p: &Option<String>) -> (r: Option<String>)
    ensures
        match r {
            Some(t) => kept_password(match *p {
                Some(x) => Some(x@),
                None => None,
            }) == Some(t@),
            None => kept_password(match *p {
                Some(x) => Some(x@),
                None => None,
            }) is None,
        },
{
    match p {
        Some(x) => {
            let t = trimmed(x.as_str());
            if t.len() > 0 {
                Some(string_from_chars(t.as_slice()))
            } else {
                None
            }
        },
        None => None,
    }
}

/// What to do with a request, given the directory: a check answers at once; a listing
/// gives the rooms whose name contains the query, in name order; a name is resolved to the
/// first room with its key, or answered `room not found`; a new room is checked (a name,
/// a connection limit in `2..=32`, a free key) and hosted under its trimmed name, with the
/// name in ASCII upper case as its code and a password kept only when not blank.
pub fn home_request_decision(request: HomeRequest, rooms: &Vec<HomeRoomDirectoryEntry>) -> (d: HomeDecision)
    ensures
        match request {
            HomeRequest::Verify => d matches HomeDecision::Respond(HomeResponse::Accepted),
            HomeRequest::ListRooms { query } => d matches HomeDecision::Respond(HomeResponse::Rooms { rooms: listed }) && {
                &&& names_sorted(entries_view(listed@))
                &&& entries_view(listed@).to_multiset() == entries_view(rooms@).filter(
                    |e: EntryView| entry_matches(e, match query {
                        Some(q) => lower_seq(q@),
                        None => seq![],
                    }),
                ).to_multiset()
            },
            HomeRequest::ResolveRoom { room_name } => match room_position(entries_view(rooms@), room_key(room_name@)) {
                Some(i) => d == HomeDecision::ResolveAt(i as usize),
                None => d matches HomeDecision::Respond(r) && error_text(r) == Some("room not found"@),
            },
            HomeRequest::CreateRoom { room_name, owner_nickname, password, max_connections } => match new_room_check(
                room_name@,
                max_connections,
                entries_view(rooms@).map_values(|e: EntryView| room_key(e.room_name)),
            ) {
                Err(k) => d matches HomeDecision::Respond(r) && error_text(r) == Some(
                    if k == 0 {
                        "room name is required"@
                    } else if k == 1 {
                        "max connections must be 2..=32 "@
                    } else {
                        "room already exists"@
                    },
                ),
                Ok(name) => d matches HomeDecision::StartRoom { room_name: n, room_code: c, password: p, max_connections: m } && {
                    &&& n@ == name
                    &&& c@ == upper_seq(name)
                    &&& m == max_connections
                    &&& match p {
                        Some(t) => kept_password(match password {
                            Some(x) => Some(x@),
                            None => None,
                        }) == Some(t@),
                        None => kept_password(match password {
                            Some(x) => Some(x@),
                            None => None,
                        }) is None,
                    }
                },
            },
        },
{
    match request {
        HomeRequest::Verify => HomeDecision::Respond(HomeResponse::Accepted),
        HomeRequest::ListRooms { query } => {
            let qr: Option<&str> = match &query {
                Some(q) => Some(q.as_str()),
                None => None,
            };
            let listed = directory_listing(rooms, qr);
            proof {
                let f1 = |e: EntryView| entry_matches(e, match qr {
                    Some(q) => lower_seq(q@),
                    None => seq![],
                });
                let f2 = |e: EntryView| entry_matches(e, match query {
                    Some(q) => lower_seq(q@),
                    None => seq![],
                });
                assert(f1 =~= f2);
                assert(entries_view(rooms@).filter(f1) == entries_view(rooms@).filter(f2));
            }
            HomeDecision::Respond(HomeResponse::Rooms { rooms: listed })
        },
        HomeRequest::ResolveRoom { room_name } => {
            let key = room_lookup_key(room_name.as_str());
            let kc = chars_of(key.as_str());
            match first_room_with_key(rooms, &kc) {
                Some(i) => HomeDecision::ResolveAt(i),
                None => HomeDecision::Respond(error_response("room not found")),
            }
        },
        HomeRequest::CreateRoom { room_name, owner_nickname: _, password, max_connections } => {
            let mut keys: Vec<String> = Vec::new();
            let mut i: usize = 0;
            while i < rooms.len()
                invariant
                    i <= rooms.len(),
                    keys@.len() == i,
                    forall|j: int| 0 <= j < i ==> (#[trigger] keys@[j])@ == room_key(rooms@[j].room_name@),
                decreases rooms.len() - i,
            {
                keys.push(room_lookup_key(rooms[i].room_name.as_str()));
                i += 1;
            }
            assert(keys@.map_values(|k: String| k@) =~= entries_view(rooms@).map_values(|e: EntryView| room_key(e.room_name)));
            match validate_new_room(room_name.as_str(), max_connections, &keys) {
                Ok(name) => {
                    let nc = chars_of(name.as_str());
                    let up = upper_chars(nc.as_slice());
                    let code = string_from_chars(up.as_slice());
                    let kept = password_to_keep(&password);
                    HomeDecision::StartRoom { room_name: name, room_code: code, password: kept, max_connections }
                },
                Err(HomeError::RoomNameRequired) => HomeDecision::Respond(error_response("room name is required")),
                Err(HomeError::MaxConnectionsOutOfRange) => HomeDecision::Respond(
                    error_response("max connections must be 2..=32 "),
                ),
                Err(_) => HomeDecision::Respond(error_response("room already exists")),
            }
        },
    }
}

} // verus!
