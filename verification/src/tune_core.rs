use crate::browser::{BrowserEntry, BrowserEntryKind, HeaderSection};
use crate::config::{
    display_text, sanitize_display_chars, strip_verbatim_chars, without_verbatim_prefix,
};
use crate::model::{LegacyPlaybackMode, Theme, Track};
use crate::online::text_opt;
use crate::paths::{
    file_name, file_name_of, file_stem, is_audio_file, is_audio_path, paths_equal, path_within,
    same_path,
};
use crate::text::{chars_eq, chars_of, extend_chars, lower_chars, lower_seq, string_from_chars};
use crate::random::{shuffle_indices, small_rng_from_os};
use rand::rngs::SmallRng;
use vstd::prelude::*;

verus! {

// ---------------------------------------------------------------------------
// Views of the library's data
// ---------------------------------------------------------------------------

pub struct TrackView {
    pub path: Seq<char>,
    pub title: Seq<char>,
    pub artist: Option<Seq<char>>,
    pub album: Option<Seq<char>>,
}

impl View for Track {
    type V = TrackView;

    open spec fn view(&self) -> TrackView {
        TrackView {
            path: self.path@,
            title: self.title@,
            artist: text_opt(self.artist),
            album: text_opt(self.album),
        }
    }
}

pub struct EntryView {
    pub kind: BrowserEntryKind,
    pub path: Seq<char>,
    pub label: Seq<char>,
}

impl View for BrowserEntry {
    type V = EntryView;

    open spec fn view(&self) -> EntryView {
        EntryView { kind: self.kind, path: self.path@, label: self.label@ }
    }
}

/// A named playlist; its tracks are paths kept as text.
#[derive(Debug)]
pub struct NamedPlaylist {
    pub name: String,
    pub tracks: Vec<String>,
}

pub struct PlaylistView {
    pub name: Seq<char>,
    pub tracks: Seq<Seq<char>>,
}

pub open spec fn texts(v: Seq<String>) -> Seq<Seq<char>> {
    v.map_values(|s: String| s@)
}

impl View for NamedPlaylist {
    type V = PlaylistView;

    open spec fn view(&self) -> PlaylistView {
        PlaylistView { name: self.name@, tracks: texts(self.tracks@) }
    }
}

/// One item of a folder as the file system lists it.
#[derive(Debug)]
pub struct DirectoryItem {
    pub path: String,
    pub file_name: String,
    pub is_dir: bool,
}

pub struct ItemView {
    pub path: Seq<char>,
    pub file_name: Seq<char>,
    pub is_dir: bool,
}

impl View for DirectoryItem {
    type V = ItemView;

    open spec fn view(&self) -> ItemView {
        ItemView { path: self.path@, file_name: self.file_name@, is_dir: self.is_dir }
    }
}

pub open spec fn tracks_view(t: Seq<Track>) -> Seq<TrackView> {
    t.map_values(|x: Track| x@)
}

pub open spec fn entries_view(e: Seq<BrowserEntry>) -> Seq<EntryView> {
    e.map_values(|x: BrowserEntry| x@)
}

pub open spec fn playlists_view(p: Seq<NamedPlaylist>) -> Seq<PlaylistView> {
    p.map_values(|x: NamedPlaylist| x@)
}

pub open spec fn items_view(i: Seq<DirectoryItem>) -> Seq<ItemView> {
    i.map_values(|x: DirectoryItem| x@)
}

pub fn copy_strings(v: &Vec<String>) -> (r: Vec<String>)
    ensures
        texts(r@) == texts(v@),
{
    let mut out: Vec<String> = Vec::new();
    let mut i: usize = 0;
    while i < v.len()
        invariant
            i <= v.len(),
            texts(out@) == texts(v@).take(i as int),
        decreases v.len() - i,
    {
        let ghost before = out@;
        let c = v[i].clone();
        out.push(c);
        assert(out@ == before.push(v@[i as int]));
        assert(texts(out@) =~= texts(before).push(v@[i as int]@));
        i += 1;
        assert(texts(out@) =~= texts(v@).take(i as int));
    }
    assert(texts(v@).take(v.len() as int) =~= texts(v@));
    out
}

fn copy_opt(o: &Option<String>) -> (r: Option<String>)
    ensures
        text_opt(r) == text_opt(*o),
{
    match o {
        Some(s) => Some(s.clone()),
        None => None,
    }
}

impl Track {
    pub fn copy(&self) -> (r: Self)
        ensures
            r@ == self@,
    {
        Track {
            path: self.path.clone(),
            title: self.title.clone(),
            artist: copy_opt(&self.artist),
            album: copy_opt(&self.album),
        }
    }
}

impl BrowserEntry {
    pub fn copy(&self) -> (r: Self)
        ensures
            r@ == self@,
    {
        BrowserEntry { kind: self.kind, path: self.path.clone(), label: self.label.clone() }
    }
}

impl NamedPlaylist {
    pub fn copy(&self) -> (r: Self)
        ensures
            r@ == self@,
    {
        NamedPlaylist { name: self.name.clone(), tracks: copy_strings(&self.tracks) }
    }
}

// ---------------------------------------------------------------------------
// Ordering by text
// ---------------------------------------------------------------------------

/// Lexicographic order on characters (how `String`s compare: UTF-8 keeps the order of code
/// points).
pub open spec fn text_le(a: Seq<char>, b: Seq<char>) -> bool
    decreases a.len(),
{
    if a.len() == 0 {
        true
    } else if b.len() == 0 {
        false
    } else if a[0] != b[0] {
        (a[0] as u32) < (b[0] as u32)
    } else {
        text_le(a.skip(1), b.skip(1))
    }
}

fn text_le_exec(a: &[char], b: &[char]) -> (r: bool)
    ensures
        r == text_le(a@, b@),
{
    let mut i: usize = 0;
    assert(a@.skip(0) =~= a@);
    assert(b@.skip(0) =~= b@);
    while i < a.len()
        invariant
            i <= a.len(),
            i <= b.len(),
            text_le(a@, b@) == text_le(a@.skip(i as int), b@.skip(i as int)),
        decreases a.len() - i,
    {
        if i >= b.len() {
            return false;
        }
        assert(a@.skip(i as int)[0] == a@[i as int]);
        assert(b@.skip(i as int)[0] == b@[i as int]);
        if a[i] != b[i] {
            return (a[i] as u32) < (b[i] as u32);
        }
        assert(a@.skip(i as int).skip(1) =~= a@.skip(i + 1));
        assert(b@.skip(i as int).skip(1) =~= b@.skip(i + 1));
        i += 1;
    }
    true
}

/// `x` placed after every trailing index whose key does not come after its own.
pub open spec fn insert_index(keys: Seq<Seq<char>>, sorted: Seq<usize>, x: usize) -> Seq<usize>
    decreases sorted.len(),
{
    if sorted.len() == 0 {
        seq![x]
    } else if text_le(keys[sorted.last() as int], keys[x as int]) {
        sorted.push(x)
    } else {
        insert_index(keys, sorted.drop_last(), x).push(sorted.last())
    }
}

pub open spec fn stable_order_upto(keys: Seq<Seq<char>>, n: nat) -> Seq<usize>
    decreases n,
{
    if n == 0 {
        seq![]
    } else {
        insert_index(keys, stable_order_upto(keys, (n - 1) as nat), (n - 1) as usize)
    }
}

/// The positions `0..keys.len()` in the order a stable sort by key puts them (what
/// `sort_by_cached_key` yields).
pub open spec fn stable_order(keys: Seq<Seq<char>>) -> Seq<usize> {
    stable_order_upto(keys, keys.len())
}

proof fn lemma_insert_index_at(keys: Seq<Seq<char>>, sorted: Seq<usize>, x: usize, p: int)
    requires
        0 <= p <= sorted.len(),
        p == 0 || text_le(keys[sorted[p - 1] as int], keys[x as int]),
        forall|k: int| p <= k < sorted.len() ==> !text_le(keys[sorted[k] as int], keys[x as int]),
    ensures
        insert_index(keys, sorted, x) == sorted.take(p).push(x) + sorted.skip(p),
    decreases sorted.len(),
{
    if sorted.len() == 0 {
        assert(sorted.take(p).push(x) + sorted.skip(p) =~= seq![x]);
    } else if p == sorted.len() {
        assert(sorted.take(p) =~= sorted);
        assert(sorted.take(p).push(x) + sorted.skip(p) =~= sorted.push(x));
    } else {
        lemma_insert_index_at(keys, sorted.drop_last(), x, p);
        assert(sorted.drop_last().take(p) =~= sorted.take(p));
        assert((sorted.take(p).push(x) + sorted.drop_last().skip(p)).push(sorted.last())
            =~= sorted.take(p).push(x) + sorted.skip(p));
    }
}

proof fn lemma_insert_index_members(keys: Seq<Seq<char>>, sorted: Seq<usize>, x: usize)
    ensures
        insert_index(keys, sorted, x).len() == sorted.len() + 1,
        forall|k: int|
            0 <= k < sorted.len() + 1 ==> #[trigger] insert_index(keys, sorted, x)[k] == x
                || sorted.contains(insert_index(keys, sorted, x)[k]),
    decreases sorted.len(),
{
    if sorted.len() > 0 && !text_le(keys[sorted.last() as int], keys[x as int]) {
        lemma_insert_index_members(keys, sorted.drop_last(), x);
        let r = insert_index(keys, sorted, x);
        assert forall|k: int| 0 <= k < sorted.len() + 1 implies #[trigger] r[k] == x
            || sorted.contains(r[k]) by {
            if k < sorted.len() {
                let i = insert_index(keys, sorted.drop_last(), x);
                assert(r[k] == i[k]);
                if i[k] != x {
                    let j = choose|j: int| 0 <= j < sorted.drop_last().len() && sorted.drop_last()[j] == i[k];
                    assert(sorted[j] == r[k]);
                }
            } else {
                assert(r[k] == sorted.last());
                assert(sorted[sorted.len() - 1] == r[k]);
            }
        }
    } else if sorted.len() > 0 {
        let r = insert_index(keys, sorted, x);
        assert forall|k: int| 0 <= k < sorted.len() + 1 implies #[trigger] r[k] == x
            || sorted.contains(r[k]) by {
            if k < sorted.len() {
                assert(sorted[k] == r[k]);
            }
        }
    }
}

/// Every position in the stable order is below `n`, and there are `n` of them.
pub proof fn lemma_stable_order_bounds(keys: Seq<Seq<char>>, n: nat)
    ensures
        stable_order_upto(keys, n).len() == n,
        forall|k: int| 0 <= k < n ==> (#[trigger] stable_order_upto(keys, n)[k] as nat) < n,
    decreases n,
{
    if n > 0 {
        let prev = stable_order_upto(keys, (n - 1) as nat);
        lemma_stable_order_bounds(keys, (n - 1) as nat);
        lemma_insert_index_members(keys, prev, (n - 1) as usize);
        let r = stable_order_upto(keys, n);
        assert forall|k: int| 0 <= k < n implies (#[trigger] r[k] as nat) < n by {
            if r[k] != (n - 1) as usize {
                let j = choose|j: int| 0 <= j < prev.len() && prev[j] == r[k];
                assert(prev[j] < n - 1);
            }
        }
    }
}

/// The positions `0..keys.len()` in stable order by key.
pub fn stable_order_exec(keys: &Vec<Vec<char>>) -> (r: Vec<usize>)
    ensures
        r@ == stable_order(keys@.map_values(|k: Vec<char>| k@)),
{
    let ghost kv = keys@.map_values(|k: Vec<char>| k@);
    let mut out: Vec<usize> = Vec::new();
    let mut i: usize = 0;
    while i < keys.len()
        invariant
            i <= keys.len(),
            kv == keys@.map_values(|k: Vec<char>| k@),
            out@ == stable_order_upto(kv, i as nat),
        decreases keys.len() - i,
    {
        proof {
            lemma_stable_order_bounds(kv, i as nat);
        }
        let mut p = out.len();
        while p > 0 && !text_le_exec(keys[out[p - 1]].as_slice(), keys[i].as_slice())
            invariant
                p <= out.len(),
                i < keys.len(),
                out@ == stable_order_upto(kv, i as nat),
                out@.len() == i,
                forall|k: int| 0 <= k < i ==> (#[trigger] out@[k] as nat) < i,
                kv == keys@.map_values(|k: Vec<char>| k@),
                forall|k: int| p <= k < out.len() ==> !text_le(kv[out@[k] as int], kv[i as int]),
            decreases p,
        {
            p -= 1;
        }
        proof {
            lemma_insert_index_at(kv, out@, i, p as int);
        }
        let ghost before = out@;
        out.insert(p, i);
        assert(out@ =~= before.take(p as int).push(i) + before.skip(p as int));
        i += 1;
    }
    assert(kv.len() == keys.len());
    out
}

// ---------------------------------------------------------------------------
// Finding tracks and naming them
// ---------------------------------------------------------------------------

pub open spec fn key_match(t: Seq<TrackView>, p: Seq<char>, i: int) -> bool {
    without_verbatim_prefix(t[i].path) == without_verbatim_prefix(p)
}

pub open spec fn is_last_key_match(t: Seq<TrackView>, p: Seq<char>, i: int) -> bool {
    &&& 0 <= i < t.len()
    &&& key_match(t, p, i)
    &&& forall|j: int| i < j < t.len() ==> !key_match(t, p, j)
}

pub open spec fn is_first_same(t: Seq<TrackView>, p: Seq<char>, i: int) -> bool {
    &&& 0 <= i < t.len()
    &&& same_path(t[i].path, p)
    &&& forall|j: int| 0 <= j < i ==> !same_path(t[j].path, p)
}

/// Where a path stands among the tracks: the last track whose path reads the same once a
/// verbatim prefix is dropped (the lookup table keeps the last one), else the first whose
/// path has the same components.
pub open spec fn track_index(t: Seq<TrackView>, p: Seq<char>) -> Option<int> {
    if exists|i: int| is_last_key_match(t, p, i) {
        Some(choose|i: int| is_last_key_match(t, p, i))
    } else if exists|i: int| is_first_same(t, p, i) {
        Some(choose|i: int| is_first_same(t, p, i))
    } else {
        None
    }
}

pub fn track_index_of(tracks: &Vec<Track>, p: &[char]) -> (r: Option<usize>)
    ensures
        match r {
            Some(i) => track_index(tracks_view(tracks@), p@) == Some(i as int) && i < tracks.len(),
            None => track_index(tracks_view(tracks@), p@) is None,
        },
{
    let ghost t = tracks_view(tracks@);
    let key = strip_verbatim_chars(p);
    let mut i = tracks.len();
    while i > 0
        invariant
            i <= tracks.len(),
            t == tracks_view(tracks@),
            key@ == without_verbatim_prefix(p@),
            forall|j: int| i <= j < t.len() ==> !key_match(t, p@, j),
        decreases i,
    {
        let cs = chars_of(tracks[i - 1].path.as_str());
        let k = strip_verbatim_chars(cs.as_slice());
        if chars_eq(k.as_slice(), key.as_slice()) {
            assert(is_last_key_match(t, p@, i - 1));
            proof {
                let c = choose|c: int| is_last_key_match(t, p@, c);
                if c < i - 1 {
                    assert(!key_match(t, p@, i - 1));
                }
                if c > i - 1 {
                    assert(!key_match(t, p@, c));
                }
            }
            return Some(i - 1);
        }
        i -= 1;
    }
    assert(!exists|c: int| is_last_key_match(t, p@, c));
    let mut j: usize = 0;
    while j < tracks.len()
        invariant
            j <= tracks.len(),
            t == tracks_view(tracks@),
            !exists|c: int| is_last_key_match(t, p@, c),
            forall|k: int| 0 <= k < j ==> !same_path(t[k].path, p@),
        decreases tracks.len() - j,
    {
        let cs = chars_of(tracks[j].path.as_str());
        if paths_equal(cs.as_slice(), p) {
            assert(is_first_same(t, p@, j as int));
            proof {
                let c = choose|c: int| is_first_same(t, p@, c);
                if c < j {
                    assert(!same_path(t[c].path, p@));
                }
                if c > j {
                    assert(!same_path(t[j as int].path, p@));
                }
            }
            return Some(j);
        }
        j += 1;
    }
    None
}

/// What a path is shown as: the title of its track, else its file name, else the path.
pub open spec fn track_label(t: Seq<TrackView>, p: Seq<char>) -> Seq<char> {
    match track_index(t, p) {
        Some(i) => display_text(t[i].title),
        None => match file_name(p) {
            Some(n) => display_text(n),
            None => p,
        },
    }
}

pub fn track_label_of(tracks: &Vec<Track>, p: &[char]) -> (r: Vec<char>)
    ensures
        r@ == track_label(tracks_view(tracks@), p@),
{
    match track_index_of(tracks, p) {
        Some(i) => {
            let cs = chars_of(tracks[i].title.as_str());
            sanitize_display_chars(cs.as_slice())
        },
        None => match file_name_of(p) {
            Some(n) => sanitize_display_chars(n.as_slice()),
            None => crate::text::sub_chars(p, 0, p.len()),
        },
    }
}

// ---------------------------------------------------------------------------
// The rows of the browser
// ---------------------------------------------------------------------------

pub open spec fn back_entry(path: Seq<char>) -> EntryView {
    EntryView { kind: BrowserEntryKind::Back, path, label: "[..] Back"@ }
}

pub open spec fn all_songs_entry() -> EntryView {
    EntryView { kind: BrowserEntryKind::AllSongs, path: seq![], label: "[ALL] All Songs"@ }
}

/// The row for a track path: the path without a verbatim prefix, labelled as a track.
pub open spec fn path_entry(t: Seq<TrackView>, p: Seq<char>) -> EntryView {
    EntryView {
        kind: BrowserEntryKind::Track,
        path: without_verbatim_prefix(p),
        label: track_label(t, without_verbatim_prefix(p)),
    }
}

pub open spec fn library_entry(t: Seq<TrackView>, i: usize) -> EntryView {
    EntryView { kind: BrowserEntryKind::Track, path: t[i as int].path, label: display_text(t[i as int].title) }
}

pub open spec fn folder_root_label(f: Seq<char>) -> Seq<char> {
    match file_name(without_verbatim_prefix(f)) {
        Some(n) => display_text(n),
        None => without_verbatim_prefix(f),
    }
}

pub open spec fn folder_root_entry(f: Seq<char>) -> EntryView {
    EntryView {
        kind: BrowserEntryKind::Folder,
        path: without_verbatim_prefix(f),
        label: "[DIR] "@ + folder_root_label(f),
    }
}

pub open spec fn playlist_root_entry(p: PlaylistView) -> EntryView {
    EntryView { kind: BrowserEntryKind::Playlist, path: p.name, label: "[PL] "@ + display_text(p.name) }
}

/// The sub-folders of a listing, in listing order.
pub open spec fn dir_entries(items: Seq<ItemView>) -> Seq<EntryView>
    decreases items.len(),
{
    if items.len() == 0 {
        seq![]
    } else {
        let prev = dir_entries(items.drop_last());
        let it = items.last();
        if it.is_dir {
            prev.push(
                EntryView {
                    kind: BrowserEntryKind::Folder,
                    path: without_verbatim_prefix(it.path),
                    label: "[DIR] "@ + display_text(it.file_name),
                },
            )
        } else {
            prev
        }
    }
}

/// The audio files of a listing, in listing order.
pub open spec fn file_entries(t: Seq<TrackView>, items: Seq<ItemView>) -> Seq<EntryView>
    decreases items.len(),
{
    if items.len() == 0 {
        seq![]
    } else {
        let prev = file_entries(t, items.drop_last());
        let it = items.last();
        if !it.is_dir && is_audio_path(without_verbatim_prefix(it.path)) {
            prev.push(path_entry(t, it.path))
        } else {
            prev
        }
    }
}

pub open spec fn label_keys(e: Seq<EntryView>) -> Seq<Seq<char>> {
    e.map_values(|x: EntryView| lower_seq(x.label))
}

/// Rows in stable order of their labels, ASCII case ignored.
pub open spec fn sorted_entries(e: Seq<EntryView>) -> Seq<EntryView> {
    stable_order(label_keys(e)).map_values(|i: usize| e[i as int])
}

pub open spec fn title_keys(t: Seq<TrackView>) -> Seq<Seq<char>> {
    t.map_values(|x: TrackView| lower_seq(x.title))
}

/// The library's track positions in stable order of their titles, ASCII case ignored.
pub open spec fn title_order(t: Seq<TrackView>) -> Seq<usize> {
    stable_order(title_keys(t))
}

pub open spec fn playlist_position(p: Seq<PlaylistView>, name: Seq<char>) -> Option<int> {
    if exists|i: int| 0 <= i < p.len() && p[i].name == name && forall|j: int| 0 <= j < i ==> p[j].name != name {
        Some(choose|i: int| 0 <= i < p.len() && p[i].name == name && forall|j: int| 0 <= j < i ==> p[j].name != name)
    } else {
        None
    }
}

fn playlist_position_of(playlists: &Vec<NamedPlaylist>, name: &str) -> (r: Option<usize>)
    ensures
        match r {
            Some(i) => playlist_position(playlists_view(playlists@), name@) == Some(i as int) && i < playlists.len(),
            None => playlist_position(playlists_view(playlists@), name@) is None,
        },
{
    let ghost pv = playlists_view(playlists@);
    let mut i: usize = 0;
    while i < playlists.len()
        invariant
            i <= playlists.len(),
            pv == playlists_view(playlists@),
            forall|j: int| 0 <= j < i ==> pv[j].name != name@,
        decreases playlists.len() - i,
    {
        assert(pv[i as int] == playlists@[i as int]@);
        if crate::text::str_eq(playlists[i].name.as_str(), name) {
            assert(pv[i as int].name == name@);
            assert(0 <= i < pv.len() && pv[i as int].name == name@ && forall|j: int| 0 <= j < i ==> pv[j].name != name@);
            proof {
                let c = choose|c: int| 0 <= c < pv.len() && pv[c].name == name@ && forall|j: int| 0 <= j < c ==> pv[j].name != name@;
                if c < i {
                    assert(pv[c].name != name@);
                }
                if c > i {
                    assert(pv[i as int].name != name@);
                }
            }
            return Some(i);
        }
        i += 1;
    }
    None
}

pub struct CoreView {
    pub folders: Seq<Seq<char>>,
    pub tracks: Seq<TrackView>,
    pub playlists: Seq<PlaylistView>,
    pub queue: Seq<usize>,
    pub selected_track: usize,
    pub current_queue_index: Option<usize>,
    pub playback_mode: LegacyPlaybackMode,
    pub loudness_normalization: bool,
    pub crossfade_seconds: u16,
    pub scrub_seconds: u16,
    pub theme: Theme,
    pub stats_enabled: bool,
    pub header_section: HeaderSection,
    pub browser_path: Option<Seq<char>>,
    pub browser_playlist: Option<Seq<char>>,
    pub browser_all_songs: bool,
    pub browser_entries: Seq<EntryView>,
    pub selected_browser: usize,
    pub listing_path: Option<Seq<char>>,
    pub folder_listing: Seq<ItemView>,
    pub dirty: bool,
    pub status: Seq<char>,
    pub shuffle_order: Seq<usize>,
    pub shuffle_cursor: usize,
}

/// The items listed for the folder being browsed, when the listing is of that folder.
pub open spec fn listed_items(v: CoreView, current: Seq<char>) -> Seq<ItemView> {
    if v.listing_path == Some(current) {
        v.folder_listing
    } else {
        seq![]
    }
}

pub open spec fn root_entries(v: CoreView) -> Seq<EntryView> {
    sorted_entries(
        v.folders.map_values(|f: Seq<char>| folder_root_entry(f)).push(all_songs_entry())
            + v.playlists.map_values(|p: PlaylistView| playlist_root_entry(p)),
    )
}

pub open spec fn folder_view_entries(v: CoreView, current: Seq<char>) -> Seq<EntryView> {
    seq![back_entry(without_verbatim_prefix(current))] + sorted_entries(
        dir_entries(listed_items(v, current)),
    ) + sorted_entries(file_entries(v.tracks, listed_items(v, current)))
}

pub open spec fn playlist_view_entries(v: CoreView, name: Seq<char>) -> Seq<EntryView> {
    seq![back_entry(seq![])] + match playlist_position(v.playlists, name) {
        Some(i) => v.playlists[i].tracks.map_values(|p: Seq<char>| path_entry(v.tracks, p)),
        None => seq![],
    }
}

/// The rows the browser shows: an open playlist's tracks, all songs by title, the audio
/// files and sub-folders of an open folder, or at the top the added folders, the all-songs
/// row and the playlists, sorted by label.
pub open spec fn view_entries(v: CoreView) -> Seq<EntryView> {
    match v.browser_playlist {
        Some(name) => playlist_view_entries(v, name),
        None => if v.browser_all_songs {
            seq![back_entry(seq![])] + title_order(v.tracks).map_values(|i: usize| library_entry(v.tracks, i))
        } else {
            match v.browser_path {
                Some(current) => folder_view_entries(v, current),
                None => root_entries(v),
            }
        },
    }
}

pub open spec fn clamp_selection(sel: usize, len: nat) -> usize {
    if len == 0 {
        0
    } else if sel < len {
        sel
    } else {
        (len - 1) as usize
    }
}

/// The state once the rows are rebuilt and the selection kept on a row.
pub open spec fn refreshed(v: CoreView) -> CoreView {
    CoreView {
        browser_entries: view_entries(v),
        selected_browser: clamp_selection(v.selected_browser, view_entries(v).len()),
        dirty: true,
        ..v
    }
}

fn row(kind: BrowserEntryKind, path: &[char], label: &[char]) -> (r: BrowserEntry)
    ensures
        r@ == (EntryView { kind, path: path@, label: label@ }),
{
    BrowserEntry { kind, path: string_from_chars(path), label: string_from_chars(label) }
}

fn back_row(path: &[char]) -> (r: BrowserEntry)
    ensures
        r@ == back_entry(path@),
{
    let label = chars_of("[..] Back");
    row(BrowserEntryKind::Back, path, label.as_slice())
}

fn path_row(tracks: &Vec<Track>, p: &str) -> (r: BrowserEntry)
    ensures
        r@ == path_entry(tracks_view(tracks@), p@),
{
    let cs = chars_of(p);
    let n = strip_verbatim_chars(cs.as_slice());
    let label = track_label_of(tracks, n.as_slice());
    row(BrowserEntryKind::Track, n.as_slice(), label.as_slice())
}

fn playlist_rows(tracks: &Vec<Track>, paths: &Vec<String>) -> (r: Vec<BrowserEntry>)
    ensures
        entries_view(r@) == texts(paths@).map_values(|p: Seq<char>| path_entry(tracks_view(tracks@), p)),
{
    let ghost t = tracks_view(tracks@);
    let ghost want = texts(paths@).map_values(|p: Seq<char>| path_entry(t, p));
    let mut out: Vec<BrowserEntry> = Vec::new();
    let mut i: usize = 0;
    while i < paths.len()
        invariant
            i <= paths.len(),
            t == tracks_view(tracks@),
            want == texts(paths@).map_values(|p: Seq<char>| path_entry(t, p)),
            entries_view(out@) == want.take(i as int),
        decreases paths.len() - i,
    {
        let e = path_row(tracks, paths[i].as_str());
        let ghost before = out@;
        out.push(e);
        assert(entries_view(out@) =~= entries_view(before).push(e@));
        i += 1;
        assert(entries_view(out@) =~= want.take(i as int));
    }
    assert(want.take(paths.len() as int) =~= want);
    out
}

fn title_order_of(tracks: &Vec<Track>) -> (r: Vec<usize>)
    ensures
        r@ == title_order(tracks_view(tracks@)),
        r@.len() == tracks.len(),
        forall|k: int| 0 <= k < r@.len() ==> (#[trigger] r@[k] as int) < tracks.len(),
{
    let ghost t = tracks_view(tracks@);
    let mut keys: Vec<Vec<char>> = Vec::new();
    let mut i: usize = 0;
    while i < tracks.len()
        invariant
            i <= tracks.len(),
            t == tracks_view(tracks@),
            keys@.map_values(|k: Vec<char>| k@) == title_keys(t).take(i as int),
        decreases tracks.len() - i,
    {
        let cs = chars_of(tracks[i].title.as_str());
        let k = lower_chars(cs.as_slice());
        let ghost before = keys@;
        assert(t[i as int].title == tracks@[i as int].title@);
        keys.push(k);
        assert(keys@.map_values(|k: Vec<char>| k@) =~= before.map_values(|k: Vec<char>| k@).push(k@));
        assert(title_keys(t).take(i + 1) =~= title_keys(t).take(i as int).push(lower_seq(t[i as int].title)));
        i += 1;
    }
    assert(title_keys(t).take(tracks.len() as int) =~= title_keys(t));
    let r = stable_order_exec(&keys);
    proof {
        lemma_stable_order_bounds(title_keys(t), tracks.len() as nat);
    }
    r
}

fn library_rows(tracks: &Vec<Track>) -> (r: Vec<BrowserEntry>)
    ensures
        entries_view(r@) == title_order(tracks_view(tracks@)).map_values(
            |i: usize| library_entry(tracks_view(tracks@), i),
        ),
{
    let ghost t = tracks_view(tracks@);
    let order = title_order_of(tracks);
    let ghost want = order@.map_values(|i: usize| library_entry(t, i));
    let mut out: Vec<BrowserEntry> = Vec::new();
    let mut k: usize = 0;
    while k < order.len()
        invariant
            k <= order.len(),
            t == tracks_view(tracks@),
            order@.len() == tracks.len(),
            forall|j: int| 0 <= j < order@.len() ==> (#[trigger] order@[j] as int) < tracks.len(),
            want == order@.map_values(|i: usize| library_entry(t, i)),
            entries_view(out@) == want.take(k as int),
        decreases order.len() - k,
    {
        let idx = order[k];
        assert((order@[k as int] as int) < tracks.len());
        let path = chars_of(tracks[idx].path.as_str());
        let title = chars_of(tracks[idx].title.as_str());
        let label = sanitize_display_chars(title.as_slice());
        let e = row(BrowserEntryKind::Track, path.as_slice(), label.as_slice());
        assert(e@ == library_entry(t, idx));
        let ghost before = out@;
        out.push(e);
        assert(entries_view(out@) =~= entries_view(before).push(e@));
        k += 1;
        assert(entries_view(out@) =~= want.take(k as int));
    }
    assert(want.take(order.len() as int) =~= want);
    out
}

fn dir_rows(items: &Vec<DirectoryItem>) -> (r: Vec<BrowserEntry>)
    ensures
        entries_view(r@) == dir_entries(items_view(items@)),
{
    let ghost iv = items_view(items@);
    let mut out: Vec<BrowserEntry> = Vec::new();
    let mut i: usize = 0;
    while i < items.len()
        invariant
            i <= items.len(),
            iv == items_view(items@),
            entries_view(out@) == dir_entries(iv.take(i as int)),
        decreases items.len() - i,
    {
        assert(iv.take(i + 1).drop_last() =~= iv.take(i as int));
        assert(iv.take(i + 1).last() == items@[i as int]@);
        if items[i].is_dir {
            let cs = chars_of(items[i].path.as_str());
            let path = strip_verbatim_chars(cs.as_slice());
            let name_cs = chars_of(items[i].file_name.as_str());
            let name = sanitize_display_chars(name_cs.as_slice());
            let mut label = chars_of("[DIR] ");
            extend_chars(&mut label, name.as_slice());
            let e = row(BrowserEntryKind::Folder, path.as_slice(), label.as_slice());
            let ghost before = out@;
            out.push(e);
            assert(entries_view(out@) =~= entries_view(before).push(e@));
        }
        i += 1;
    }
    assert(iv.take(items.len() as int) =~= iv);
    out
}

fn file_rows(tracks: &Vec<Track>, items: &Vec<DirectoryItem>) -> (r: Vec<BrowserEntry>)
    ensures
        entries_view(r@) == file_entries(tracks_view(tracks@), items_view(items@)),
{
    let ghost iv = items_view(items@);
    let ghost t = tracks_view(tracks@);
    let mut out: Vec<BrowserEntry> = Vec::new();
    let mut i: usize = 0;
    while i < items.len()
        invariant
            i <= items.len(),
            iv == items_view(items@),
            t == tracks_view(tracks@),
            entries_view(out@) == file_entries(t, iv.take(i as int)),
        decreases items.len() - i,
    {
        assert(iv.take(i + 1).drop_last() =~= iv.take(i as int));
        assert(iv.take(i + 1).last() == items@[i as int]@);
        if !items[i].is_dir {
            let cs = chars_of(items[i].path.as_str());
            let path = strip_verbatim_chars(cs.as_slice());
            if is_audio_file(path.as_slice()) {
                let e = path_row(tracks, items[i].path.as_str());
                let ghost before = out@;
                out.push(e);
                assert(entries_view(out@) =~= entries_view(before).push(e@));
            }
        }
        i += 1;
    }
    assert(iv.take(items.len() as int) =~= iv);
    out
}

/// Rows in stable order of their labels, ASCII case ignored.
fn sort_rows(rows: &Vec<BrowserEntry>) -> (r: Vec<BrowserEntry>)
    ensures
        entries_view(r@) == sorted_entries(entries_view(rows@)),
{
    let ghost ev = entries_view(rows@);
    let mut keys: Vec<Vec<char>> = Vec::new();
    let mut i: usize = 0;
    while i < rows.len()
        invariant
            i <= rows.len(),
            ev == entries_view(rows@),
            keys@.map_values(|k: Vec<char>| k@) == label_keys(ev).take(i as int),
        decreases rows.len() - i,
    {
        let cs = chars_of(rows[i].label.as_str());
        let k = lower_chars(cs.as_slice());
        let ghost before = keys@;
        assert(ev[i as int] == rows@[i as int]@);
        keys.push(k);
        assert(keys@.map_values(|k: Vec<char>| k@) =~= before.map_values(|k: Vec<char>| k@).push(k@));
        assert(label_keys(ev).take(i + 1) =~= label_keys(ev).take(i as int).push(lower_seq(ev[i as int].label)));
        i += 1;
    }
    assert(label_keys(ev).take(rows.len() as int) =~= label_keys(ev));
    let order = stable_order_exec(&keys);
    proof {
        lemma_stable_order_bounds(label_keys(ev), rows.len() as nat);
    }
    let ghost want = order@.map_values(|i: usize| ev[i as int]);
    let mut out: Vec<BrowserEntry> = Vec::new();
    let mut k: usize = 0;
    while k < order.len()
        invariant
            k <= order.len(),
            order@ == stable_order(label_keys(ev)),
            order@.len() == rows.len(),
            forall|j: int| 0 <= j < order@.len() ==> (#[trigger] order@[j] as int) < rows.len(),
            ev == entries_view(rows@),
            want == order@.map_values(|i: usize| ev[i as int]),
            entries_view(out@) == want.take(k as int),
        decreases order.len() - k,
    {
        assert((order@[k as int] as int) < rows.len());
        let e = rows[order[k]].copy();
        let ghost before = out@;
        out.push(e);
        assert(entries_view(out@) =~= entries_view(before).push(e@));
        k += 1;
        assert(entries_view(out@) =~= want.take(k as int));
    }
    assert(want.take(order.len() as int) =~= want);
    out
}

/// The library: folders, tracks and playlists, the play queue, and what the browser shows.
#[derive(Debug)]
pub struct TuneCore {
    pub folders: Vec<String>,
    pub tracks: Vec<Track>,
    pub playlists: Vec<NamedPlaylist>,
    pub queue: Vec<usize>,
    pub selected_track: usize,
    pub current_queue_index: Option<usize>,
    pub playback_mode: LegacyPlaybackMode,
    pub loudness_normalization: bool,
    pub crossfade_seconds: u16,
    pub scrub_seconds: u16,
    pub theme: Theme,
    pub stats_enabled: bool,
    pub header_section: HeaderSection,
    pub browser_path: Option<String>,
    pub browser_playlist: Option<String>,
    pub browser_all_songs: bool,
    pub browser_entries: Vec<BrowserEntry>,
    pub selected_browser: usize,
    /// The folder whose items `folder_listing` holds, as the file system last listed it.
    pub listing_path: Option<String>,
    pub folder_listing: Vec<DirectoryItem>,
    pub dirty: bool,
    pub status: String,
    pub shuffle_order: Vec<usize>,
    pub shuffle_cursor: usize,
    shuffle_rng: SmallRng,
}

impl View for TuneCore {
    type V = CoreView;

    closed spec fn view(&self) -> CoreView {
        CoreView {
            folders: texts(self.folders@),
            tracks: tracks_view(self.tracks@),
            playlists: playlists_view(self.playlists@),
            queue: self.queue@,
            selected_track: self.selected_track,
            current_queue_index: self.current_queue_index,
            playback_mode: self.playback_mode,
            loudness_normalization: self.loudness_normalization,
            crossfade_seconds: self.crossfade_seconds,
            scrub_seconds: self.scrub_seconds,
            theme: self.theme,
            stats_enabled: self.stats_enabled,
            header_section: self.header_section,
            browser_path: text_opt(self.browser_path),
            browser_playlist: text_opt(self.browser_playlist),
            browser_all_songs: self.browser_all_songs,
            browser_entries: entries_view(self.browser_entries@),
            selected_browser: self.selected_browser,
            listing_path: text_opt(self.listing_path),
            folder_listing: items_view(self.folder_listing@),
            dirty: self.dirty,
            status: self.status@,
            shuffle_order: self.shuffle_order@,
            shuffle_cursor: self.shuffle_cursor,
        }
    }
}

impl TuneCore {
    fn root_rows(&self) -> (r: Vec<BrowserEntry>)
        ensures
            entries_view(r@) == root_entries(self@),
    {
        let ghost v = self@;
        let mut rows: Vec<BrowserEntry> = Vec::new();
        let mut i: usize = 0;
        while i < self.folders.len()
            invariant
                i <= self.folders.len(),
                v == self@,
                entries_view(rows@) == v.folders.map_values(|f: Seq<char>| folder_root_entry(f)).take(i as int),
            decreases self.folders.len() - i,
        {
            let cs = chars_of(self.folders[i].as_str());
            let cleaned = strip_verbatim_chars(cs.as_slice());
            let name = match file_name_of(cleaned.as_slice()) {
                Some(n) => sanitize_display_chars(n.as_slice()),
                None => crate::text::sub_chars(cleaned.as_slice(), 0, cleaned.len()),
            };
            let mut label = chars_of("[DIR] ");
            extend_chars(&mut label, name.as_slice());
            assert(v.folders[i as int] == self.folders@[i as int]@);
            assert(name@ == folder_root_label(v.folders[i as int]));
            let e = row(BrowserEntryKind::Folder, cleaned.as_slice(), label.as_slice());
            assert(e@ == folder_root_entry(v.folders[i as int]));
            let ghost before = rows@;
            rows.push(e);
            assert(entries_view(rows@) =~= entries_view(before).push(e@));
            i += 1;
            assert(entries_view(rows@) =~= v.folders.map_values(|f: Seq<char>| folder_root_entry(f)).take(i as int));
        }
        assert(v.folders.map_values(|f: Seq<char>| folder_root_entry(f)).take(self.folders.len() as int)
            =~= v.folders.map_values(|f: Seq<char>| folder_root_entry(f)));
        let empty: Vec<char> = Vec::new();
        let all_label = chars_of("[ALL] All Songs");
        let all = row(BrowserEntryKind::AllSongs, empty.as_slice(), all_label.as_slice());
        assert(all@ == all_songs_entry()) by {
            assert(empty@ =~= seq![]);
        }
        let ghost before_all = rows@;
        rows.push(all);
        assert(entries_view(rows@) =~= entries_view(before_all).push(all@));
        let ghost base = entries_view(rows@);
        let mut j: usize = 0;
        while j < self.playlists.len()
            invariant
                j <= self.playlists.len(),
                v == self@,
                entries_view(rows@) == base + v.playlists.map_values(|p: PlaylistView| playlist_root_entry(p)).take(j as int),
            decreases self.playlists.len() - j,
        {
            let name = chars_of(self.playlists[j].name.as_str());
            let shown = sanitize_display_chars(name.as_slice());
            let mut label = chars_of("[PL] ");
            extend_chars(&mut label, shown.as_slice());
            let e = row(BrowserEntryKind::Playlist, name.as_slice(), label.as_slice());
            assert(v.playlists[j as int] == self.playlists@[j as int]@);
            assert(e@ == playlist_root_entry(v.playlists[j as int]));
            let ghost before = rows@;
            rows.push(e);
            assert(entries_view(rows@) =~= entries_view(before).push(e@));
            j += 1;
            assert(entries_view(rows@) =~= base + v.playlists.map_values(|p: PlaylistView| playlist_root_entry(p)).take(j as int));
        }
        assert(v.playlists.map_values(|p: PlaylistView| playlist_root_entry(p)).take(self.playlists.len() as int)
            =~= v.playlists.map_values(|p: PlaylistView| playlist_root_entry(p)));
        sort_rows(&rows)
    }

    fn folder_rows(&self, current: &String) -> (r: Vec<BrowserEntry>)
        ensures
            entries_view(r@) == folder_view_entries(self@, current@),
    {
        let cs = chars_of(current.as_str());
        let cleaned = strip_verbatim_chars(cs.as_slice());
        let mut rows: Vec<BrowserEntry> = Vec::new();
        rows.push(back_row(cleaned.as_slice()));
        let listed = match &self.listing_path {
            Some(lp) => crate::text::str_eq(lp.as_str(), current.as_str()),
            None => false,
        };
        let empty: Vec<DirectoryItem> = Vec::new();
        let items = if listed {
            &self.folder_listing
        } else {
            &empty
        };
        assert(items_view(items@) == listed_items(self@, current@)) by {
            if !listed {
                assert(items_view(empty@) =~= seq![]);
            }
        }
        let dirs = dir_rows(items);
        let mut sorted_dirs = sort_rows(&dirs);
        let files = file_rows(&self.tracks, items);
        let mut sorted_files = sort_rows(&files);
        let ghost r0 = rows@;
        let ghost d = sorted_dirs@;
        let ghost f = sorted_files@;
        rows.append(&mut sorted_dirs);
        rows.append(&mut sorted_files);
        assert(rows@ =~= r0 + d + f);
        assert(entries_view(rows@) =~= entries_view(r0) + entries_view(d) + entries_view(f));
        rows
    }

    fn build_entries(&self) -> (r: Vec<BrowserEntry>)
        ensures
            entries_view(r@) == view_entries(self@),
    {
        let empty: Vec<char> = Vec::new();
        assert(empty@ =~= seq![]);
        match &self.browser_playlist {
            Some(name) => {
                let mut rows: Vec<BrowserEntry> = Vec::new();
                rows.push(back_row(empty.as_slice()));
                let ghost r0 = rows@;
                match playlist_position_of(&self.playlists, name.as_str()) {
                    Some(i) => {
                        let mut more = playlist_rows(&self.tracks, &self.playlists[i].tracks);
                        let ghost m = more@;
                        rows.append(&mut more);
                        assert(rows@ =~= r0 + m);
                        assert(entries_view(rows@) =~= entries_view(r0) + entries_view(m));
                    },
                    None => {
                        assert(entries_view(rows@) =~= entries_view(r0) + seq![]);
                    },
                }
                rows
            },
            None => {
                if self.browser_all_songs {
                    let mut rows: Vec<BrowserEntry> = Vec::new();
                    rows.push(back_row(empty.as_slice()));
                    let ghost r0 = rows@;
                    let mut more = library_rows(&self.tracks);
                    let ghost m = more@;
                    rows.append(&mut more);
                    assert(rows@ =~= r0 + m);
                    assert(entries_view(rows@) =~= entries_view(r0) + entries_view(m));
                    rows
                } else {
                    match &self.browser_path {
                        Some(current) => self.folder_rows(current),
                        None => self.root_rows(),
                    }
                }
            },
        }
    }

    /// Rebuilds the rows the browser shows and keeps the selection on one of them.
    pub fn refresh_browser_entries(&mut self)
        ensures
            final(self)@ == refreshed(old(self)@),
    {
        let entries = self.build_entries();
        self.browser_entries = entries;
        if self.browser_entries.len() == 0 {
            self.selected_browser = 0;
        } else if self.selected_browser >= self.browser_entries.len() {
            self.selected_browser = self.browser_entries.len() - 1;
        }
        self.dirty = true;
    }
}

// ---------------------------------------------------------------------------
// The library's state and how each operation changes it
// ---------------------------------------------------------------------------

/// What is saved of the library between runs.
#[derive(Debug)]
pub struct PersistedLibrary {
    pub folders: Vec<String>,
    pub playlists: Vec<NamedPlaylist>,
    pub playback_mode: LegacyPlaybackMode,
    pub loudness_normalization: bool,
    pub crossfade_seconds: u16,
    pub scrub_seconds: u16,
    pub theme: Theme,
    pub stats_enabled: bool,
}

impl Default for PersistedLibrary {
    fn default() -> (r: Self)
        ensures
            r.folders@.len() == 0,
            r.playlists@.len() == 0,
            r.playback_mode == LegacyPlaybackMode::Normal,
            !r.loudness_normalization,
            r.crossfade_seconds == 0,
            r.scrub_seconds == 5,
            r.theme == Theme::Dark,
            r.stats_enabled,
    {
        PersistedLibrary {
            folders: Vec::new(),
            playlists: Vec::new(),
            playback_mode: LegacyPlaybackMode::Normal,
            loudness_normalization: false,
            crossfade_seconds: 0,
            scrub_seconds: 5,
            theme: Theme::Dark,
            stats_enabled: true,
        }
    }
}

pub open spec fn range_seq(n: nat) -> Seq<usize> {
    Seq::new(n, |i: int| i as usize)
}

/// `o` holds each of the queue positions `0..n` once, in some order.
pub open spec fn is_order_of(o: Seq<usize>, n: nat) -> bool {
    o.len() == n && o.to_multiset() == range_seq(n).to_multiset()
}

pub proof fn lemma_order_bounded(o: Seq<usize>, n: nat)
    requires
        is_order_of(o, n),
    ensures
        forall|k: int| 0 <= k < o.len() ==> (#[trigger] o[k] as nat) < n,
{
    assert forall|k: int| 0 <= k < o.len() implies (#[trigger] o[k] as nat) < n by {
        vstd::seq_lib::to_multiset_contains(o, o[k]);
        vstd::seq_lib::to_multiset_contains(range_seq(n), o[k]);
        assert(o.contains(o[k]));
        let j = choose|j: int| 0 <= j < range_seq(n).len() && range_seq(n)[j] == o[k];
        assert(range_seq(n)[j] == j as usize);
    }
}

pub open spec fn with_status(v: CoreView, msg: Seq<char>) -> CoreView {
    CoreView { status: msg, dirty: true, ..v }
}

pub open spec fn section_label(s: HeaderSection) -> Seq<char> {
    match s {
        HeaderSection::Library => "Library"@,
        HeaderSection::Lyrics => "Lyrics"@,
        HeaderSection::Stats => "Stats"@,
        HeaderSection::Online => "Online"@,
    }
}

impl CoreView {
    /// Queue entries point at tracks and playlist names are unique.
    pub open spec fn wf(self) -> bool {
        &&& forall|k: int| 0 <= k < self.queue.len() ==> (#[trigger] self.queue[k] as int) < self.tracks.len()
        &&& forall|i: int, j: int|
            0 <= i < j < self.playlists.len() ==> #[trigger] self.playlists[i].name != #[trigger] self.playlists[j].name
    }

    /// The playing position lies in the queue, every queue entry names a track, and the
    /// selection is on a row (when there are rows).
    pub open spec fn playable(self) -> bool {
        &&& (self.current_queue_index matches Some(i) ==> i < self.queue.len())
        &&& forall|k: int| 0 <= k < self.queue.len() ==> (#[trigger] self.queue[k] as int) < self.tracks.len()
        &&& (self.browser_entries.len() > 0 ==> self.selected_browser < self.browser_entries.len())
    }

    /// Besides `wf`: the playing position lies in the queue, the selection on a row, and the
    /// shuffle order among the queue positions.
    pub open spec fn sound(self) -> bool {
        &&& self.wf()
        &&& (self.current_queue_index matches Some(i) ==> i < self.queue.len())
        &&& (self.browser_entries.len() > 0 ==> self.selected_browser < self.browser_entries.len())
        &&& forall|k: int| 0 <= k < self.shuffle_order.len() ==> (#[trigger] self.shuffle_order[k] as int) < self.queue.len()
    }
}

/// The state after the play queue becomes `queue` with the shuffle order `order` drawn for it.
pub open spec fn with_queue(v: CoreView, queue: Seq<usize>, order: Seq<usize>) -> CoreView {
    CoreView { queue, shuffle_order: order, shuffle_cursor: 0, dirty: true, ..v }
}

/// The track path at a queue position, when both exist.
pub open spec fn path_at(v: CoreView, i: nat) -> Option<Seq<char>> {
    if i < v.queue.len() && (v.queue[i as int] as int) < v.tracks.len() {
        Some(v.tracks[v.queue[i as int] as int].path)
    } else {
        None
    }
}

/// Every entry of a shuffle order names a queue position.
pub open spec fn order_in_range(order: Seq<usize>, n: nat) -> bool {
    forall|k: int| 0 <= k < order.len() ==> (#[trigger] order[k] as nat) < n
}

/// A shuffle order is drawn before moving when shuffling over an order that does not fit the
/// queue: of another length, or naming a position past its end.
pub open spec fn needs_new_order(v: CoreView) -> bool {
    v.queue.len() > 0 && v.playback_mode == LegacyPlaybackMode::Shuffle && (v.shuffle_order.len()
        != v.queue.len() || !order_in_range(v.shuffle_order, v.queue.len()))
}

/// Moving to the next track, with the shuffle order in effect already in `v`.
pub open spec fn next_track_outcome(v: CoreView) -> (CoreView, Option<Seq<char>>) {
    if v.queue.len() == 0 {
        (with_status(v, "Queue is empty"@), None)
    } else {
        let (pos, cursor) = match v.current_queue_index {
            Some(c) => crate::browser::next_position(v.playback_mode, c as nat, v.queue.len(), v.shuffle_order, v.shuffle_cursor as nat),
            None => if v.playback_mode == LegacyPlaybackMode::Shuffle {
                (if v.shuffle_order.len() > 0 { Some(v.shuffle_order[0] as nat) } else { None }, v.shuffle_cursor as nat)
            } else {
                (Some(0nat), v.shuffle_cursor as nat)
            },
        };
        match pos {
            None => (CoreView { shuffle_cursor: cursor as usize, ..v }, None),
            Some(i) => (
                CoreView { current_queue_index: Some(i as usize), dirty: true, shuffle_cursor: cursor as usize, ..v },
                path_at(v, i),
            ),
        }
    }
}

/// Moving to the previous track, with the shuffle order in effect already in `v`.
pub open spec fn prev_track_outcome(v: CoreView) -> (CoreView, Option<Seq<char>>) {
    if v.queue.len() == 0 {
        (with_status(v, "Queue is empty"@), None)
    } else {
        let (pos, cursor) = match v.current_queue_index {
            Some(c) => crate::browser::prev_position(v.playback_mode, c as nat, v.queue.len(), v.shuffle_order, v.shuffle_cursor as nat),
            None => if v.playback_mode == LegacyPlaybackMode::Shuffle {
                (if v.shuffle_order.len() > 0 { Some(v.shuffle_order.last() as nat) } else { None }, v.shuffle_cursor as nat)
            } else {
                (Some((v.queue.len() - 1) as nat), v.shuffle_cursor as nat)
            },
        };
        match pos {
            None => (CoreView { shuffle_cursor: cursor as usize, ..v }, None),
            Some(i) => (
                CoreView { current_queue_index: Some(i as usize), dirty: true, shuffle_cursor: cursor as usize, ..v },
                path_at(v, i),
            ),
        }
    }
}

impl TuneCore {
    fn set_status(&mut self, message: &str)
        ensures
            final(self)@ == with_status(old(self)@, message@),
            final(self).shuffle_rng == old(self).shuffle_rng,
    {
        self.status = message.to_owned();
        self.dirty = true;
    }

    /// Draws a new shuffle order over the queue positions and starts it from the beginning.
    pub fn rebuild_shuffle_order(&mut self)
        ensures
            final(self)@ == (CoreView { shuffle_order: final(self)@.shuffle_order, shuffle_cursor: 0, ..old(self)@ }),
            is_order_of(final(self)@.shuffle_order, old(self)@.queue.len()),
    {
        let n = self.queue.len();
        let mut order: Vec<usize> = Vec::new();
        let mut i: usize = 0;
        while i < n
            invariant
                i <= n,
                order@ == range_seq(i as nat),
            decreases n - i,
        {
            order.push(i);
            i += 1;
            assert(order@ =~= range_seq(i as nat));
        }
        shuffle_indices(&mut self.shuffle_rng, &mut order);
        self.shuffle_order = order;
        self.shuffle_cursor = 0;
    }

    /// The play queue becomes the whole library by title, with a fresh shuffle order.
    fn rebuild_main_queue(&mut self)
        ensures
            final(self)@ == with_queue(old(self)@, title_order(old(self)@.tracks), final(self)@.shuffle_order),
            is_order_of(final(self)@.shuffle_order, old(self)@.tracks.len()),
            title_order(old(self)@.tracks).len() == old(self)@.tracks.len(),
            forall|k: int| 0 <= k < final(self)@.queue.len() ==> (#[trigger] final(self)@.queue[k] as int) < final(self)@.tracks.len(),
    {
        let q = title_order_of(&self.tracks);
        self.queue = q;
        self.rebuild_shuffle_order();
        self.dirty = true;
    }

    /// A library over `tracks` (found by scanning the saved folders), with the queue holding
    /// every track by title and the browser at the top.
    pub fn from_persisted(state: PersistedLibrary, tracks: Vec<Track>) -> (r: Self)
        ensures
            r@ == refreshed(
                CoreView {
                    folders: texts(state.folders@),
                    tracks: tracks_view(tracks@),
                    playlists: playlists_view(state.playlists@),
                    queue: title_order(tracks_view(tracks@)),
                    selected_track: 0,
                    current_queue_index: None,
                    playback_mode: state.playback_mode,
                    loudness_normalization: state.loudness_normalization,
                    crossfade_seconds: state.crossfade_seconds,
                    scrub_seconds: if state.scrub_seconds == 5 || state.scrub_seconds == 10
                        || state.scrub_seconds == 15 || state.scrub_seconds == 30
                        || state.scrub_seconds == 60 {
                        state.scrub_seconds
                    } else {
                        5
                    },
                    theme: state.theme,
                    stats_enabled: state.stats_enabled,
                    header_section: HeaderSection::Library,
                    browser_path: None,
                    browser_playlist: None,
                    browser_all_songs: false,
                    browser_entries: seq![],
                    selected_browser: 0,
                    listing_path: None,
                    folder_listing: seq![],
                    dirty: true,
                    status: "Ready"@,
                    shuffle_order: r@.shuffle_order,
                    shuffle_cursor: 0,
                },
            ),
            is_order_of(r@.shuffle_order, tracks@.len()),
    {
        let scrub = crate::browser::normalize_scrub_seconds(state.scrub_seconds);
        let mut core = TuneCore {
            folders: state.folders,
            tracks,
            playlists: state.playlists,
            queue: Vec::new(),
            selected_track: 0,
            current_queue_index: None,
            playback_mode: state.playback_mode,
            loudness_normalization: state.loudness_normalization,
            crossfade_seconds: state.crossfade_seconds,
            scrub_seconds: scrub,
            theme: state.theme,
            stats_enabled: state.stats_enabled,
            header_section: HeaderSection::Library,
            browser_path: None,
            browser_playlist: None,
            browser_all_songs: false,
            browser_entries: Vec::new(),
            selected_browser: 0,
            listing_path: None,
            folder_listing: Vec::new(),
            dirty: true,
            status: "Ready".to_owned(),
            shuffle_order: Vec::new(),
            shuffle_cursor: 0,
            shuffle_rng: small_rng_from_os(),
        };
        assert(core@.browser_entries =~= seq![]);
        assert(core@.folder_listing =~= seq![]);
        core.rebuild_main_queue();
        core.refresh_browser_entries();
        core
    }

    /// The play queue becomes the whole library by title again, nothing playing.
    pub fn reset_main_queue(&mut self)
        ensures
            final(self)@ == with_status(
                CoreView {
                    current_queue_index: None,
                    ..with_queue(old(self)@, title_order(old(self)@.tracks), final(self)@.shuffle_order)
                },
                "Loaded main library queue"@,
            ),
            is_order_of(final(self)@.shuffle_order, old(self)@.tracks.len()),
            old(self)@.sound() ==> final(self)@.sound(),
    {
        self.rebuild_main_queue();
        self.current_queue_index = None;
        self.set_status("Loaded main library queue");
        proof {
            lemma_order_bounded(self@.shuffle_order, old(self)@.tracks.len());
        }
    }

    pub fn select_next(&mut self)
        ensures
            final(self)@ == (if old(self)@.browser_entries.len() == 0 {
                old(self)@
            } else {
                CoreView {
                    selected_browser: if old(self)@.selected_browser + 1 < old(self)@.browser_entries.len() {
                        (old(self)@.selected_browser + 1) as usize
                    } else {
                        (old(self)@.browser_entries.len() - 1) as usize
                    },
                    dirty: true,
                    ..old(self)@
                }
            }),
            old(self)@.sound() ==> final(self)@.sound(),
    {
        if self.browser_entries.len() == 0 {
            return;
        }
        let last = self.browser_entries.len() - 1;
        if self.selected_browser < last {
            self.selected_browser = self.selected_browser + 1;
        } else {
            self.selected_browser = last;
        }
        self.dirty = true;
    }

    pub fn select_prev(&mut self)
        ensures
            final(self)@ == (CoreView {
                selected_browser: if old(self)@.selected_browser > 0 {
                    (old(self)@.selected_browser - 1) as usize
                } else {
                    0
                },
                dirty: true,
                ..old(self)@
            }),
            old(self)@.sound() ==> final(self)@.sound(),
    {
        if self.selected_browser > 0 {
            self.selected_browser = self.selected_browser - 1;
        }
        self.dirty = true;
    }

    /// Moves the header to its next tab and says which one it shows.
    pub fn cycle_header_section(&mut self)
        ensures
            final(self)@ == with_status(
                CoreView { header_section: crate::browser::section_after(old(self)@.header_section), ..old(self)@ },
                "Section: "@ + section_label(crate::browser::section_after(old(self)@.header_section)),
            ),
    {
        self.header_section = self.header_section.next();
        let mut msg = chars_of("Section: ");
        crate::text::extend_str(&mut msg, self.header_section.label());
        let text = string_from_chars(msg.as_slice());
        self.set_status(text.as_str());
    }

    fn ensure_order_len(&mut self)
        ensures
            if needs_new_order(old(self)@) {
                final(self)@ == (CoreView { shuffle_order: final(self)@.shuffle_order, shuffle_cursor: 0, ..old(self)@ })
                    && is_order_of(final(self)@.shuffle_order, old(self)@.queue.len())
            } else {
                final(self)@ == old(self)@
            },
    {
        if self.queue.len() > 0 && self.playback_mode == LegacyPlaybackMode::Shuffle
            && (self.shuffle_order.len() != self.queue.len() || !self.order_fits_queue()) {
            self.rebuild_shuffle_order();
        }
    }

    fn order_fits_queue(&self) -> (r: bool)
        ensures
            r == order_in_range(self@.shuffle_order, self@.queue.len()),
    {
        let n = self.queue.len();
        let mut k: usize = 0;
        while k < self.shuffle_order.len()
            invariant
                k <= self.shuffle_order.len(),
                n == self@.queue.len(),
                forall|j: int| 0 <= j < k ==> (#[trigger] self@.shuffle_order[j] as nat) < n,
            decreases self.shuffle_order.len() - k,
        {
            if self.shuffle_order[k] >= n {
                return false;
            }
            k += 1;
        }
        true
    }

    fn path_at_exec(&self, i: usize) -> (r: Option<String>)
        ensures
            text_opt(r) == path_at(self@, i as nat),
    {
        if i < self.queue.len() && self.queue[i] < self.tracks.len() {
            assert(self@.tracks[self.queue@[i as int] as int] == self.tracks@[self.queue@[i as int] as int]@);
            Some(self.tracks[self.queue[i]].path.clone())
        } else {
            None
        }
    }

    /// Moves to the next track of the queue as the playback mode says, and gives its path.
    pub fn next_track_path(&mut self) -> (r: Option<String>)
        ensures
            if needs_new_order(old(self)@) {
                is_order_of(final(self)@.shuffle_order, old(self)@.queue.len()) && (final(self)@, text_opt(r))
                    == next_track_outcome(CoreView { shuffle_order: final(self)@.shuffle_order, shuffle_cursor: 0, ..old(self)@ })
            } else {
                (final(self)@, text_opt(r)) == next_track_outcome(old(self)@)
            },
            old(self)@.sound() ==> final(self)@.sound(),
            old(self)@.playable() ==> {
                &&& final(self)@.playable()
                &&& final(self)@.queue == old(self)@.queue
                &&& match r {
                    Some(p) => final(self)@.current_queue_index matches Some(i) && i < final(self)@.queue.len()
                        && final(self)@.tracks[final(self)@.queue[i as int] as int].path == p@,
                    None => final(self)@.current_queue_index == old(self)@.current_queue_index,
                }
            },
    {
        if self.queue.len() == 0 {
            self.set_status("Queue is empty");
            return None;
        }
        self.ensure_order_len();
        proof {
            if needs_new_order(old(self)@) {
                lemma_order_bounded(self@.shuffle_order, self@.queue.len());
            }
            if self@.playback_mode == LegacyPlaybackMode::Shuffle {
                assert(order_in_range(self@.shuffle_order, self@.queue.len()));
            }
        }
        let pos = match self.current_queue_index {
            Some(c) => {
                let (p, cursor) = crate::browser::next_queue_index(
                    self.playback_mode,
                    c,
                    self.queue.len(),
                    &self.shuffle_order,
                    self.shuffle_cursor,
                );
                self.shuffle_cursor = cursor;
                p
            },
            None => {
                if self.playback_mode == LegacyPlaybackMode::Shuffle {
                    if self.shuffle_order.len() > 0 {
                        Some(self.shuffle_order[0])
                    } else {
                        None
                    }
                } else {
                    Some(0)
                }
            },
        };
        let idx = match pos {
            Some(i) => i,
            None => return None,
        };
        self.current_queue_index = Some(idx);
        self.dirty = true;
        self.path_at_exec(idx)
    }

    /// Moves to the previous track of the queue as the playback mode says, and gives its path.
    pub fn prev_track_path(&mut self) -> (r: Option<String>)
        ensures
            if needs_new_order(old(self)@) {
                is_order_of(final(self)@.shuffle_order, old(self)@.queue.len()) && (final(self)@, text_opt(r))
                    == prev_track_outcome(CoreView { shuffle_order: final(self)@.shuffle_order, shuffle_cursor: 0, ..old(self)@ })
            } else {
                (final(self)@, text_opt(r)) == prev_track_outcome(old(self)@)
            },
            old(self)@.playable() ==> {
                &&& final(self)@.playable()
                &&& final(self)@.queue == old(self)@.queue
                &&& match r {
                    Some(p) => final(self)@.current_queue_index matches Some(i) && i < final(self)@.queue.len()
                        && final(self)@.tracks[final(self)@.queue[i as int] as int].path == p@,
                    None => final(self)@.current_queue_index == old(self)@.current_queue_index,
                }
            },
    {
        if self.queue.len() == 0 {
            self.set_status("Queue is empty");
            return None;
        }
        self.ensure_order_len();
        proof {
            if needs_new_order(old(self)@) {
                lemma_order_bounded(self@.shuffle_order, self@.queue.len());
            }
            if self@.playback_mode == LegacyPlaybackMode::Shuffle {
                assert(order_in_range(self@.shuffle_order, self@.queue.len()));
            }
        }
        let pos = match self.current_queue_index {
            Some(c) => {
                let (p, cursor) = crate::browser::prev_queue_index(
                    self.playback_mode,
                    c,
                    self.queue.len(),
                    &self.shuffle_order,
                    self.shuffle_cursor,
                );
                self.shuffle_cursor = cursor;
                p
            },
            None => {
                if self.playback_mode == LegacyPlaybackMode::Shuffle {
                    if self.shuffle_order.len() > 0 {
                        Some(self.shuffle_order[self.shuffle_order.len() - 1])
                    } else {
                        None
                    }
                } else {
                    Some(self.queue.len() - 1)
                }
            },
        };
        let idx = match pos {
            Some(i) => i,
            None => return None,
        };
        self.current_queue_index = Some(idx);
        self.dirty = true;
        self.path_at_exec(idx)
    }
}

// ---------------------------------------------------------------------------
// Playlists
// ---------------------------------------------------------------------------

/// The library's tracks that lie in `root`, in library order.
pub open spec fn paths_within(t: Seq<TrackView>, root: Seq<char>) -> Seq<Seq<char>>
    decreases t.len(),
{
    if t.len() == 0 {
        seq![]
    } else if path_within(t.last().path, root) {
        paths_within(t.drop_last(), root).push(t.last().path)
    } else {
        paths_within(t.drop_last(), root)
    }
}

/// The track paths a playlist action takes from the selection: the selected track, every
/// track in a selected folder, a selected playlist's tracks, or the whole library by title;
/// with no row selected, the selected library track.
pub open spec fn selected_paths(v: CoreView) -> Seq<Seq<char>> {
    if v.selected_browser < v.browser_entries.len() {
        let e = v.browser_entries[v.selected_browser as int];
        match e.kind {
            BrowserEntryKind::Track => seq![e.path],
            BrowserEntryKind::Folder => paths_within(v.tracks, e.path),
            BrowserEntryKind::Playlist => match playlist_position(v.playlists, e.path) {
                Some(i) => v.playlists[i].tracks,
                None => seq![],
            },
            BrowserEntryKind::AllSongs => title_order(v.tracks).map_values(|i: usize| v.tracks[i as int].path),
            BrowserEntryKind::Back => seq![],
        }
    } else if v.selected_track < v.tracks.len() {
        seq![v.tracks[v.selected_track as int].path]
    } else {
        seq![]
    }
}

/// `paths` appended to the playlist called `name`, which is created when missing.
pub open spec fn add_paths(p: Seq<PlaylistView>, name: Seq<char>, paths: Seq<Seq<char>>) -> Seq<PlaylistView> {
    match playlist_position(p, name) {
        Some(i) => p.update(i, PlaylistView { name: p[i].name, tracks: p[i].tracks + paths }),
        None => p.push(PlaylistView { name, tracks: paths }),
    }
}

/// Adding tracks to a playlist that exists keeps its tracks first and puts the added ones
/// after them, in order, without touching any other playlist.
pub proof fn adding_keeps_old_tracks_first(p: Seq<PlaylistView>, name: Seq<char>, paths: Seq<Seq<char>>, i: int)
    requires
        0 <= i < p.len(),
        p[i].name == name,
        forall|j: int| 0 <= j < i ==> (#[trigger] p[j]).name != name,
    ensures
        ({
            let r = add_paths(p, name, paths);
            &&& r.len() == p.len()
            &&& r[i].name == name
            &&& r[i].tracks.len() == p[i].tracks.len() + paths.len()
            &&& forall|k: int| 0 <= k < p[i].tracks.len() ==> #[trigger] r[i].tracks[k] == p[i].tracks[k]
            &&& forall|k: int| 0 <= k < paths.len() ==> r[i].tracks[p[i].tracks.len() + k] == #[trigger] paths[k]
            &&& forall|j: int| 0 <= j < p.len() && j != i ==> #[trigger] r[j] == p[j]
        }),
{
    assert(exists|x: int| 0 <= x < p.len() && p[x].name == name && forall|j: int| 0 <= j < x ==> p[j].name != name);
    let c = choose|x: int| 0 <= x < p.len() && p[x].name == name && forall|j: int| 0 <= j < x ==> p[j].name != name;
    if c < i {
        assert(p[c].name != name);
    }
    if c > i {
        assert(p[i].name != name);
    }
    assert(playlist_position(p, name) == Some(i));
}

/// Adding tracks to a playlist that does not exist creates it, last, holding just them.
pub proof fn adding_to_missing_playlist_creates_it(p: Seq<PlaylistView>, name: Seq<char>, paths: Seq<Seq<char>>)
    requires
        forall|j: int| 0 <= j < p.len() ==> (#[trigger] p[j]).name != name,
    ensures
        ({
            let r = add_paths(p, name, paths);
            &&& r.len() == p.len() + 1
            &&& r.last().name == name
            &&& r.last().tracks == paths
            &&& forall|j: int| 0 <= j < p.len() ==> #[trigger] r[j] == p[j]
        }),
{
    assert(playlist_position(p, name) is None);
}

pub open spec fn create_playlist_outcome(v: CoreView, name: Seq<char>) -> CoreView {
    match playlist_position(v.playlists, name) {
        Some(_) => with_status(v, "Playlist already exists"@),
        None => with_status(
            refreshed(CoreView { playlists: v.playlists.push(PlaylistView { name, tracks: seq![] }), ..v }),
            "Playlist created"@,
        ),
    }
}

pub open spec fn remove_playlist_outcome(v: CoreView, name: Seq<char>) -> CoreView {
    match playlist_position(v.playlists, name) {
        None => with_status(v, "Playlist not found"@),
        Some(i) => {
            let v1 = CoreView { playlists: v.playlists.remove(i), ..v };
            let v2 = if v.browser_playlist == Some(name) {
                CoreView { browser_playlist: None, selected_browser: 0, ..v1 }
            } else {
                v1
            };
            with_status(refreshed(v2), "Playlist removed"@)
        },
    }
}

/// Removing a playlist drops exactly that playlist, keeping the others in their order.
pub proof fn removing_a_playlist_drops_only_it(v: CoreView, name: Seq<char>, i: int)
    requires
        0 <= i < v.playlists.len(),
        v.playlists[i].name == name,
        forall|j: int| 0 <= j < i ==> (#[trigger] v.playlists[j]).name != name,
    ensures
        ({
            let r = remove_playlist_outcome(v, name).playlists;
            &&& r.len() + 1 == v.playlists.len()
            &&& forall|j: int| 0 <= j < i ==> #[trigger] r[j] == v.playlists[j]
            &&& forall|j: int| i <= j < r.len() ==> #[trigger] r[j] == v.playlists[j + 1]
        }),
{
    let p = v.playlists;
    assert(exists|x: int| 0 <= x < p.len() && p[x].name == name && forall|j: int| 0 <= j < x ==> p[j].name != name);
    let c = choose|x: int| 0 <= x < p.len() && p[x].name == name && forall|j: int| 0 <= j < x ==> p[j].name != name;
    if c < i {
        assert(p[c].name != name);
    }
    if c > i {
        assert(p[i].name != name);
    }
    assert(playlist_position(p, name) == Some(i));
}

pub open spec fn add_selected_outcome(v: CoreView, name: Seq<char>) -> CoreView {
    let paths = selected_paths(v);
    if paths.len() == 0 {
        with_status(v, "Nothing selectable to add"@)
    } else {
        with_status(
            CoreView { playlists: add_paths(v.playlists, name, paths), ..v },
            "Added "@ + crate::text::decimal(paths.len()) + " track(s) to playlist"@,
        )
    }
}

/// The first of `paths` naming the same place as `p`.
pub open spec fn first_same_in(paths: Seq<Seq<char>>, p: Seq<char>) -> Option<int> {
    if exists|k: int| 0 <= k < paths.len() && same_path(paths[k], p) && forall|j: int| 0 <= j < k ==> !same_path(paths[j], p) {
        Some(choose|k: int| 0 <= k < paths.len() && same_path(paths[k], p) && forall|j: int| 0 <= j < k ==> !same_path(paths[j], p))
    } else {
        None
    }
}

pub open spec fn remove_selected_outcome(v: CoreView) -> CoreView {
    match v.browser_playlist {
        None => with_status(v, "Open a playlist to remove tracks"@),
        Some(name) => if v.selected_browser >= v.browser_entries.len() {
            with_status(v, "No selection"@)
        } else {
            let e = v.browser_entries[v.selected_browser as int];
            if e.kind != BrowserEntryKind::Track {
                with_status(v, "Select a playlist track to remove"@)
            } else {
                match playlist_position(v.playlists, name) {
                    None => with_status(v, "Playlist not found"@),
                    Some(i) => match first_same_in(v.playlists[i].tracks, e.path) {
                        Some(k) => with_status(
                            refreshed(
                                CoreView {
                                    playlists: v.playlists.update(
                                        i,
                                        PlaylistView { name: v.playlists[i].name, tracks: v.playlists[i].tracks.remove(k) },
                                    ),
                                    ..v
                                },
                            ),
                            "Removed track from playlist"@,
                        ),
                        None => with_status(v, "Track not found in playlist"@),
                    },
                }
            }
        },
    }
}

/// The first queue position whose track names the same place as `p`.
pub open spec fn queue_match(t: Seq<TrackView>, q: Seq<usize>, p: Seq<char>) -> Option<int> {
    if exists|k: int| 0 <= k < q.len() && (q[k] as int) < t.len() && same_path(t[q[k] as int].path, p)
        && forall|j: int| 0 <= j < k ==> !((q[j] as int) < t.len() && same_path(t[q[j] as int].path, p)) {
        Some(choose|k: int| 0 <= k < q.len() && (q[k] as int) < t.len() && same_path(t[q[k] as int].path, p)
            && forall|j: int| 0 <= j < k ==> !((q[j] as int) < t.len() && same_path(t[q[j] as int].path, p)))
    } else {
        None
    }
}

proof fn lemma_first_name(pv: Seq<PlaylistView>, name: Seq<char>, j: int)
    requires
        0 <= j < pv.len(),
        pv[j].name == name,
    ensures
        playlist_position(pv, name) is Some,
    decreases j,
{
    if exists|m: int| 0 <= m < j && pv[m].name == name {
        let m = choose|m: int| 0 <= m < j && pv[m].name == name;
        lemma_first_name(pv, name, m);
    } else {
        assert(0 <= j < pv.len() && pv[j].name == name && forall|k: int| 0 <= k < j ==> pv[k].name != name);
    }
}

/// A name that no playlist has keeps names unique when a playlist of that name is added.
proof fn lemma_push_new_name(pv: Seq<PlaylistView>, p: PlaylistView)
    requires
        playlist_position(pv, p.name) is None,
        forall|i: int, j: int| 0 <= i < j < pv.len() ==> #[trigger] pv[i].name != #[trigger] pv[j].name,
    ensures
        forall|i: int, j: int| 0 <= i < j < pv.push(p).len() ==> #[trigger] pv.push(p)[i].name != #[trigger] pv.push(p)[j].name,
{
    assert forall|i: int, j: int| 0 <= i < j < pv.push(p).len() implies #[trigger] pv.push(p)[i].name != #[trigger] pv.push(p)[j].name by {
        if j == pv.len() {
            if pv[i].name == p.name {
                lemma_first_name(pv, p.name, i);
            }
        } else {
            assert(pv.push(p)[i] == pv[i]);
            assert(pv.push(p)[j] == pv[j]);
        }
    }
}

fn copy_playlists(p: &Vec<NamedPlaylist>) -> (r: Vec<NamedPlaylist>)
    ensures
        playlists_view(r@) == playlists_view(p@),
{
    let mut out: Vec<NamedPlaylist> = Vec::new();
    let mut i: usize = 0;
    while i < p.len()
        invariant
            i <= p.len(),
            playlists_view(out@) == playlists_view(p@).take(i as int),
        decreases p.len() - i,
    {
        let ghost before = out@;
        let x = p[i].copy();
        out.push(x);
        assert(playlists_view(out@) =~= playlists_view(before).push(x@));
        i += 1;
        assert(playlists_view(out@) =~= playlists_view(p@).take(i as int));
    }
    assert(playlists_view(p@).take(p.len() as int) =~= playlists_view(p@));
    out
}

fn paths_within_of(tracks: &Vec<Track>, root: &[char]) -> (r: Vec<String>)
    ensures
        texts(r@) == paths_within(tracks_view(tracks@), root@),
{
    let ghost t = tracks_view(tracks@);
    let mut out: Vec<String> = Vec::new();
    let mut i: usize = 0;
    while i < tracks.len()
        invariant
            i <= tracks.len(),
            t == tracks_view(tracks@),
            texts(out@) == paths_within(t.take(i as int), root@),
        decreases tracks.len() - i,
    {
        assert(t.take(i + 1).drop_last() =~= t.take(i as int));
        assert(t.take(i + 1).last() == tracks@[i as int]@);
        let cs = chars_of(tracks[i].path.as_str());
        if crate::paths::path_is_within(cs.as_slice(), root) {
            let ghost before = out@;
            out.push(tracks[i].path.clone());
            assert(texts(out@) =~= texts(before).push(tracks@[i as int].path@));
        }
        i += 1;
    }
    assert(t.take(tracks.len() as int) =~= t);
    out
}

fn first_same_of(paths: &Vec<String>, p: &[char]) -> (r: Option<usize>)
    ensures
        match r {
            Some(k) => first_same_in(texts(paths@), p@) == Some(k as int) && k < paths.len(),
            None => first_same_in(texts(paths@), p@) is None,
        },
{
    let ghost ps = texts(paths@);
    let mut k: usize = 0;
    while k < paths.len()
        invariant
            k <= paths.len(),
            ps == texts(paths@),
            forall|j: int| 0 <= j < k ==> !same_path(ps[j], p@),
        decreases paths.len() - k,
    {
        let cs = chars_of(paths[k].as_str());
        if paths_equal(cs.as_slice(), p) {
            assert(ps[k as int] == paths@[k as int]@);
            proof {
                let c = choose|c: int| 0 <= c < ps.len() && same_path(ps[c], p@) && forall|j: int| 0 <= j < c ==> !same_path(ps[j], p@);
                if c < k {
                    assert(!same_path(ps[c], p@));
                }
                if c > k {
                    assert(!same_path(ps[k as int], p@));
                }
            }
            return Some(k);
        }
        k += 1;
    }
    None
}

impl TuneCore {
    /// Creates an empty playlist unless one of that name exists.
    pub fn create_playlist(&mut self, name: &str)
        ensures
            final(self)@ == create_playlist_outcome(old(self)@, name@),
            old(self)@.wf() ==> final(self)@.wf(),
    {
        match playlist_position_of(&self.playlists, name) {
            Some(_) => {
                self.set_status("Playlist already exists");
            },
            None => {
                let ghost before = self.playlists@;
                let pl = NamedPlaylist { name: name.to_owned(), tracks: Vec::new() };
                assert(pl@.tracks =~= seq![]);
                self.playlists.push(pl);
                assert(playlists_view(self.playlists@) =~= playlists_view(before).push(pl@));
                proof {
                    if old(self)@.wf() {
                        lemma_push_new_name(playlists_view(before), pl@);
                    }
                }
                self.refresh_browser_entries();
                self.set_status("Playlist created");
            },
        }
    }

    /// Removes a playlist, leaving it first when the browser shows it.
    pub fn remove_playlist(&mut self, name: &str)
        ensures
            final(self)@ == remove_playlist_outcome(old(self)@, name@),
            old(self)@.wf() ==> final(self)@.wf(),
    {
        match playlist_position_of(&self.playlists, name) {
            None => {
                self.set_status("Playlist not found");
            },
            Some(i) => {
                let ghost before = playlists_view(self.playlists@);
                self.playlists.remove(i);
                assert(playlists_view(self.playlists@) =~= before.remove(i as int));
                let open = match &self.browser_playlist {
                    Some(b) => crate::text::str_eq(b.as_str(), name),
                    None => false,
                };
                if open {
                    self.browser_playlist = None;
                    self.selected_browser = 0;
                }
                self.refresh_browser_entries();
                self.set_status("Playlist removed");
            },
        }
    }

    fn append_to_playlist(&mut self, name: &str, mut paths: Vec<String>)
        ensures
            final(self)@ == (CoreView { playlists: add_paths(old(self)@.playlists, name@, texts(paths@)), ..old(self)@ }),
            old(self)@.wf() ==> final(self)@.wf(),
    {
        let ghost pv = playlists_view(self.playlists@);
        let ghost added = texts(paths@);
        match playlist_position_of(&self.playlists, name) {
            Some(i) => {
                let mut pls = copy_playlists(&self.playlists);
                let ghost pls_before = pls@;
                let mut target = pls.remove(i);
                assert(target@ == pv[i as int]) by {
                    assert(target == pls_before[i as int]);
                    assert(playlists_view(pls_before)[i as int] == pls_before[i as int]@);
                }
                let ghost tracks0 = target.tracks@;
                let ghost paths0 = paths@;
                target.tracks.append(&mut paths);
                assert(target.tracks@ == tracks0 + paths0);
                assert(texts(target.tracks@) =~= texts(tracks0) + texts(paths0));
                assert(target@ =~= PlaylistView { name: pv[i as int].name, tracks: pv[i as int].tracks + added });
                pls.insert(i, target);
                assert(playlists_view(pls@) =~= pv.update(i as int, target@));
                self.playlists = pls;
                proof {
                    let u = pv.update(i as int, target@);
                    assert forall|a: int, b: int| 0 <= a < b < u.len() implies #[trigger] u[a].name == pv[a].name && #[trigger] u[b].name == pv[b].name by {}
                }
            },
            None => {
                let pl = NamedPlaylist { name: name.to_owned(), tracks: paths };
                self.playlists.push(pl);
                assert(playlists_view(self.playlists@) =~= pv.push(pl@));
                proof {
                    if old(self)@.wf() {
                        lemma_push_new_name(pv, pl@);
                    }
                }
            },
        }
    }

    fn selected_paths_exec(&self) -> (r: Vec<String>)
        ensures
            texts(r@) == selected_paths(self@),
    {
        if self.selected_browser < self.browser_entries.len() {
            let e = &self.browser_entries[self.selected_browser];
            assert(self@.browser_entries[self.selected_browser as int] == e@);
            match e.kind {
                BrowserEntryKind::Track => {
                    let mut out: Vec<String> = Vec::new();
                    out.push(e.path.clone());
                    assert(texts(out@) =~= seq![e.path@]);
                    out
                },
                BrowserEntryKind::Folder => {
                    let cs = chars_of(e.path.as_str());
                    paths_within_of(&self.tracks, cs.as_slice())
                },
                BrowserEntryKind::Playlist => match playlist_position_of(&self.playlists, e.path.as_str()) {
                    Some(i) => copy_strings(&self.playlists[i].tracks),
                    None => {
                        let out: Vec<String> = Vec::new();
                        assert(texts(out@) =~= seq![]);
                        out
                    },
                },
                BrowserEntryKind::AllSongs => {
                    let order = title_order_of(&self.tracks);
                    let ghost want = order@.map_values(|i: usize| self@.tracks[i as int].path);
                    let mut out: Vec<String> = Vec::new();
                    let mut k: usize = 0;
                    while k < order.len()
                        invariant
                            k <= order.len(),
                            order@ == title_order(self@.tracks),
                            forall|j: int| 0 <= j < order@.len() ==> (#[trigger] order@[j] as int) < self.tracks.len(),
                            want == order@.map_values(|i: usize| self@.tracks[i as int].path),
                            texts(out@) == want.take(k as int),
                        decreases order.len() - k,
                    {
                        assert((order@[k as int] as int) < self.tracks.len());
                        let ghost before = out@;
                        out.push(self.tracks[order[k]].path.clone());
                        assert(texts(out@) =~= texts(before).push(self.tracks@[order@[k as int] as int].path@));
                        k += 1;
                        assert(texts(out@) =~= want.take(k as int));
                    }
                    assert(want.take(order.len() as int) =~= want);
                    out
                },
                BrowserEntryKind::Back => {
                    let out: Vec<String> = Vec::new();
                    assert(texts(out@) =~= seq![]);
                    out
                },
            }
        } else if self.selected_track < self.tracks.len() {
            let mut out: Vec<String> = Vec::new();
            out.push(self.tracks[self.selected_track].path.clone());
            assert(texts(out@) =~= seq![self@.tracks[self.selected_track as int].path]);
            out
        } else {
            let out: Vec<String> = Vec::new();
            assert(texts(out@) =~= seq![]);
            out
        }
    }

    /// Adds what is selected to the playlist called `name`, creating it when missing.
    pub fn add_selected_to_playlist(&mut self, name: &str)
        ensures
            final(self)@ == add_selected_outcome(old(self)@, name@),
            old(self)@.wf() ==> final(self)@.wf(),
    {
        let paths = self.selected_paths_exec();
        if paths.len() == 0 {
            self.set_status("Nothing selectable to add");
            return;
        }
        let added = paths.len();
        self.append_to_playlist(name, paths);
        let mut msg = chars_of("Added ");
        crate::text::push_decimal(&mut msg, added as u64);
        crate::text::extend_str(&mut msg, " track(s) to playlist");
        let text = string_from_chars(msg.as_slice());
        self.set_status(text.as_str());
    }

    /// Adds one track, the one playing, to the playlist called `name`.
    pub fn add_track_to_playlist(&mut self, name: &str, path: &str)
        ensures
            final(self)@ == with_status(
                CoreView { playlists: add_paths(old(self)@.playlists, name@, seq![path@]), ..old(self)@ },
                "Added now playing track to playlist"@,
            ),
            old(self)@.wf() ==> final(self)@.wf(),
    {
        let mut paths: Vec<String> = Vec::new();
        paths.push(path.to_owned());
        assert(texts(paths@) =~= seq![path@]);
        self.append_to_playlist(name, paths);
        self.set_status("Added now playing track to playlist");
    }

    /// Removes the selected track from the playlist the browser shows.
    pub fn remove_selected_from_current_playlist(&mut self)
        ensures
            final(self)@ == remove_selected_outcome(old(self)@),
            old(self)@.wf() ==> final(self)@.wf(),
    {
        let name = match &self.browser_playlist {
            Some(n) => n.clone(),
            None => {
                self.set_status("Open a playlist to remove tracks");
                return;
            },
        };
        if self.selected_browser >= self.browser_entries.len() {
            self.set_status("No selection");
            return;
        }
        let entry = self.browser_entries[self.selected_browser].copy();
        assert(entry@ == self@.browser_entries[self.selected_browser as int]);
        if entry.kind != BrowserEntryKind::Track {
            self.set_status("Select a playlist track to remove");
            return;
        }
        let i = match playlist_position_of(&self.playlists, name.as_str()) {
            Some(i) => i,
            None => {
                self.set_status("Playlist not found");
                return;
            },
        };
        let cs = chars_of(entry.path.as_str());
        match first_same_of(&self.playlists[i].tracks, cs.as_slice()) {
            Some(k) => {
                let ghost pv = playlists_view(self.playlists@);
                let mut pls = copy_playlists(&self.playlists);
                let mut target = pls.remove(i);
                let ghost tt = texts(target.tracks@);
                target.tracks.remove(k);
                assert(texts(target.tracks@) =~= tt.remove(k as int));
                assert(target@ =~= PlaylistView { name: pv[i as int].name, tracks: pv[i as int].tracks.remove(k as int) });
                pls.insert(i, target);
                assert(playlists_view(pls@) =~= pv.update(i as int, target@));
                self.playlists = pls;
                self.refresh_browser_entries();
                self.set_status("Removed track from playlist");
            },
            None => {
                self.set_status("Track not found in playlist");
            },
        }
    }

    /// The path of the track playing, if any.
    pub fn current_path(&self) -> (r: Option<String>)
        ensures
            text_opt(r) == (match self@.current_queue_index {
                Some(q) => path_at(self@, q as nat),
                None => None,
            }),
    {
        match self.current_queue_index {
            Some(q) => self.path_at_exec(q),
            None => None,
        }
    }

    /// The first queue position whose track is at `path`.
    pub fn queue_position_for_path(&self, path: &str) -> (r: Option<usize>)
        ensures
            match r {
                Some(k) => queue_match(self@.tracks, self@.queue, path@) == Some(k as int),
                None => queue_match(self@.tracks, self@.queue, path@) is None,
            },
    {
        let p = chars_of(path);
        let ghost t = self@.tracks;
        let ghost q = self@.queue;
        let mut k: usize = 0;
        while k < self.queue.len()
            invariant
                k <= self.queue.len(),
                t == self@.tracks,
                q == self@.queue,
                p@ == path@,
                forall|j: int| 0 <= j < k ==> !((q[j] as int) < t.len() && same_path(t[q[j] as int].path, p@)),
            decreases self.queue.len() - k,
        {
            let idx = self.queue[k];
            if idx < self.tracks.len() {
                let cs = chars_of(self.tracks[idx].path.as_str());
                assert(t[idx as int] == self.tracks@[idx as int]@);
                if paths_equal(cs.as_slice(), p.as_slice()) {
                    proof {
                        let c = choose|c: int| 0 <= c < q.len() && (q[c] as int) < t.len() && same_path(t[q[c] as int].path, p@)
                            && forall|j: int| 0 <= j < c ==> !((q[j] as int) < t.len() && same_path(t[q[j] as int].path, p@));
                        if c < k {
                            assert(!((q[c] as int) < t.len() && same_path(t[q[c] as int].path, p@)));
                        }
                        if c > k {
                            assert(!((q[k as int] as int) < t.len() && same_path(t[q[k as int] as int].path, p@)));
                        }
                    }
                    return Some(k);
                }
            }
            k += 1;
        }
        None
    }

    /// The title of the track at `path`.
    pub fn title_for_path(&self, path: &str) -> (r: Option<String>)
        ensures
            text_opt(r) == (match track_index(self@.tracks, path@) {
                Some(i) => Some(self@.tracks[i].title),
                None => None,
            }),
    {
        let p = chars_of(path);
        match track_index_of(&self.tracks, p.as_slice()) {
            Some(i) => Some(self.tracks[i].title.clone()),
            None => None,
        }
    }

    /// The artist of the track at `path`, when its tags name one.
    pub fn artist_for_path(&self, path: &str) -> (r: Option<String>)
        ensures
            text_opt(r) == (match track_index(self@.tracks, path@) {
                Some(i) => self@.tracks[i].artist,
                None => None,
            }),
    {
        let p = chars_of(path);
        match track_index_of(&self.tracks, p.as_slice()) {
            Some(i) => copy_opt(&self.tracks[i].artist),
            None => None,
        }
    }

    /// The album of the track at `path`, when its tags name one.
    pub fn album_for_path(&self, path: &str) -> (r: Option<String>)
        ensures
            text_opt(r) == (match track_index(self@.tracks, path@) {
                Some(i) => self@.tracks[i].album,
                None => None,
            }),
    {
        let p = chars_of(path);
        match track_index_of(&self.tracks, p.as_slice()) {
            Some(i) => copy_opt(&self.tracks[i].album),
            None => None,
        }
    }
}

// ---------------------------------------------------------------------------
// Queues from paths, opening rows and going back
// ---------------------------------------------------------------------------

/// A track made up for a path the library has not scanned: titled by its file stem.
pub open spec fn new_track(p: Seq<char>) -> TrackView {
    TrackView {
        path: without_verbatim_prefix(p),
        title: match file_stem(without_verbatim_prefix(p)) {
            Some(s) => s,
            None => "unknown"@,
        },
        artist: None,
        album: None,
    }
}

/// The position of the track at `p`, adding a made-up track when there is none.
pub open spec fn ensure_track(t: Seq<TrackView>, p: Seq<char>) -> (Seq<TrackView>, usize) {
    match track_index(t, p) {
        Some(i) => (t, i as usize),
        None => (t.push(new_track(p)), t.len() as usize),
    }
}

/// The queue for a list of paths, and the tracks once the missing ones are added.
pub open spec fn queue_from(t: Seq<TrackView>, paths: Seq<Seq<char>>) -> (Seq<TrackView>, Seq<usize>)
    decreases paths.len(),
{
    if paths.len() == 0 {
        (t, seq![])
    } else {
        let (t1, q) = queue_from(t, paths.drop_last());
        let (t2, i) = ensure_track(t1, paths.last());
        (t2, q.push(i))
    }
}

pub proof fn lemma_queue_from_bounded(t: Seq<TrackView>, paths: Seq<Seq<char>>)
    ensures
        queue_from(t, paths).1.len() == paths.len(),
        queue_from(t, paths).0.len() >= t.len(),
        forall|k: int| 0 <= k < queue_from(t, paths).1.len() ==> (#[trigger] queue_from(t, paths).1[k] as int)
            < queue_from(t, paths).0.len(),
    decreases paths.len(),
{
    if paths.len() > 0 {
        lemma_queue_from_bounded(t, paths.drop_last());
        let (t1, q) = queue_from(t, paths.drop_last());
        match track_index(t1, paths.last()) {
            Some(i) => {
                assert(is_last_key_match(t1, paths.last(), i) || is_first_same(t1, paths.last(), i));
            },
            None => {},
        }
    }
}

/// The paths of the track rows, in order.
pub open spec fn track_entry_paths(e: Seq<EntryView>) -> Seq<Seq<char>>
    decreases e.len(),
{
    if e.len() == 0 {
        seq![]
    } else if e.last().kind == BrowserEntryKind::Track {
        track_entry_paths(e.drop_last()).push(e.last().path)
    } else {
        track_entry_paths(e.drop_last())
    }
}

pub open spec fn count_track_rows(e: Seq<EntryView>) -> nat
    decreases e.len(),
{
    if e.len() == 0 {
        0
    } else {
        count_track_rows(e.drop_last()) + if e.last().kind == BrowserEntryKind::Track {
            1nat
        } else {
            0nat
        }
    }
}

pub open spec fn root_depth(f: Seq<char>) -> nat {
    crate::paths::components(f).len()
}

/// The added folder holding `cur` with the most components, the last of equals.
pub open spec fn is_deepest_root(f: Seq<Seq<char>>, cur: Seq<char>, i: int) -> bool {
    &&& 0 <= i < f.len()
    &&& path_within(cur, f[i])
    &&& forall|j: int| 0 <= j < f.len() && path_within(cur, f[j]) ==> root_depth(f[j]) <= root_depth(f[i])
    &&& forall|j: int| i < j < f.len() && path_within(cur, f[j]) ==> root_depth(f[j]) < root_depth(f[i])
}

pub open spec fn deepest_root(f: Seq<Seq<char>>, cur: Seq<char>) -> Option<int> {
    if exists|i: int| is_deepest_root(f, cur, i) {
        Some(choose|i: int| is_deepest_root(f, cur, i))
    } else {
        None
    }
}

/// Where going back from folder `cur` leads: its parent while that stays inside the added
/// folder holding it, else the top.
pub open spec fn back_from_folder(f: Seq<Seq<char>>, cur: Seq<char>) -> Option<Seq<char>> {
    match deepest_root(f, cur) {
        Some(i) => if same_path(cur, f[i]) {
            None
        } else {
            match crate::paths::parent(cur) {
                Some(p) => if path_within(p, f[i]) {
                    Some(p)
                } else {
                    None
                },
                None => None,
            }
        },
        None => None,
    }
}

pub open spec fn navigate_back_outcome(v: CoreView) -> CoreView {
    if v.browser_playlist is Some {
        with_status(refreshed(CoreView { browser_playlist: None, selected_browser: 0, ..v }), "Went back"@)
    } else if v.browser_all_songs {
        with_status(refreshed(CoreView { browser_all_songs: false, selected_browser: 0, ..v }), "Went back"@)
    } else {
        match v.browser_path {
            None => v,
            Some(cur) => with_status(
                refreshed(CoreView { browser_path: back_from_folder(v.folders, cur), selected_browser: 0, ..v }),
                "Went back"@,
            ),
        }
    }
}

/// The queue that playing a track row sets up: the open playlist, all songs by title, the
/// open folder's tracks, or the library by title at the top.
pub open spec fn track_queue(v: CoreView) -> (Seq<TrackView>, Seq<usize>) {
    match v.browser_playlist {
        Some(name) => match playlist_position(v.playlists, name) {
            Some(i) => queue_from(v.tracks, v.playlists[i].tracks),
            None => (v.tracks, seq![]),
        },
        None => if v.browser_all_songs {
            (v.tracks, title_order(v.tracks))
        } else if v.browser_path is Some {
            queue_from(v.tracks, track_entry_paths(v.browser_entries))
        } else {
            (v.tracks, title_order(v.tracks))
        },
    }
}

/// Opening the selected row: a folder, playlist or all songs is browsed, the back row goes
/// back, and a track starts playing from the queue it belongs to (`order` is the shuffle
/// order drawn for that queue).
pub open spec fn activate_outcome(v: CoreView, order: Seq<usize>) -> (CoreView, Option<Seq<char>>) {
    if v.selected_browser >= v.browser_entries.len() {
        (with_status(v, "Nothing selected"@), None)
    } else {
        let e = v.browser_entries[v.selected_browser as int];
        match e.kind {
            BrowserEntryKind::Back => (navigate_back_outcome(v), None),
            BrowserEntryKind::Folder => (
                with_status(
                    refreshed(CoreView { browser_playlist: None, browser_all_songs: false, browser_path: Some(e.path), selected_browser: 0, ..v }),
                    "Opened folder"@,
                ),
                None,
            ),
            BrowserEntryKind::Playlist => (
                with_status(
                    refreshed(CoreView { browser_path: None, browser_all_songs: false, browser_playlist: Some(e.path), selected_browser: 0, ..v }),
                    "Opened playlist"@,
                ),
                None,
            ),
            BrowserEntryKind::AllSongs => (
                with_status(
                    refreshed(CoreView { browser_path: None, browser_playlist: None, browser_all_songs: true, selected_browser: 0, ..v }),
                    "Opened all songs"@,
                ),
                None,
            ),
            BrowserEntryKind::Track => {
                let (t2, q) = track_queue(v);
                let count = count_track_rows(v.browser_entries.take(v.selected_browser + 1));
                let cur = if v.browser_playlist is Some || v.browser_all_songs || v.browser_path is Some {
                    Some((if count > 0 { count - 1 } else { 0 }) as usize)
                } else {
                    match queue_match(t2, q, e.path) {
                        Some(k) => Some(k as usize),
                        None => None,
                    }
                };
                (
                    with_status(
                        CoreView { tracks: t2, current_queue_index: cur, ..with_queue(v, q, order) },
                        "Playing selected track"@,
                    ),
                    Some(e.path),
                )
            },
        }
    }
}

pub open spec fn load_playlist_outcome(v: CoreView, name: Seq<char>, order: Seq<usize>) -> CoreView {
    match playlist_position(v.playlists, name) {
        None => with_status(v, "Playlist not found"@),
        Some(i) => {
            let (t2, q) = queue_from(v.tracks, v.playlists[i].tracks);
            with_status(
                CoreView { tracks: t2, current_queue_index: None, ..with_queue(v, q, order) },
                "Loaded playlist: "@ + name,
            )
        },
    }
}

pub open spec fn count_eq(s: Seq<usize>, x: usize) -> nat
    decreases s.len(),
{
    if s.len() == 0 {
        0
    } else {
        count_eq(s.drop_last(), x) + if s.last() == x {
            1nat
        } else {
            0nat
        }
    }
}

/// How many track rows show the track at position `x` of the library.
pub open spec fn count_rows_of(t: Seq<TrackView>, e: Seq<EntryView>, x: usize) -> nat
    decreases e.len(),
{
    if e.len() == 0 {
        0
    } else {
        count_rows_of(t, e.drop_last(), x) + if e.last().kind == BrowserEntryKind::Track && track_index(
            t,
            e.last().path,
        ) == Some(x as int) {
            1nat
        } else {
            0nat
        }
    }
}

/// Row `bi` shows the track playing, and as many rows up to it show that track as queue
/// positions up to the playing one hold it (so a repeated track is marked once).
pub open spec fn entry_playing(v: CoreView, bi: usize) -> bool {
    match v.current_queue_index {
        None => false,
        Some(c) => {
            &&& c < v.queue.len()
            &&& bi < v.browser_entries.len()
            &&& v.browser_entries[bi as int].kind == BrowserEntryKind::Track
            &&& track_index(v.tracks, v.browser_entries[bi as int].path) == Some(v.queue[c as int] as int)
            &&& count_eq(v.queue.take(c + 1), v.queue[c as int]) == count_rows_of(
                v.tracks,
                v.browser_entries.take(bi + 1),
                v.queue[c as int],
            )
        },
    }
}

impl TuneCore {
    fn ensure_track_for_path(&mut self, p: &String) -> (r: usize)
        ensures
            (final(self)@.tracks, r) == ensure_track(old(self)@.tracks, p@),
            final(self)@ == (CoreView { tracks: final(self)@.tracks, ..old(self)@ }),
    {
        let cs = chars_of(p.as_str());
        match track_index_of(&self.tracks, cs.as_slice()) {
            Some(i) => i,
            None => {
                let cleaned = strip_verbatim_chars(cs.as_slice());
                let title = match crate::paths::file_stem_of(cleaned.as_slice()) {
                    Some(stem) => string_from_chars(stem.as_slice()),
                    None => "unknown".to_owned(),
                };
                let idx = self.tracks.len();
                let ghost before = self.tracks@;
                let t = Track { path: string_from_chars(cleaned.as_slice()), title, artist: None, album: None };
                assert(t@ == new_track(p@));
                self.tracks.push(t);
                assert(tracks_view(self.tracks@) =~= tracks_view(before).push(t@));
                idx
            },
        }
    }

    fn queue_from_paths(&mut self, paths: &Vec<String>) -> (r: Vec<usize>)
        ensures
            (final(self)@.tracks, r@) == queue_from(old(self)@.tracks, texts(paths@)),
            final(self)@ == (CoreView { tracks: final(self)@.tracks, ..old(self)@ }),
    {
        let ghost ps = texts(paths@);
        let mut q: Vec<usize> = Vec::new();
        let mut i: usize = 0;
        while i < paths.len()
            invariant
                i <= paths.len(),
                ps == texts(paths@),
                (self@.tracks, q@) == queue_from(old(self)@.tracks, ps.take(i as int)),
                self@ == (CoreView { tracks: self@.tracks, ..old(self)@ }),
            decreases paths.len() - i,
        {
            assert(ps.take(i + 1).drop_last() =~= ps.take(i as int));
            assert(ps.take(i + 1).last() == paths@[i as int]@);
            let idx = self.ensure_track_for_path(&paths[i]);
            q.push(idx);
            i += 1;
        }
        assert(ps.take(paths.len() as int) =~= ps);
        q
    }

    fn track_row_paths(&self) -> (r: Vec<String>)
        ensures
            texts(r@) == track_entry_paths(self@.browser_entries),
    {
        let ghost e = self@.browser_entries;
        let mut out: Vec<String> = Vec::new();
        let mut i: usize = 0;
        while i < self.browser_entries.len()
            invariant
                i <= self.browser_entries.len(),
                e == self@.browser_entries,
                texts(out@) == track_entry_paths(e.take(i as int)),
            decreases self.browser_entries.len() - i,
        {
            assert(e.take(i + 1).drop_last() =~= e.take(i as int));
            assert(e.take(i + 1).last() == self.browser_entries@[i as int]@);
            if self.browser_entries[i].kind == BrowserEntryKind::Track {
                let ghost before = out@;
                out.push(self.browser_entries[i].path.clone());
                assert(texts(out@) =~= texts(before).push(self.browser_entries@[i as int].path@));
            }
            i += 1;
        }
        assert(e.take(self.browser_entries.len() as int) =~= e);
        out
    }

    fn count_track_rows_upto(&self, sel: usize) -> (r: usize)
        requires
            sel < self.browser_entries.len(),
        ensures
            r == count_track_rows(self@.browser_entries.take(sel + 1)),
    {
        let ghost e = self@.browser_entries;
        let mut n: usize = 0;
        let mut i: usize = 0;
        while i <= sel
            invariant
                i <= sel + 1,
                sel < self.browser_entries.len(),
                e == self@.browser_entries,
                n == count_track_rows(e.take(i as int)),
                n <= i,
            decreases sel + 1 - i,
        {
            assert(e.take(i + 1).drop_last() =~= e.take(i as int));
            assert(e.take(i + 1).last() == self.browser_entries@[i as int]@);
            if self.browser_entries[i].kind == BrowserEntryKind::Track {
                n += 1;
            }
            i += 1;
        }
        n
    }

    fn deepest_root_of(&self, cur: &[char]) -> (r: Option<usize>)
        ensures
            match r {
                Some(i) => deepest_root(self@.folders, cur@) == Some(i as int) && i < self.folders.len(),
                None => deepest_root(self@.folders, cur@) is None,
            },
    {
        let ghost f = self@.folders;
        let mut best: Option<usize> = None;
        let mut best_depth: usize = 0;
        let mut j: usize = 0;
        while j < self.folders.len()
            invariant
                j <= self.folders.len(),
                f == self@.folders,
                match best {
                    None => forall|k: int| 0 <= k < j ==> !path_within(cur@, f[k]),
                    Some(b) => {
                        &&& b < j
                        &&& path_within(cur@, f[b as int])
                        &&& best_depth == root_depth(f[b as int])
                        &&& forall|k: int| 0 <= k < j && path_within(cur@, f[k]) ==> root_depth(f[k]) <= root_depth(f[b as int])
                        &&& forall|k: int| b < k < j && path_within(cur@, f[k]) ==> root_depth(f[k]) < root_depth(f[b as int])
                    },
                },
            decreases self.folders.len() - j,
        {
            let fc = chars_of(self.folders[j].as_str());
            assert(f[j as int] == self.folders@[j as int]@);
            if crate::paths::path_is_within(cur, fc.as_slice()) {
                let depth = crate::paths::path_components(fc.as_slice()).len();
                let better = match best {
                    None => true,
                    Some(_) => depth >= best_depth,
                };
                if better {
                    best = Some(j);
                    best_depth = depth;
                }
            }
            j += 1;
        }
        match best {
            Some(b) => {
                assert(is_deepest_root(f, cur@, b as int));
                proof {
                    let c = choose|c: int| is_deepest_root(f, cur@, c);
                    if c < b {
                        assert(root_depth(f[b as int]) < root_depth(f[c]));
                    }
                    if c > b {
                        assert(root_depth(f[c]) < root_depth(f[b as int]));
                    }
                }
                Some(b)
            },
            None => None,
        }
    }

    /// Goes back one level: out of a playlist or all songs, up a folder while staying in the
    /// added folder, or from an added folder to the top.
    pub fn navigate_back(&mut self)
        ensures
            final(self)@ == navigate_back_outcome(old(self)@),
            old(self)@.sound() ==> final(self)@.sound(),
    {
        if self.browser_playlist.is_some() {
            self.browser_playlist = None;
            self.selected_browser = 0;
            self.refresh_browser_entries();
            self.set_status("Went back");
            return;
        }
        if self.browser_all_songs {
            self.browser_all_songs = false;
            self.selected_browser = 0;
            self.refresh_browser_entries();
            self.set_status("Went back");
            return;
        }
        let cur = match &self.browser_path {
            Some(c) => chars_of(c.as_str()),
            None => return ,
        };
        let next = match self.deepest_root_of(cur.as_slice()) {
            Some(i) => {
                let root = chars_of(self.folders[i].as_str());
                assert(self@.folders[i as int] == self.folders@[i as int]@);
                if paths_equal(cur.as_slice(), root.as_slice()) {
                    None
                } else {
                    match crate::paths::parent_of(cur.as_slice()) {
                        Some(p) => {
                            if crate::paths::path_is_within(p.as_slice(), root.as_slice()) {
                                Some(string_from_chars(p.as_slice()))
                            } else {
                                None
                            }
                        },
                        None => None,
                    }
                }
            },
            None => None,
        };
        self.browser_path = next;
        self.selected_browser = 0;
        self.refresh_browser_entries();
        self.set_status("Went back");
    }

    fn selected_row_kind_path(&self) -> (r: Option<(BrowserEntryKind, String)>)
        ensures
            match r {
                Some((k, p)) => self.selected_browser < self.browser_entries.len()
                    && self@.browser_entries[self.selected_browser as int].kind == k
                    && self@.browser_entries[self.selected_browser as int].path == p@,
                None => self.selected_browser >= self.browser_entries.len(),
            },
    {
        if self.selected_browser < self.browser_entries.len() {
            let e = &self.browser_entries[self.selected_browser];
            assert(self@.browser_entries[self.selected_browser as int] == e@);
            Some((e.kind, e.path.clone()))
        } else {
            None
        }
    }

    fn open_folder(&mut self, path: String)
        ensures
            final(self)@ == with_status(
                refreshed(CoreView { browser_playlist: None, browser_all_songs: false, browser_path: Some(path@), selected_browser: 0, ..old(self)@ }),
                "Opened folder"@,
            ),
    {
        self.browser_playlist = None;
        self.browser_all_songs = false;
        self.browser_path = Some(path);
        self.selected_browser = 0;
        self.refresh_browser_entries();
        self.set_status("Opened folder");
    }

    fn open_playlist(&mut self, name: String)
        ensures
            final(self)@ == with_status(
                refreshed(CoreView { browser_path: None, browser_all_songs: false, browser_playlist: Some(name@), selected_browser: 0, ..old(self)@ }),
                "Opened playlist"@,
            ),
    {
        self.browser_path = None;
        self.browser_all_songs = false;
        self.browser_playlist = Some(name);
        self.selected_browser = 0;
        self.refresh_browser_entries();
        self.set_status("Opened playlist");
    }

    fn open_all_songs(&mut self)
        ensures
            final(self)@ == with_status(
                refreshed(CoreView { browser_path: None, browser_playlist: None, browser_all_songs: true, selected_browser: 0, ..old(self)@ }),
                "Opened all songs"@,
            ),
    {
        self.browser_path = None;
        self.browser_playlist = None;
        self.browser_all_songs = true;
        self.selected_browser = 0;
        self.refresh_browser_entries();
        self.set_status("Opened all songs");
    }

    fn selected_track_queue(&mut self) -> (r: Vec<usize>)
        ensures
            (final(self)@.tracks, r@) == track_queue(old(self)@),
            final(self)@ == (CoreView { tracks: final(self)@.tracks, ..old(self)@ }),
    {
        let ghost v = self@;
        match &self.browser_playlist {
            Some(name) => {
                let n = name.clone();
                match playlist_position_of(&self.playlists, n.as_str()) {
                    Some(i) => {
                        let paths = copy_strings(&self.playlists[i].tracks);
                        assert(texts(paths@) == v.playlists[i as int].tracks);
                        self.queue_from_paths(&paths)
                    },
                    None => {
                        let e: Vec<usize> = Vec::new();
                        assert(e@ =~= seq![]);
                        e
                    },
                }
            },
            None => {
                if self.browser_all_songs {
                    title_order_of(&self.tracks)
                } else if self.browser_path.is_some() {
                    let paths = self.track_row_paths();
                    self.queue_from_paths(&paths)
                } else {
                    title_order_of(&self.tracks)
                }
            },
        }
    }

    fn play_selected_track(&mut self, path: String)
        requires
            old(self).selected_browser < old(self).browser_entries.len(),
            old(self)@.browser_entries[old(self)@.selected_browser as int].kind == BrowserEntryKind::Track,
            old(self)@.browser_entries[old(self)@.selected_browser as int].path == path@,
        ensures
            final(self)@ == activate_outcome(old(self)@, final(self)@.shuffle_order).0,
            is_order_of(final(self)@.shuffle_order, final(self)@.queue.len()),
    {
        let ghost v = self@;
        let sel = self.selected_browser;
        let browsing = self.browser_playlist.is_some() || self.browser_all_songs || self.browser_path.is_some();
        let count = self.count_track_rows_upto(sel);
        let q = self.selected_track_queue();
        self.queue = q;
        self.rebuild_shuffle_order();
        let cur = if browsing {
            Some(if count > 0 {
                count - 1
            } else {
                0
            })
        } else {
            let pc = chars_of(path.as_str());
            self.queue_match_exec(pc.as_slice())
        };
        self.current_queue_index = cur;
        self.dirty = true;
        self.set_status("Playing selected track");
    }

    /// Opens the selected row; for a track row, sets up its queue and gives the track's path
    /// to play.
    pub fn activate_selected(&mut self) -> (r: Option<String>)
        ensures
            (final(self)@, text_opt(r)) == activate_outcome(old(self)@, final(self)@.shuffle_order),
            (old(self)@.selected_browser < old(self)@.browser_entries.len()
                && old(self)@.browser_entries[old(self)@.selected_browser as int].kind == BrowserEntryKind::Track)
                ==> is_order_of(final(self)@.shuffle_order, final(self)@.queue.len()),
    {
        let (kind, path) = match self.selected_row_kind_path() {
            Some(x) => x,
            None => {
                self.set_status("Nothing selected");
                return None;
            },
        };
        match kind {
            BrowserEntryKind::Back => {
                self.navigate_back();
                None
            },
            BrowserEntryKind::Folder => {
                self.open_folder(path);
                None
            },
            BrowserEntryKind::Playlist => {
                self.open_playlist(path);
                None
            },
            BrowserEntryKind::AllSongs => {
                self.open_all_songs();
                None
            },
            BrowserEntryKind::Track => {
                let out = path.clone();
                self.play_selected_track(path);
                Some(out)
            },
        }
    }

    fn queue_match_exec(&self, p: &[char]) -> (r: Option<usize>)
        ensures
            match r {
                Some(k) => queue_match(self@.tracks, self@.queue, p@) == Some(k as int),
                None => queue_match(self@.tracks, self@.queue, p@) is None,
            },
    {
        let s = string_from_chars(p);
        self.queue_position_for_path(s.as_str())
    }

    /// The play queue becomes a playlist's tracks, nothing playing yet.
    pub fn load_playlist_queue(&mut self, name: &str)
        ensures
            final(self)@ == load_playlist_outcome(old(self)@, name@, final(self)@.shuffle_order),
            playlist_position(old(self)@.playlists, name@) is Some ==> is_order_of(final(self)@.shuffle_order, final(self)@.queue.len()),
            old(self)@.sound() ==> final(self)@.sound(),
    {
        let i = match playlist_position_of(&self.playlists, name) {
            Some(i) => i,
            None => {
                self.set_status("Playlist not found");
                return;
            },
        };
        let ghost v = self@;
        let paths = copy_strings(&self.playlists[i].tracks);
        assert(texts(paths@) == v.playlists[i as int].tracks);
        let q = self.queue_from_paths(&paths);
        proof {
            lemma_queue_from_bounded(v.tracks, v.playlists[i as int].tracks);
        }
        self.queue = q;
        self.current_queue_index = None;
        self.rebuild_shuffle_order();
        let mut msg = chars_of("Loaded playlist: ");
        crate::text::extend_str(&mut msg, name);
        let text = string_from_chars(msg.as_slice());
        self.set_status(text.as_str());
        self.dirty = true;
        proof {
            lemma_order_bounded(self@.shuffle_order, self@.queue.len());
        }
    }
}

// ---------------------------------------------------------------------------
// Marking the row that plays, folder listings and the folder list
// ---------------------------------------------------------------------------

/// The forms a folder given by the user is looked for under: as typed, without copy marks,
/// without invisible characters, and as found on disk.
pub open spec fn folder_candidates(input: Seq<char>, existing: Option<Seq<char>>) -> Seq<Seq<char>> {
    let s1 = seq![input];
    let s2 = if crate::config::sanitized_folder(input).len() > 0 {
        s1.push(crate::config::sanitized_folder(input))
    } else {
        s1
    };
    let s3 = if display_text(input).len() > 0 {
        s2.push(display_text(input))
    } else {
        s2
    };
    match existing {
        Some(e) => s3.push(e),
        None => s3,
    }
}

pub open spec fn matches_any(f: Seq<char>, c: Seq<Seq<char>>) -> bool {
    exists|k: int| 0 <= k < c.len() && same_path(f, c[k])
}

/// The folders that none of the candidates names.
pub open spec fn kept_folders(f: Seq<Seq<char>>, c: Seq<Seq<char>>) -> Seq<Seq<char>>
    decreases f.len(),
{
    if f.len() == 0 {
        seq![]
    } else if matches_any(f.last(), c) {
        kept_folders(f.drop_last(), c)
    } else {
        kept_folders(f.drop_last(), c).push(f.last())
    }
}

pub proof fn lemma_kept_len(f: Seq<Seq<char>>, c: Seq<Seq<char>>)
    ensures
        kept_folders(f, c).len() <= f.len(),
    decreases f.len(),
{
    if f.len() > 0 {
        lemma_kept_len(f.drop_last(), c);
    }
}

pub open spec fn remove_folder_outcome(v: CoreView, input: Seq<char>, existing: Option<Seq<char>>) -> CoreView {
    if input.len() == 0 {
        with_status(v, "Invalid folder path"@)
    } else {
        let kept = kept_folders(v.folders, folder_candidates(input, existing));
        if kept.len() == v.folders.len() {
            with_status(v, "Folder not found"@)
        } else {
            with_status(
                refreshed(CoreView { folders: kept, browser_path: None, browser_all_songs: false, selected_browser: 0, ..v }),
                "Folder removed"@,
            )
        }
    }
}

fn count_value(s: &Vec<usize>, upto: usize, x: usize) -> (r: usize)
    requires
        upto <= s.len(),
    ensures
        r == count_eq(s@.take(upto as int), x),
{
    let mut n: usize = 0;
    let mut i: usize = 0;
    while i < upto
        invariant
            i <= upto <= s.len(),
            n == count_eq(s@.take(i as int), x),
            n <= i,
        decreases upto - i,
    {
        assert(s@.take(i + 1).drop_last() =~= s@.take(i as int));
        if s[i] == x {
            n += 1;
        }
        i += 1;
    }
    n
}

impl TuneCore {
    fn count_rows_showing(&self, upto: usize, x: usize) -> (r: usize)
        requires
            upto <= self.browser_entries.len(),
        ensures
            r == count_rows_of(self@.tracks, self@.browser_entries.take(upto as int), x),
    {
        let ghost e = self@.browser_entries;
        let mut n: usize = 0;
        let mut i: usize = 0;
        while i < upto
            invariant
                i <= upto <= self.browser_entries.len(),
                e == self@.browser_entries,
                n == count_rows_of(self@.tracks, e.take(i as int), x),
                n <= i,
            decreases upto - i,
        {
            assert(e.take(i + 1).drop_last() =~= e.take(i as int));
            assert(e.take(i + 1).last() == self.browser_entries@[i as int]@);
            if self.browser_entries[i].kind == BrowserEntryKind::Track {
                let cs = chars_of(self.browser_entries[i].path.as_str());
                match track_index_of(&self.tracks, cs.as_slice()) {
                    Some(t) => {
                        if t == x {
                            n += 1;
                        }
                    },
                    None => {},
                }
            }
            i += 1;
        }
        n
    }

    /// Whether row `browser_index` shows the track playing (see `entry_playing`).
    pub fn is_browser_entry_playing(&self, browser_index: usize) -> (r: bool)
        ensures
            r == entry_playing(self@, browser_index),
    {
        let c = match self.current_queue_index {
            Some(c) => c,
            None => return false,
        };
        if c >= self.queue.len() {
            return false;
        }
        let t = self.queue[c];
        if browser_index >= self.browser_entries.len() {
            return false;
        }
        let e = &self.browser_entries[browser_index];
        assert(self@.browser_entries[browser_index as int] == e@);
        if e.kind != BrowserEntryKind::Track {
            return false;
        }
        let cs = chars_of(e.path.as_str());
        match track_index_of(&self.tracks, cs.as_slice()) {
            Some(et) => {
                if et != t {
                    return false;
                }
            },
            None => return false,
        }
        let qo = count_value(&self.queue, c + 1, t);
        let eo = self.count_rows_showing(browser_index + 1, t);
        qo == eo
    }

    /// The folder whose listing the browser waits for: the open folder, when the listing held
    /// is of another one.
    pub fn pending_listing(&self) -> (r: Option<String>)
        ensures
            text_opt(r) == (if self@.browser_playlist is None && !self@.browser_all_songs
                && self@.browser_path is Some && self@.listing_path != self@.browser_path {
                self@.browser_path
            } else {
                None
            }),
    {
        if self.browser_playlist.is_some() || self.browser_all_songs {
            return None;
        }
        match &self.browser_path {
            Some(p) => {
                let same = match &self.listing_path {
                    Some(l) => crate::text::str_eq(l.as_str(), p.as_str()),
                    None => false,
                };
                if same {
                    None
                } else {
                    Some(p.clone())
                }
            },
            None => None,
        }
    }

    /// Takes the items the file system lists in folder `path` and shows them when it is the
    /// folder being browsed.
    pub fn set_folder_listing(&mut self, path: String, items: Vec<DirectoryItem>)
        ensures
            final(self)@ == refreshed(
                CoreView { listing_path: Some(path@), folder_listing: items_view(items@), ..old(self)@ },
            ),
    {
        self.listing_path = Some(path);
        self.folder_listing = items;
        self.refresh_browser_entries();
    }

    /// The library's tracks become `tracks` (a new scan of its folders): the queue is the
    /// library by title again and the rows are rebuilt.
    pub fn replace_tracks(&mut self, tracks: Vec<Track>)
        ensures
            final(self)@ == refreshed(
                with_queue(
                    CoreView { tracks: tracks_view(tracks@), ..old(self)@ },
                    title_order(tracks_view(tracks@)),
                    final(self)@.shuffle_order,
                ),
            ),
            is_order_of(final(self)@.shuffle_order, tracks@.len()),
    {
        self.tracks = tracks;
        self.rebuild_main_queue();
        self.refresh_browser_entries();
    }

    /// Takes a new scan of the library's folders.
    pub fn rescan(&mut self, tracks: Vec<Track>)
        ensures
            final(self)@ == with_status(
                refreshed(
                    with_queue(
                        CoreView { tracks: tracks_view(tracks@), ..old(self)@ },
                        title_order(tracks_view(tracks@)),
                        final(self)@.shuffle_order,
                    ),
                ),
                "Library rescanned"@,
            ),
            is_order_of(final(self)@.shuffle_order, tracks@.len()),
    {
        self.replace_tracks(tracks);
        self.set_status("Library rescanned");
    }

    /// Removes the added folder that `input` names, in any of its candidate forms
    /// (`existing`: the folder as found on disk). Its tracks leave the library with the next
    /// scan of the remaining folders, handed to `replace_tracks`.
    pub fn remove_folder(&mut self, input: &str, existing: Option<&str>) -> (r: bool)
        ensures
            final(self)@ == remove_folder_outcome(old(self)@, input@, crate::config::opt_text(existing)),
            r == (input@.len() > 0 && kept_folders(old(self)@.folders, folder_candidates(input@, crate::config::opt_text(existing))).len()
                != old(self)@.folders.len()),
    {
        let ic = chars_of(input);
        if ic.len() == 0 {
            self.set_status("Invalid folder path");
            return false;
        }
        let mut cands: Vec<Vec<char>> = Vec::new();
        cands.push(chars_of(input));
        let sanitized = crate::config::sanitize_user_folder_path(input);
        let sc = chars_of(sanitized.as_str());
        if sc.len() > 0 {
            cands.push(sc);
        }
        let dc = sanitize_display_chars(ic.as_slice());
        if dc.len() > 0 {
            cands.push(dc);
        }
        match existing {
            Some(e) => cands.push(chars_of(e)),
            None => {},
        }
        let ghost cv = cands@.map_values(|c: Vec<char>| c@);
        assert(cv =~= folder_candidates(input@, crate::config::opt_text(existing)));
        let ghost f = self@.folders;
        let mut kept: Vec<String> = Vec::new();
        let mut i: usize = 0;
        while i < self.folders.len()
            invariant
                i <= self.folders.len(),
                f == self@.folders,
                cv == cands@.map_values(|c: Vec<char>| c@),
                texts(kept@) == kept_folders(f.take(i as int), cv),
            decreases self.folders.len() - i,
        {
            assert(f.take(i + 1).drop_last() =~= f.take(i as int));
            assert(f.take(i + 1).last() == self.folders@[i as int]@);
            let fc = chars_of(self.folders[i].as_str());
            let mut hit = false;
            let mut k: usize = 0;
            while k < cands.len()
                invariant
                    k <= cands.len(),
                    cv == cands@.map_values(|c: Vec<char>| c@),
                    hit == exists|m: int| 0 <= m < k && same_path(fc@, cv[m]),
                decreases cands.len() - k,
            {
                assert(cv[k as int] == cands@[k as int]@);
                if paths_equal(fc.as_slice(), cands[k].as_slice()) {
                    hit = true;
                }
                k += 1;
                assert(hit == exists|m: int| 0 <= m < k && same_path(fc@, cv[m])) by {
                    if !hit {
                        assert forall|m: int| 0 <= m < k implies !same_path(fc@, cv[m]) by {
                            if m < k - 1 {
                                if same_path(fc@, cv[m]) {
                                    assert(exists|mm: int| 0 <= mm < k - 1 && same_path(fc@, cv[mm]));
                                }
                            }
                        }
                    }
                }
            }
            if !hit {
                let ghost before = kept@;
                kept.push(self.folders[i].clone());
                assert(texts(kept@) =~= texts(before).push(self.folders@[i as int]@));
            }
            i += 1;
        }
        assert(f.take(self.folders.len() as int) =~= f);
        if kept.len() == self.folders.len() {
            self.set_status("Folder not found");
            return false;
        }
        self.folders = kept;
        self.browser_path = None;
        self.browser_all_songs = false;
        self.selected_browser = 0;
        self.refresh_browser_entries();
        self.set_status("Folder removed");
        true
    }

    /// What is saved of the library.
    pub fn persisted_state(&self) -> (r: PersistedLibrary)
        ensures
            texts(r.folders@) == self@.folders,
            playlists_view(r.playlists@) == self@.playlists,
            r.playback_mode == self@.playback_mode,
            r.loudness_normalization == self@.loudness_normalization,
            r.crossfade_seconds == self@.crossfade_seconds,
            r.scrub_seconds == self@.scrub_seconds,
            r.theme == self@.theme,
            r.stats_enabled == self@.stats_enabled,
    {
        PersistedLibrary {
            folders: copy_strings(&self.folders),
            playlists: copy_playlists(&self.playlists),
            playback_mode: self.playback_mode,
            loudness_normalization: self.loudness_normalization,
            crossfade_seconds: self.crossfade_seconds,
            scrub_seconds: self.scrub_seconds,
            theme: self.theme,
            stats_enabled: self.stats_enabled,
        }
    }
}

/// Rebuilding the rows keeps the library sound: it only replaces the rows and keeps the
/// selection on one of them.
pub proof fn refresh_keeps_state_sound(v: CoreView)
    requires
        v.sound(),
    ensures
        refreshed(v).sound(),
{
}

// ---------------------------------------------------------------------------
// Adding a folder: tracks kept in path order without repeats
// ---------------------------------------------------------------------------

/// How `std::path::Component`s order: the root, then `.`, then `..`, then names.
pub open spec fn comp_rank(c: Seq<char>) -> nat {
    if c == seq!['/'] {
        0
    } else if c == seq!['.'] {
        1
    } else if c == seq!['.', '.'] {
        2
    } else {
        3
    }
}

pub open spec fn comp_le(x: Seq<char>, y: Seq<char>) -> bool {
    comp_rank(x) < comp_rank(y) || (comp_rank(x) == comp_rank(y) && (comp_rank(x) < 3 || text_le(x, y)))
}

/// Paths compare by their components, one after the other (as `Path`'s order does).
pub open spec fn comps_le(x: Seq<Seq<char>>, y: Seq<Seq<char>>) -> bool
    decreases x.len(),
{
    if x.len() == 0 {
        true
    } else if y.len() == 0 {
        false
    } else if x[0] != y[0] {
        comp_le(x[0], y[0])
    } else {
        comps_le(x.skip(1), y.skip(1))
    }
}

pub open spec fn path_le(a: Seq<char>, b: Seq<char>) -> bool {
    comps_le(crate::paths::components(a), crate::paths::components(b))
}

/// `x` placed after every trailing track whose path does not come after its own.
pub open spec fn insert_by_path(sorted: Seq<TrackView>, x: TrackView) -> Seq<TrackView>
    decreases sorted.len(),
{
    if sorted.len() == 0 {
        seq![x]
    } else if path_le(sorted.last().path, x.path) {
        sorted.push(x)
    } else {
        insert_by_path(sorted.drop_last(), x).push(sorted.last())
    }
}

/// Tracks in path order, equal paths kept in their order (what a stable sort by path gives).
pub open spec fn sort_by_path(t: Seq<TrackView>) -> Seq<TrackView>
    decreases t.len(),
{
    if t.len() == 0 {
        t
    } else {
        insert_by_path(sort_by_path(t.drop_last()), t.last())
    }
}

/// Runs of tracks with the same path (by components) reduced to their first.
pub open spec fn dedup_paths(t: Seq<TrackView>) -> Seq<TrackView>
    decreases t.len(),
{
    if t.len() == 0 {
        t
    } else {
        let prev = dedup_paths(t.drop_last());
        if prev.len() > 0 && crate::paths::components(prev.last().path) == crate::paths::components(t.last().path) {
            prev
        } else {
            prev.push(t.last())
        }
    }
}

/// What adding a folder decides before its tracks are scanned: the text must name a path,
/// the folder must exist and be a folder (`found`: its path as found on disk and whether it
/// is a folder), and it must not be added already.
pub open spec fn add_folder_outcome(v: CoreView, input: Seq<char>, found: Option<(Seq<char>, bool)>) -> CoreView {
    if crate::config::sanitized_folder(input).len() == 0 {
        with_status(v, "Invalid folder path"@)
    } else {
        match found {
            None => with_status(v, "Folder not found"@),
            Some((p, is_dir)) => if !is_dir {
                with_status(v, "Path is not a folder"@)
            } else if exists|i: int| 0 <= i < v.folders.len() && crate::paths::components(v.folders[i])
                == crate::paths::components(p) {
                with_status(v, "Folder already added"@)
            } else {
                CoreView { folders: v.folders.push(p), ..v }
            },
        }
    }
}

proof fn lemma_insert_by_path_at(sorted: Seq<TrackView>, x: TrackView, p: int)
    requires
        0 <= p <= sorted.len(),
        p == 0 || path_le(sorted[p - 1].path, x.path),
        forall|k: int| p <= k < sorted.len() ==> !path_le(sorted[k].path, x.path),
    ensures
        insert_by_path(sorted, x) == sorted.take(p).push(x) + sorted.skip(p),
    decreases sorted.len(),
{
    if sorted.len() == 0 {
        assert(sorted.take(p).push(x) + sorted.skip(p) =~= seq![x]);
    } else if p == sorted.len() {
        assert(sorted.take(p) =~= sorted);
        assert(sorted.take(p).push(x) + sorted.skip(p) =~= sorted.push(x));
    } else {
        lemma_insert_by_path_at(sorted.drop_last(), x, p);
        assert(sorted.drop_last().take(p) =~= sorted.take(p));
        assert((sorted.take(p).push(x) + sorted.drop_last().skip(p)).push(sorted.last())
            =~= sorted.take(p).push(x) + sorted.skip(p));
    }
}

fn comp_rank_exec(c: &Vec<char>) -> (r: u8)
    ensures
        r as nat == comp_rank(c@),
{
    if c.len() == 1 && c[0] == '/' {
        assert(c@ =~= seq!['/']);
        return 0;
    }
    if c.len() == 1 && c[0] == '.' {
        assert(c@ =~= seq!['.']);
        assert(c@ != seq!['/']) by {
            assert(c@[0] != seq!['/'][0]);
        }
        return 1;
    }
    if c.len() == 2 && c[0] == '.' && c[1] == '.' {
        assert(c@ =~= seq!['.', '.']);
        return 2;
    }
    assert(c@ != seq!['/']) by {
        if c@.len() == 1 {
            assert(c@[0] != seq!['/'][0]);
        }
    }
    assert(c@ != seq!['.']) by {
        if c@.len() == 1 {
            assert(c@[0] != seq!['.'][0]);
        }
    }
    assert(c@ != seq!['.', '.']) by {
        if c@.len() == 2 {
            if c@[0] != '.' {
                assert(c@[0] != seq!['.', '.'][0]);
            } else {
                assert(c@[1] != seq!['.', '.'][1]);
            }
        }
    }
    3
}

fn comps_le_exec(x: &Vec<Vec<char>>, y: &Vec<Vec<char>>) -> (r: bool)
    ensures
        r == comps_le(crate::paths::comp_views(x@), crate::paths::comp_views(y@)),
{
    let ghost xv = crate::paths::comp_views(x@);
    let ghost yv = crate::paths::comp_views(y@);
    let mut i: usize = 0;
    assert(xv.skip(0) =~= xv);
    assert(yv.skip(0) =~= yv);
    while i < x.len()
        invariant
            i <= x.len(),
            i <= y.len(),
            xv == crate::paths::comp_views(x@),
            yv == crate::paths::comp_views(y@),
            comps_le(xv, yv) == comps_le(xv.skip(i as int), yv.skip(i as int)),
        decreases x.len() - i,
    {
        if i >= y.len() {
            return false;
        }
        assert(xv.skip(i as int)[0] == x@[i as int]@);
        assert(yv.skip(i as int)[0] == y@[i as int]@);
        if !chars_eq(x[i].as_slice(), y[i].as_slice()) {
            let rx = comp_rank_exec(&x[i]);
            let ry = comp_rank_exec(&y[i]);
            if rx < ry {
                return true;
            }
            if rx > ry {
                return false;
            }
            if rx < 3 {
                return true;
            }
            return text_le_exec(x[i].as_slice(), y[i].as_slice());
        }
        assert(xv.skip(i as int).skip(1) =~= xv.skip(i + 1));
        assert(yv.skip(i as int).skip(1) =~= yv.skip(i + 1));
        i += 1;
    }
    true
}

fn path_components_of(t: &Track) -> (r: Vec<Vec<char>>)
    ensures
        crate::paths::comp_views(r@) == crate::paths::components(t.path@),
{
    let cs = chars_of(t.path.as_str());
    crate::paths::path_components(cs.as_slice())
}

/// Tracks put in path order by inserting each after the ones not coming after it.
fn sort_tracks_by_path(tracks: Vec<Track>) -> (r: Vec<Track>)
    ensures
        tracks_view(r@) == sort_by_path(tracks_view(tracks@)),
{
    let ghost input = tracks_view(tracks@);
    let mut out: Vec<Track> = Vec::new();
    let mut i: usize = 0;
    while i < tracks.len()
        invariant
            i <= tracks.len(),
            input == tracks_view(tracks@),
            tracks_view(out@) == sort_by_path(input.take(i as int)),
        decreases tracks.len() - i,
    {
        assert(input.take(i + 1).drop_last() =~= input.take(i as int));
        assert(input.take(i + 1).last() == tracks@[i as int]@);
        let x = tracks[i].copy();
        let xc = path_components_of(&x);
        let ghost sorted = tracks_view(out@);
        let mut p = out.len();
        while p > 0 && !comps_le_exec(&path_components_of(&out[p - 1]), &xc)
            invariant
                p <= out.len(),
                sorted == tracks_view(out@),
                crate::paths::comp_views(xc@) == crate::paths::components(x@.path),
                forall|k: int| p <= k < out.len() ==> !path_le(sorted[k].path, x@.path),
            decreases p,
        {
            p -= 1;
        }
        proof {
            lemma_insert_by_path_at(sorted, x@, p as int);
        }
        let ghost xv = x@;
        out.insert(p, x);
        assert(tracks_view(out@) =~= sorted.take(p as int).push(xv) + sorted.skip(p as int));
        i += 1;
    }
    assert(input.take(tracks.len() as int) =~= input);
    out
}

fn dedup_tracks_by_path(tracks: Vec<Track>) -> (r: Vec<Track>)
    ensures
        tracks_view(r@) == dedup_paths(tracks_view(tracks@)),
{
    let ghost input = tracks_view(tracks@);
    let mut out: Vec<Track> = Vec::new();
    let mut last: Vec<Vec<char>> = Vec::new();
    let mut i: usize = 0;
    while i < tracks.len()
        invariant
            i <= tracks.len(),
            input == tracks_view(tracks@),
            tracks_view(out@) == dedup_paths(input.take(i as int)),
            out@.len() > 0 ==> crate::paths::comp_views(last@) == crate::paths::components(tracks_view(out@).last().path),
        decreases tracks.len() - i,
    {
        assert(input.take(i + 1).drop_last() =~= input.take(i as int));
        assert(input.take(i + 1).last() == tracks@[i as int]@);
        let c = path_components_of(&tracks[i]);
        let same = if out.len() > 0 && c.len() == last.len() {
            let mut k: usize = 0;
            let mut eq = true;
            assert(crate::paths::comp_views(c@).take(0) =~= crate::paths::comp_views(last@).take(0));
            while k < c.len()
                invariant
                    k <= c.len(),
                    c.len() == last.len(),
                    eq == (crate::paths::comp_views(c@).take(k as int) == crate::paths::comp_views(last@).take(k as int)),
                decreases c.len() - k,
            {
                let ghost before = eq;
                if !chars_eq(c[k].as_slice(), last[k].as_slice()) {
                    eq = false;
                }
                k += 1;
                proof {
                    let cv = crate::paths::comp_views(c@);
                    let lv = crate::paths::comp_views(last@);
                    assert(cv[k - 1] == c@[k - 1]@);
                    assert(lv[k - 1] == last@[k - 1]@);
                    if eq {
                        assert(cv.take(k as int) =~= lv.take(k as int));
                    } else if !before {
                        assert(cv.take(k as int).take(k - 1) =~= cv.take(k - 1));
                        assert(lv.take(k as int).take(k - 1) =~= lv.take(k - 1));
                    } else {
                        assert(cv.take(k as int)[k - 1] != lv.take(k as int)[k - 1]);
                    }
                }
            }
            assert(crate::paths::comp_views(c@).take(c.len() as int) =~= crate::paths::comp_views(c@));
            assert(crate::paths::comp_views(last@).take(c.len() as int) =~= crate::paths::comp_views(last@));
            eq
        } else {
            false
        };
        if !same {
            let ghost before = out@;
            let t = tracks[i].copy();
            out.push(t);
            assert(tracks_view(out@) =~= tracks_view(before).push(t@));
            last = c;
        }
        i += 1;
    }
    assert(input.take(tracks.len() as int) =~= input);
    out
}

/// The tracks of several scanned folders in path order, each path once.
pub fn sorted_unique_tracks(tracks: Vec<Track>) -> (r: Vec<Track>)
    ensures
        tracks_view(r@) == dedup_paths(sort_by_path(tracks_view(tracks@))),
{
    let sorted = sort_tracks_by_path(tracks);
    dedup_tracks_by_path(sorted)
}

/// A folder as the file system finds it: its path and whether it is a folder.
#[derive(Debug)]
pub struct FolderProbe {
    pub path: String,
    pub is_dir: bool,
}

impl TuneCore {
    /// Adds the folder the user typed, once the file system has been asked about it
    /// (`found`). Gives whether it was added; its tracks then come from a scan handed to
    /// `add_scanned_tracks`.
    pub fn add_folder(&mut self, input: &str, found: Option<FolderProbe>) -> (r: bool)
        ensures
            final(self)@ == add_folder_outcome(old(self)@, input@, match found {
                Some(f) => Some((f.path@, f.is_dir)),
                None => None,
            }),
            r == (final(self)@.folders.len() > old(self)@.folders.len()),
    {
        let sanitized = crate::config::sanitize_user_folder_path(input);
        if sanitized.as_str().unicode_len() == 0 {
            self.set_status("Invalid folder path");
            return false;
        }
        let probe = match found {
            Some(f) => f,
            None => {
                self.set_status("Folder not found");
                return false;
            },
        };
        if !probe.is_dir {
            self.set_status("Path is not a folder");
            return false;
        }
        let pc = chars_of(probe.path.as_str());
        let target = crate::paths::path_components(pc.as_slice());
        let ghost f = self@.folders;
        let mut i: usize = 0;
        while i < self.folders.len()
            invariant
                i <= self.folders.len(),
                f == self@.folders,
                self@ == old(self)@,
                probe.is_dir,
                (match found {
                    Some(fp) => fp.path@ == probe.path@ && fp.is_dir == probe.is_dir,
                    None => false,
                }),
                crate::config::sanitized_folder(input@).len() > 0,
                crate::paths::comp_views(target@) == crate::paths::components(probe.path@),
                forall|k: int| 0 <= k < i ==> crate::paths::components(f[k]) != crate::paths::components(probe.path@),
            decreases self.folders.len() - i,
        {
            let fc = chars_of(self.folders[i].as_str());
            let comps = crate::paths::path_components(fc.as_slice());
            assert(f[i as int] == self.folders@[i as int]@);
            let same = comps.len() == target.len() && {
                let n = comps.len();
                let eqs = crate::paths::components_prefix_eq(&comps, &target, n);
                eqs
            };
            if same {
                assert(crate::paths::comp_views(comps@) =~= crate::paths::comp_views(comps@).take(comps.len() as int));
                assert(crate::paths::comp_views(target@) =~= crate::paths::comp_views(target@).take(target.len() as int));
                assert(0 <= i < f.len() && crate::paths::components(f[i as int]) == crate::paths::components(probe.path@));
                self.set_status("Folder already added");
                return false;
            }
            proof {
                if crate::paths::comp_views(comps@) == crate::paths::comp_views(target@) {
                    assert(crate::paths::comp_views(comps@).take(comps.len() as int) =~= crate::paths::comp_views(comps@));
                    assert(crate::paths::comp_views(target@).take(target.len() as int) =~= crate::paths::comp_views(target@));
                }
            }
            i += 1;
        }
        assert(!exists|k: int| 0 <= k < f.len() && crate::paths::components(f[k]) == crate::paths::components(probe.path@));
        let ghost before = self.folders@;
        let ghost pp = probe.path@;
        self.folders.push(probe.path);
        assert(texts(self.folders@) =~= texts(before).push(pp));
        true
    }

    /// Takes the tracks a scan of the new folder found: the library keeps its tracks in path
    /// order without repeated paths, the queue becomes the library by title, and the count
    /// found is reported.
    pub fn add_scanned_tracks(&mut self, found: Vec<Track>)
        ensures
            final(self)@ == with_status(
                refreshed(
                    with_queue(
                        CoreView {
                            tracks: dedup_paths(sort_by_path(old(self)@.tracks + tracks_view(found@))),
                            ..old(self)@
                        },
                        title_order(dedup_paths(sort_by_path(old(self)@.tracks + tracks_view(found@)))),
                        final(self)@.shuffle_order,
                    ),
                ),
                "Added folder with "@ + crate::text::decimal(found@.len() as nat) + " tracks"@,
            ),
    {
        let count = found.len();
        let mut all: Vec<Track> = Vec::new();
        let ghost t0 = tracks_view(self.tracks@);
        let mut i: usize = 0;
        while i < self.tracks.len()
            invariant
                i <= self.tracks.len(),
                t0 == tracks_view(self.tracks@),
                tracks_view(all@) == t0.take(i as int),
            decreases self.tracks.len() - i,
        {
            let t = self.tracks[i].copy();
            let ghost before = all@;
            all.push(t);
            assert(tracks_view(all@) =~= tracks_view(before).push(t@));
            assert(t0.take(i + 1) =~= t0.take(i as int).push(t0[i as int]));
            i += 1;
        }
        assert(t0.take(self.tracks.len() as int) =~= t0);
        let ghost fv = tracks_view(found@);
        let mut more = found;
        let ghost a0 = all@;
        let ghost m0 = more@;
        all.append(&mut more);
        assert(all@ == a0 + m0);
        assert(tracks_view(all@) =~= tracks_view(a0) + tracks_view(m0));
        let kept = sorted_unique_tracks(all);
        self.tracks = kept;
        self.rebuild_main_queue();
        self.refresh_browser_entries();
        let mut msg = chars_of("Added folder with ");
        crate::text::push_decimal(&mut msg, count as u64);
        crate::text::extend_str(&mut msg, " tracks");
        let text = string_from_chars(msg.as_slice());
        self.set_status(text.as_str());
    }
}

// ---------------------------------------------------------------------------
// Moving on when a track ends
// ---------------------------------------------------------------------------

/// What the player reports about the track it plays.
pub struct PlayerState {
    pub has_track: bool,
    pub paused: bool,
    pub finished: bool,
    pub crossfade_seconds: u16,
    /// Position and length in nanoseconds, when known.
    pub position: Option<u128>,
    pub duration: Option<u128>,
    /// A track is already queued to fade in.
    pub crossfade_queued: bool,
}

/// What the player is to do next.
#[derive(Debug)]
pub enum AdvanceAction {
    Nothing,
    /// Fade into this track.
    Crossfade(String),
    /// Play this track now.
    Play(String),
    /// The queue is over: stop.
    Stop,
}

/// Whether a playing, unpaused track is due to move on: it ended, or the crossfade window
/// opened with nothing queued yet.
pub open spec fn advance_due(s: PlayerState) -> bool {
    s.has_track && !s.paused && !(crate::playback::crossfade_due(s.crossfade_seconds, s.position, s.duration)
        && s.crossfade_queued) && (s.finished || crate::playback::crossfade_due(s.crossfade_seconds, s.position, s.duration))
}

impl TuneCore {
    /// Moves to the next track when the one playing is over or its crossfade is due, outside
    /// an online session: the next track is faded in or played, or at the end of the queue
    /// playback stops.
    pub fn auto_advance(&mut self, state: PlayerState) -> (r: AdvanceAction)
        ensures
            !advance_due(state) ==> (r is Nothing && final(self)@ == old(self)@),
            advance_due(state) ==> {
                let v = if needs_new_order(old(self)@) {
                    CoreView { shuffle_order: final(self)@.shuffle_order, shuffle_cursor: 0, ..old(self)@ }
                } else {
                    old(self)@
                };
                let (after, next) = next_track_outcome(v);
                let crossfade = crate::playback::crossfade_due(state.crossfade_seconds, state.position, state.duration);
                &&& needs_new_order(old(self)@) ==> is_order_of(final(self)@.shuffle_order, old(self)@.queue.len())
                &&& match next {
                    Some(p) => final(self)@ == after && (if crossfade {
                        r matches AdvanceAction::Crossfade(q) && q@ == p
                    } else {
                        r matches AdvanceAction::Play(q) && q@ == p
                    }),
                    None => if state.finished {
                        r is Stop && final(self)@ == with_status(after, "Reached end of queue"@)
                    } else {
                        r is Nothing && final(self)@ == after
                    },
                }
            },
    {
        if !state.has_track || state.paused {
            return AdvanceAction::Nothing;
        }
        let crossfade = crate::playback::should_trigger_crossfade_advance(state.crossfade_seconds, state.position, state.duration);
        if crossfade && state.crossfade_queued {
            return AdvanceAction::Nothing;
        }
        if !state.finished && !crossfade {
            return AdvanceAction::Nothing;
        }
        match self.next_track_path() {
            Some(path) => {
                if crossfade {
                    AdvanceAction::Crossfade(path)
                } else {
                    AdvanceAction::Play(path)
                }
            },
            None => {
                if state.finished {
                    self.set_status("Reached end of queue");
                    AdvanceAction::Stop
                } else {
                    AdvanceAction::Nothing
                }
            },
        }
    }
}


// ---------------------------------------------------------------------------
// Settings changed from the action panel
// ---------------------------------------------------------------------------

/// One of the settings the action panel changes.
#[derive(Debug, Clone, Copy, PartialEq, Eq, Structural)]
pub enum SettingChange {
    PlaybackMode(LegacyPlaybackMode),
    Loudness(bool),
    Crossfade(u16),
    Scrub(u16),
    Stats(bool),
    Theme(Theme),
}

pub open spec fn with_setting(v: CoreView, change: SettingChange) -> CoreView {
    match change {
        SettingChange::PlaybackMode(m) => CoreView { playback_mode: m, ..v },
        SettingChange::Loudness(b) => CoreView { loudness_normalization: b, ..v },
        SettingChange::Crossfade(s) => CoreView { crossfade_seconds: s, ..v },
        SettingChange::Scrub(s) => CoreView { scrub_seconds: s, ..v },
        SettingChange::Stats(b) => CoreView { stats_enabled: b, ..v },
        SettingChange::Theme(t) => CoreView { theme: t, ..v },
    }
}

pub open spec fn playlist_names_of(v: CoreView) -> Seq<Seq<char>> {
    v.playlists.map_values(|p: PlaylistView| p.name)
}

impl TuneCore {
    /// Shows `message` in the status line.
    pub fn show_status(&mut self, message: &str)
        ensures
            final(self)@ == with_status(old(self)@, message@),
    {
        self.set_status(message);
    }

    /// Asks for the screen to be drawn again.
    pub fn mark_dirty(&mut self)
        ensures
            final(self)@ == (CoreView { dirty: true, ..old(self)@ }),
    {
        self.dirty = true;
    }

    /// Changes one setting and shows `message`.
    pub fn apply_setting(&mut self, change: SettingChange, message: &str)
        ensures
            final(self)@ == with_status(with_setting(old(self)@, change), message@),
            old(self)@.sound() ==> final(self)@.sound(),
    {
        match change {
            SettingChange::PlaybackMode(m) => self.playback_mode = m,
            SettingChange::Loudness(b) => self.loudness_normalization = b,
            SettingChange::Crossfade(s) => self.crossfade_seconds = s,
            SettingChange::Scrub(s) => self.scrub_seconds = s,
            SettingChange::Stats(b) => self.stats_enabled = b,
            SettingChange::Theme(t) => self.theme = t,
        }
        self.set_status(message);
    }

    pub fn loudness_normalization(&self) -> (r: bool)
        ensures
            r == self@.loudness_normalization,
    {
        self.loudness_normalization
    }

    pub fn crossfade_seconds(&self) -> (r: u16)
        ensures
            r == self@.crossfade_seconds,
    {
        self.crossfade_seconds
    }

    pub fn scrub_seconds(&self) -> (r: u16)
        ensures
            r == self@.scrub_seconds,
    {
        self.scrub_seconds
    }

    pub fn stats_enabled(&self) -> (r: bool)
        ensures
            r == self@.stats_enabled,
    {
        self.stats_enabled
    }

    pub fn theme(&self) -> (r: Theme)
        ensures
            r == self@.theme,
    {
        self.theme
    }

    pub fn header_section(&self) -> (r: HeaderSection)
        ensures
            r == self@.header_section,
    {
        self.header_section
    }

    /// The playlists' names, in the order they are kept.
    pub fn playlist_names(&self) -> (r: Vec<String>)
        ensures
            texts(r@) == playlist_names_of(self@),
    {
        let mut out: Vec<String> = Vec::new();
        let mut i: usize = 0;
        while i < self.playlists.len()
            invariant
                i <= self.playlists.len(),
                texts(out@) == playlist_names_of(self@).take(i as int),
            decreases self.playlists.len() - i,
        {
            let ghost before = out@;
            let name = self.playlists[i].name.clone();
            assert(self@.playlists[i as int] == self.playlists@[i as int]@);
            out.push(name);
            assert(out@ == before.push(name));
            assert(texts(out@) =~= texts(before).push(name@));
            i += 1;
            assert(texts(out@) =~= playlist_names_of(self@).take(i as int));
        }
        assert(playlist_names_of(self@).take(i as int) =~= playlist_names_of(self@));
        out
    }

    /// The library folders, in the order they were added.
    pub fn folder_list(&self) -> (r: Vec<String>)
        ensures
            texts(r@) == self@.folders,
    {
        copy_strings(&self.folders)
    }

    /// The selected browser row, if the selection is on one.
    pub fn selected_entry(&self) -> (r: Option<BrowserEntry>)
        ensures
            match r {
                Some(e) => self@.selected_browser < self@.browser_entries.len()
                    && e@ == self@.browser_entries[self@.selected_browser as int],
                None => self@.selected_browser >= self@.browser_entries.len(),
            },
    {
        if self.selected_browser < self.browser_entries.len() {
            let e = &self.browser_entries[self.selected_browser];
            Some(BrowserEntry { kind: e.kind, path: e.path.clone(), label: e.label.clone() })
        } else {
            None
        }
    }

    /// The track paths a playlist or metadata action takes from the selection.
    pub fn selected_paths_for_action(&self) -> (r: Vec<String>)
        ensures
            texts(r@) == selected_paths(self@),
    {
        self.selected_paths_exec()
    }
}


impl TuneCore {
    /// Another participant moved the room to `path`: the playing position follows it to its
    /// place in the queue (none when it is not queued), and `message` is shown.
    pub fn follow_remote_track(&mut self, path: &str, message: &str)
        ensures
            final(self)@ == with_status(
                CoreView {
                    current_queue_index: match queue_match(old(self)@.tracks, old(self)@.queue, path@) {
                        Some(k) => Some(k as usize),
                        None => None,
                    },
                    ..old(self)@
                },
                message@,
            ),
    {
        let position = self.queue_position_for_path(path);
        self.current_queue_index = position;
        self.set_status(message);
    }
}

} // verus!
