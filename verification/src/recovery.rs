use crate::config::{
    display_text, entries_view, find_matching_child, join_path, joined, matching_child, sanitized_folder, ChildEntry,
};
use crate::paths::{comp_views, components, parent, parent_of, path_components};
use crate::text::{chars_of, string_from_chars};
use vstd::prelude::*;

verus! {

// ---------------------------------------------------------------------------
// Rebuilding a damaged path one component at a time
// ---------------------------------------------------------------------------

/// What the rebuilding waits for.
#[derive(Debug, Clone, Copy, PartialEq, Eq, Structural)]
pub enum RecoveryStage {
    /// Nothing: the rebuilding is over.
    Done,
    /// Whether the candidate for the current name exists.
    AwaitingExists,
    /// The children of the folder the current name should be in.
    AwaitingListing,
}

/// Where rebuilding a damaged path stands: the path's components, the next one to take,
/// the path rebuilt so far, and what is awaited.
#[derive(Debug)]
pub struct ComponentRecovery {
    pub parts: Vec<Vec<char>>,
    pub next: usize,
    pub rebuilt: String,
    pub stage: RecoveryStage,
}

pub struct RecoveryView {
    pub parts: Seq<Seq<char>>,
    pub next: nat,
    pub rebuilt: Seq<char>,
    pub stage: RecoveryStage,
}

impl View for ComponentRecovery {
    type V = RecoveryView;

    open spec fn view(&self) -> RecoveryView {
        RecoveryView { parts: comp_views(self.parts@), next: self.next as nat, rebuilt: self.rebuilt@, stage: self.stage }
    }
}

/// What the rebuilding asks of the file system, or its end.
#[derive(Debug, PartialEq, Eq)]
pub enum RecoveryRequest {
    /// Whether this path exists; answer with `RecoveryAnswer::Exists`.
    Exists(String),
    /// The children of this folder; answer with `RecoveryAnswer::Listing`.
    List(String),
    /// The path rebuilt (of use when it exists).
    Finished(String),
    /// No child matched a name: the path cannot be rebuilt.
    Failed,
}

pub enum RequestView {
    Exists(Seq<char>),
    List(Seq<char>),
    Finished(Seq<char>),
    Failed,
}

impl View for RecoveryRequest {
    type V = RequestView;

    open spec fn view(&self) -> RequestView {
        match self {
            RecoveryRequest::Exists(p) => RequestView::Exists(p@),
            RecoveryRequest::List(p) => RequestView::List(p@),
            RecoveryRequest::Finished(p) => RequestView::Finished(p@),
            RecoveryRequest::Failed => RequestView::Failed,
        }
    }
}

/// The file system's answer to a request (`None` for a folder that cannot be listed).
#[derive(Debug)]
pub enum RecoveryAnswer {
    Exists(bool),
    Listing(Option<Vec<ChildEntry>>),
}

pub enum AnswerView {
    Exists(bool),
    Listing(Option<Seq<(Seq<char>, Option<bool>)>>),
}

impl View for RecoveryAnswer {
    type V = AnswerView;

    open spec fn view(&self) -> AnswerView {
        match self {
            RecoveryAnswer::Exists(b) => AnswerView::Exists(*b),
            RecoveryAnswer::Listing(l) => AnswerView::Listing(
                match l {
                    Some(v) => Some(entries_view(v@)),
                    None => None,
                },
            ),
        }
    }
}

/// A component that names a file or folder (not the root, `.` or `..`).
pub open spec fn is_name(c: Seq<char>) -> bool {
    c != seq!['/'] && c != seq!['.'] && c != seq!['.', '.']
}

/// The folder a name is looked for in: the path rebuilt so far, or `.` while it is empty.
pub open spec fn probe_parent(rebuilt: Seq<char>) -> Seq<char> {
    if rebuilt.len() == 0 {
        seq!['.']
    } else {
        rebuilt
    }
}

/// The path one level up (unchanged at the root or when empty).
pub open spec fn popped(rebuilt: Seq<char>) -> Seq<char> {
    match parent(rebuilt) {
        Some(q) => q,
        None => rebuilt,
    }
}

/// Whether the name at `i` is the path's last name.
pub open spec fn last_name(parts: Seq<Seq<char>>, i: int) -> bool {
    forall|j: int| i < j < parts.len() ==> !is_name(#[trigger] parts[j])
}

/// Taking components up to the next name: the root restarts the path, `.` is skipped, `..`
/// goes one level up; at a name, whether its candidate exists is asked; past the last
/// component the rebuilt path is the result.
pub open spec fn walk(st: RecoveryView) -> (RecoveryView, RequestView)
    decreases st.parts.len() - st.next,
{
    if st.next >= st.parts.len() {
        (RecoveryView { stage: RecoveryStage::Done, ..st }, RequestView::Finished(st.rebuilt))
    } else {
        let c = st.parts[st.next as int];
        let on = RecoveryView { next: st.next + 1, ..st };
        if c == seq!['/'] {
            walk(RecoveryView { rebuilt: seq!['/'], ..on })
        } else if c == seq!['.'] {
            walk(on)
        } else if c == seq!['.', '.'] {
            walk(RecoveryView { rebuilt: popped(st.rebuilt), ..on })
        } else {
            (
                RecoveryView { stage: RecoveryStage::AwaitingExists, ..st },
                RequestView::Exists(joined(probe_parent(st.rebuilt), c)),
            )
        }
    }
}

/// Taking an answer: an existing candidate is taken as it is; a missing one has its folder
/// listed, and the child that matches the name (a folder unless it is the last name) is
/// taken instead. No listing or no match ends the rebuilding in failure, as does an answer
/// to nothing asked.
pub open spec fn answered(st: RecoveryView, answer: AnswerView) -> (RecoveryView, RequestView) {
    if st.next >= st.parts.len() || st.stage == RecoveryStage::Done {
        (RecoveryView { stage: RecoveryStage::Done, ..st }, RequestView::Failed)
    } else {
        let c = st.parts[st.next as int];
        let dir = probe_parent(st.rebuilt);
        let on = RecoveryView { next: st.next + 1, stage: RecoveryStage::Done, ..st };
        match (st.stage, answer) {
            (RecoveryStage::AwaitingExists, AnswerView::Exists(true)) => walk(RecoveryView { rebuilt: joined(dir, c), ..on }),
            (RecoveryStage::AwaitingExists, AnswerView::Exists(false)) => (
                RecoveryView { stage: RecoveryStage::AwaitingListing, ..st },
                RequestView::List(dir),
            ),
            (RecoveryStage::AwaitingListing, AnswerView::Listing(Some(entries))) => match matching_child(
                entries,
                c,
                if last_name(st.parts, st.next as int) {
                    None
                } else {
                    Some(true)
                },
            ) {
                Some(m) => walk(RecoveryView { rebuilt: joined(dir, m), ..on }),
                None => (RecoveryView { stage: RecoveryStage::Done, ..st }, RequestView::Failed),
            },
            _ => (RecoveryView { stage: RecoveryStage::Done, ..st }, RequestView::Failed),
        }
    }
}

/// 0 for the root, 1 for `.`, 2 for `..`, 3 for a name.
fn component_kind(c: &Vec<char>) -> (r: u8)
    ensures
        (r == 0) == (c@ == seq!['/']),
        (r == 1) == (c@ == seq!['.']),
        (r == 2) == (c@ == seq!['.', '.']),
        (r == 3) == is_name(c@),
{
    if c.len() == 1 && c[0] == '/' {
        assert(c@ =~= seq!['/']);
        assert(seq!['/'][0] != seq!['.'][0]);
        return 0;
    }
    if c.len() == 1 && c[0] == '.' {
        assert(c@ =~= seq!['.']);
        return 1;
    }
    if c.len() == 2 && c[0] == '.' && c[1] == '.' {
        assert(c@ =~= seq!['.', '.']);
        return 2;
    }
    proof {
        if c@ == seq!['/'] {
            assert(c@.len() == 1 && c@[0] == '/');
        }
        if c@ == seq!['.'] {
            assert(c@.len() == 1 && c@[0] == '.');
        }
        if c@ == seq!['.', '.'] {
            assert(c@.len() == 2 && c@[0] == '.' && c@[1] == '.');
        }
    }
    3
}

impl ComponentRecovery {
    /// Starts rebuilding `path` (read as `Path::components` reads it).
    pub fn start(path: &str) -> (r: (Self, RecoveryRequest))
        ensures
            (r.0@, r.1@) == walk(RecoveryView { parts: components(path@), next: 0, rebuilt: seq![], stage: RecoveryStage::Done }),
    {
        let cs = chars_of(path);
        let parts = path_components(cs.as_slice());
        let mut st = ComponentRecovery { parts, next: 0, rebuilt: String::new(), stage: RecoveryStage::Done };
        assert(st@.rebuilt =~= seq![]);
        let req = st.advance();
        (st, req)
    }

    /// The rebuilding so far.
    pub fn rebuilt(&self) -> (r: &str)
        ensures
            r@ == self@.rebuilt,
    {
        self.rebuilt.as_str()
    }

    fn advance(&mut self) -> (r: RecoveryRequest)
        ensures
            (final(self)@, r@) == walk(old(self)@),
        decreases old(self)@.parts.len() - old(self)@.next,
    {
        if self.next >= self.parts.len() {
            self.stage = RecoveryStage::Done;
            return RecoveryRequest::Finished(self.rebuilt.clone());
        }
        let i = self.next;
        assert(self@.parts[i as int] == self.parts@[i as int]@);
        let kind = component_kind(&self.parts[i]);
        let root = kind == 0;
        let cur = kind == 1;
        let up = kind == 2;
        if root {
            self.next = i + 1;
            self.rebuilt = string_from_chars(&['/']);
            assert(self@.rebuilt =~= seq!['/']);
            return self.advance();
        }
        if cur {
            self.next = i + 1;
            return self.advance();
        }
        if up {
            self.next = i + 1;
            let rc = chars_of(self.rebuilt.as_str());
            match parent_of(rc.as_slice()) {
                Some(q) => {
                    self.rebuilt = string_from_chars(q.as_slice());
                },
                None => {},
            }
            return self.advance();
        }
        self.stage = RecoveryStage::AwaitingExists;
        let dir = self.probe_dir();
        let name = string_from_chars(self.parts[i].as_slice());
        RecoveryRequest::Exists(join_path(dir.as_str(), name.as_str()))
    }

    fn probe_dir(&self) -> (r: String)
        ensures
            r@ == probe_parent(self@.rebuilt),
    {
        let rc = chars_of(self.rebuilt.as_str());
        if rc.len() == 0 {
            let r = string_from_chars(&['.']);
            assert(r@ =~= seq!['.']);
            r
        } else {
            self.rebuilt.clone()
        }
    }

    fn is_last_name(&self, i: usize) -> (r: bool)
        requires
            i < self.parts.len(),
        ensures
            r == last_name(self@.parts, i as int),
    {
        let mut j = i + 1;
        while j < self.parts.len()
            invariant
                i < j <= self.parts.len(),
                forall|k: int| i < k < j ==> !is_name(#[trigger] self@.parts[k]),
            decreases self.parts.len() - j,
        {
            assert(self@.parts[j as int] == self.parts@[j as int]@);
            if component_kind(&self.parts[j]) == 3 {
                return false;
            }
            j += 1;
        }
        true
    }

    /// Takes the file system's answer to the last request (see `answered`).
    pub fn answer(&mut self, answer: RecoveryAnswer) -> (r: RecoveryRequest)
        ensures
            (final(self)@, r@) == answered(old(self)@, answer@),
    {
        if self.next >= self.parts.len() || self.stage == RecoveryStage::Done {
            self.stage = RecoveryStage::Done;
            return RecoveryRequest::Failed;
        }
        let i = self.next;
        assert(self@.parts[i as int] == self.parts@[i as int]@);
        let dir = self.probe_dir();
        let name = string_from_chars(self.parts[i].as_slice());
        match (self.stage, answer) {
            (RecoveryStage::AwaitingExists, RecoveryAnswer::Exists(true)) => {
                self.rebuilt = join_path(dir.as_str(), name.as_str());
                self.next = i + 1;
                self.stage = RecoveryStage::Done;
                self.advance()
            },
            (RecoveryStage::AwaitingExists, RecoveryAnswer::Exists(false)) => {
                self.stage = RecoveryStage::AwaitingListing;
                RecoveryRequest::List(dir)
            },
            (RecoveryStage::AwaitingListing, RecoveryAnswer::Listing(Some(entries))) => {
                let want_dir = if self.is_last_name(i) {
                    None
                } else {
                    Some(true)
                };
                match find_matching_child(name.as_str(), entries.as_slice(), want_dir) {
                    Some(m) => {
                        self.rebuilt = join_path(dir.as_str(), m.as_str());
                        self.next = i + 1;
                        self.stage = RecoveryStage::Done;
                        self.advance()
                    },
                    None => {
                        self.stage = RecoveryStage::Done;
                        RecoveryRequest::Failed
                    },
                }
            },
            _ => {
                self.stage = RecoveryStage::Done;
                RecoveryRequest::Failed
            },
        }
    }
}

// ---------------------------------------------------------------------------
// Finding a saved path again
// ---------------------------------------------------------------------------

/// What finding a saved path asks of the file system, or the path found.
#[derive(Debug, PartialEq, Eq)]
pub enum PathStep {
    /// Whether this path exists; answer with `RecoveryAnswer::Exists`.
    Exists(String),
    /// The children of this folder; answer with `RecoveryAnswer::Listing`.
    List(String),
    /// The path to use: the one found, or the saved path itself when none was.
    Resolved(String),
}

pub enum StepView {
    Exists(Seq<char>),
    List(Seq<char>),
    Resolved(Seq<char>),
}

impl View for PathStep {
    type V = StepView;

    open spec fn view(&self) -> StepView {
        match self {
            PathStep::Exists(p) => StepView::Exists(p@),
            PathStep::List(p) => StepView::List(p@),
            PathStep::Resolved(p) => StepView::Resolved(p@),
        }
    }
}

/// Where finding a saved path stands: the saved path, its candidates (itself, then its
/// cleaned forms), how many were asked about, the component rebuilding once they are all
/// missing, the rebuilt path while its existence is asked, and whether the search is over.
#[derive(Debug)]
pub struct PathRecovery {
    pub original: String,
    pub candidates: Vec<String>,
    pub tried: usize,
    pub walk: Option<ComponentRecovery>,
    pub rebuilt: Option<String>,
    pub finished: bool,
}

pub struct PathRecoveryView {
    pub original: Seq<char>,
    pub candidates: Seq<Seq<char>>,
    pub tried: nat,
    pub walk: Option<RecoveryView>,
    pub rebuilt: Option<Seq<char>>,
    pub finished: bool,
}

pub open spec fn walk_view(w: Option<ComponentRecovery>) -> Option<RecoveryView> {
    match w {
        Some(x) => Some(x@),
        None => None,
    }
}

pub open spec fn text_view(o: Option<String>) -> Option<Seq<char>> {
    match o {
        Some(x) => Some(x@),
        None => None,
    }
}

impl View for PathRecovery {
    type V = PathRecoveryView;

    open spec fn view(&self) -> PathRecoveryView {
        PathRecoveryView {
            original: self.original@,
            candidates: self.candidates@.map_values(|c: String| c@),
            tried: self.tried as nat,
            walk: walk_view(self.walk),
            rebuilt: text_view(self.rebuilt),
            finished: self.finished,
        }
    }
}

/// The search is over with `path`.
pub open spec fn resolved_with(st: PathRecoveryView, path: Seq<char>) -> (PathRecoveryView, StepView) {
    (PathRecoveryView { walk: None, rebuilt: None, finished: true, ..st }, StepView::Resolved(path))
}

/// Passing on what the component rebuilding asks: a rebuilt path is asked about before it
/// is used, and a rebuilding that fails leaves the saved path.
pub open spec fn from_walk(st: PathRecoveryView, w: (RecoveryView, RequestView)) -> (PathRecoveryView, StepView) {
    match w.1 {
        RequestView::Exists(x) => (PathRecoveryView { walk: Some(w.0), ..st }, StepView::Exists(x)),
        RequestView::List(x) => (PathRecoveryView { walk: Some(w.0), ..st }, StepView::List(x)),
        RequestView::Finished(r) => (PathRecoveryView { walk: None, rebuilt: Some(r), ..st }, StepView::Exists(r)),
        RequestView::Failed => resolved_with(st, st.original),
    }
}

pub open spec fn walk_start(path: Seq<char>) -> (RecoveryView, RequestView) {
    walk(RecoveryView { parts: components(path), next: 0, rebuilt: seq![], stage: RecoveryStage::Done })
}

/// Finding `path` starts by asking whether it exists.
pub open spec fn path_search_start(path: Seq<char>) -> (PathRecoveryView, StepView) {
    (
        PathRecoveryView {
            original: path,
            candidates: seq![path, display_text(path), sanitized_folder(path)],
            tried: 1,
            walk: None,
            rebuilt: None,
            finished: false,
        },
        StepView::Exists(path),
    )
}

/// Taking an answer: the first candidate that exists is the path; when none does, the
/// saved path is rebuilt component by component, and the rebuilt path is used if it exists;
/// otherwise the saved path stays as it is.
pub open spec fn path_answered(st: PathRecoveryView, a: AnswerView) -> (PathRecoveryView, StepView) {
    if st.finished {
        resolved_with(st, st.original)
    } else if st.rebuilt is Some {
        match a {
            AnswerView::Exists(true) => resolved_with(st, st.rebuilt->0),
            _ => resolved_with(st, st.original),
        }
    } else if st.walk is Some {
        from_walk(st, answered(st.walk->0, a))
    } else {
        match a {
            AnswerView::Exists(true) => if 0 < st.tried <= st.candidates.len() {
                resolved_with(st, st.candidates[st.tried - 1])
            } else {
                resolved_with(st, st.original)
            },
            AnswerView::Exists(false) => if st.tried < st.candidates.len() {
                (PathRecoveryView { tried: st.tried + 1, ..st }, StepView::Exists(st.candidates[st.tried as int]))
            } else {
                from_walk(st, walk_start(st.original))
            },
            _ => resolved_with(st, st.original),
        }
    }
}

impl PathRecovery {
    /// Starts looking for the saved `path` on disk (see `path_answered`).
    pub fn start(path: &str) -> (r: (Self, PathStep))
        ensures
            (r.0@, r.1@) == path_search_start(path@),
    {
        let candidates = crate::config::path_recovery_candidates(path);
        let st = PathRecovery {
            original: path.to_owned(),
            candidates,
            tried: 1,
            walk: None,
            rebuilt: None,
            finished: false,
        };
        assert(st@.candidates =~= seq![path@, display_text(path@), sanitized_folder(path@)]);
        (st, PathStep::Exists(path.to_owned()))
    }

    fn resolve(&mut self, path: String) -> (r: PathStep)
        ensures
            (final(self)@, r@) == resolved_with(old(self)@, path@),
    {
        self.walk = None;
        self.rebuilt = None;
        self.finished = true;
        PathStep::Resolved(path)
    }

    fn pass_on(&mut self, w: ComponentRecovery, req: RecoveryRequest) -> (r: PathStep)
        requires
            old(self).walk is None,
        ensures
            (final(self)@, r@) == from_walk(old(self)@, (w@, req@)),
    {
        match req {
            RecoveryRequest::Exists(x) => {
                self.walk = Some(w);
                PathStep::Exists(x)
            },
            RecoveryRequest::List(x) => {
                self.walk = Some(w);
                PathStep::List(x)
            },
            RecoveryRequest::Finished(r) => {
                self.rebuilt = Some(r.clone());
                PathStep::Exists(r)
            },
            RecoveryRequest::Failed => {
                let o = self.original.clone();
                self.resolve(o)
            },
        }
    }

    /// Takes the file system's answer to the last step.
    pub fn answer(&mut self, a: RecoveryAnswer) -> (r: PathStep)
        ensures
            (final(self)@, r@) == path_answered(old(self)@, a@),
    {
        if self.finished {
            let o = self.original.clone();
            return self.resolve(o);
        }
        if self.rebuilt.is_some() {
            let chosen = match (&self.rebuilt, &a) {
                (Some(r), RecoveryAnswer::Exists(true)) => r.clone(),
                _ => self.original.clone(),
            };
            return self.resolve(chosen);
        }
        let mut taken: Option<ComponentRecovery> = None;
        std::mem::swap(&mut taken, &mut self.walk);
        match taken {
            Some(mut w) => {
                let req = w.answer(a);
                self.pass_on(w, req)
            },
            None => match a {
                RecoveryAnswer::Exists(true) => {
                    if 0 < self.tried && self.tried <= self.candidates.len() {
                        let c = self.candidates[self.tried - 1].clone();
                        self.resolve(c)
                    } else {
                        let o = self.original.clone();
                        self.resolve(o)
                    }
                },
                RecoveryAnswer::Exists(false) => {
                    if self.tried < self.candidates.len() {
                        let c = self.candidates[self.tried].clone();
                        self.tried = self.tried + 1;
                        PathStep::Exists(c)
                    } else {
                        let (w, req) = ComponentRecovery::start(self.original.as_str());
                        self.pass_on(w, req)
                    }
                },
                _ => {
                    let o = self.original.clone();
                    self.resolve(o)
                },
            },
        }
    }
}

} // verus!
