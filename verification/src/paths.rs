use crate::config::{without_verbatim_prefix, strip_verbatim_chars};
use crate::library::is_audio_extension;
use crate::text::chars_eq;
use vstd::prelude::*;

verus! {

// ---------------------------------------------------------------------------
// Paths as text, read the way `std::path` reads them on Unix
// ---------------------------------------------------------------------------

/// Text between two separators that names a component: neither empty nor `.`.
pub open spec fn is_body_piece(p: Seq<char>) -> bool {
    p.len() > 0 && p != seq!['.']
}

pub open spec fn push_piece(done: Seq<Seq<char>>, p: Seq<char>) -> Seq<Seq<char>> {
    if is_body_piece(p) {
        done.push(p)
    } else {
        done
    }
}

/// Reading `s` from the left: the components closed so far and the text of the one being
/// read.
pub open spec fn scan_pieces(s: Seq<char>) -> (Seq<Seq<char>>, Seq<char>)
    decreases s.len(),
{
    if s.len() == 0 {
        (seq![], seq![])
    } else {
        let (done, cur) = scan_pieces(s.drop_last());
        if s.last() == '/' {
            (push_piece(done, cur), seq![])
        } else {
            (done, cur.push(s.last()))
        }
    }
}

/// The names between separators, empty names and `.` dropped.
pub open spec fn body_components(s: Seq<char>) -> Seq<Seq<char>> {
    push_piece(scan_pieces(s).0, scan_pieces(s).1)
}

/// A relative path that starts with the current directory, `.` alone or `./...`.
pub open spec fn starts_with_cur_dir(s: Seq<char>) -> bool {
    s.len() > 0 && s[0] == '.' && (s.len() == 1 || s[1] == '/')
}

/// `Path::components` on Unix, each component by its text: `/` for the root, `.` for a
/// leading current directory, then the names between separators (repeated separators,
/// inner `.` and a trailing separator leave no trace).
pub open spec fn components(s: Seq<char>) -> Seq<Seq<char>> {
    if s.len() > 0 && s[0] == '/' {
        seq![seq!['/']] + body_components(s.skip(1))
    } else if starts_with_cur_dir(s) {
        seq![seq!['.']] + body_components(s.skip(1))
    } else {
        body_components(s)
    }
}

pub open spec fn comp_views(v: Seq<Vec<char>>) -> Seq<Seq<char>> {
    v.map_values(|c: Vec<char>| c@)
}

fn is_body(p: &Vec<char>) -> (r: bool)
    ensures
        r == is_body_piece(p@),
{
    if p.len() == 0 {
        return false;
    }
    if p.len() == 1 && p[0] == '.' {
        assert(p@ =~= seq!['.']);
        return false;
    }
    if p.len() == 1 {
        assert(p@[0] != seq!['.'][0]);
    }
    true
}

fn body_components_exec(s: &[char], start: usize) -> (r: Vec<Vec<char>>)
    requires
        start <= s.len(),
    ensures
        comp_views(r@) == body_components(s@.skip(start as int)),
{
    let ghost t = s@.skip(start as int);
    let mut done: Vec<Vec<char>> = Vec::new();
    let mut cur: Vec<char> = Vec::new();
    let mut i = start;
    while i < s.len()
        invariant
            start <= i <= s.len(),
            t == s@.skip(start as int),
            (comp_views(done@), cur@) == scan_pieces(t.take(i - start)),
        decreases s.len() - i,
    {
        assert(t.take(i + 1 - start).drop_last() =~= t.take(i - start));
        assert(t.take(i + 1 - start).last() == s@[i as int]);
        if s[i] == '/' {
            let piece = cur;
            cur = Vec::new();
            if is_body(&piece) {
                done.push(piece);
                assert(comp_views(done@) =~= comp_views(done@.drop_last()).push(done@.last()@));
            }
        } else {
            cur.push(s[i]);
        }
        i += 1;
    }
    assert(t.take(s.len() - start) =~= t);
    if is_body(&cur) {
        done.push(cur);
        assert(comp_views(done@) =~= comp_views(done@.drop_last()).push(done@.last()@));
    }
    done
}

/// The components of a path given as characters.
pub fn path_components(s: &[char]) -> (r: Vec<Vec<char>>)
    ensures
        comp_views(r@) == components(s@),
{
    if s.len() > 0 && s[0] == '/' {
        let mut out: Vec<Vec<char>> = Vec::new();
        let first: Vec<char> = vec!['/'];
        assert(first@ =~= seq!['/']);
        out.push(first);
        let mut body = body_components_exec(s, 1);
        let ghost bv = body@;
        out.append(&mut body);
        assert(out@ =~= seq![first] + bv);
        assert(comp_views(out@) =~= seq![seq!['/']] + comp_views(bv));
        out
    } else if s.len() > 0 && s[0] == '.' && (s.len() == 1 || s[1] == '/') {
        let mut out: Vec<Vec<char>> = Vec::new();
        let first: Vec<char> = vec!['.'];
        assert(first@ =~= seq!['.']);
        out.push(first);
        let mut body = body_components_exec(s, 1);
        let ghost bv = body@;
        out.append(&mut body);
        assert(out@ =~= seq![first] + bv);
        assert(comp_views(out@) =~= seq![seq!['.']] + comp_views(bv));
        out
    } else {
        assert(s@.skip(0) =~= s@);
        body_components_exec(s, 0)
    }
}

pub fn components_prefix_eq(a: &Vec<Vec<char>>, b: &Vec<Vec<char>>, n: usize) -> (r: bool)
    requires
        n <= a.len(),
        n <= b.len(),
    ensures
        r == (comp_views(a@).take(n as int) == comp_views(b@).take(n as int)),
{
    let mut i: usize = 0;
    while i < n
        invariant
            i <= n <= a.len(),
            n <= b.len(),
            comp_views(a@).take(i as int) == comp_views(b@).take(i as int),
        decreases n - i,
    {
        if !chars_eq(a[i].as_slice(), b[i].as_slice()) {
            assert(comp_views(a@).take(n as int)[i as int] == a@[i as int]@);
            assert(comp_views(b@).take(n as int)[i as int] == b@[i as int]@);
            return false;
        }
        i += 1;
        assert(comp_views(a@).take(i as int) =~= comp_views(b@).take(i as int));
    }
    true
}

/// Two paths name the same place: the same components once a Windows verbatim prefix is
/// taken off (what the library compares paths by).
pub open spec fn same_path(a: Seq<char>, b: Seq<char>) -> bool {
    components(without_verbatim_prefix(a)) == components(without_verbatim_prefix(b))
}

/// `path` lies at or below `root`: the root's components start the path's.
pub open spec fn path_within(path: Seq<char>, root: Seq<char>) -> bool {
    let p = components(without_verbatim_prefix(path));
    let r = components(without_verbatim_prefix(root));
    r.len() <= p.len() && p.take(r.len() as int) == r
}

pub fn normalized_components(p: &[char]) -> (r: Vec<Vec<char>>)
    ensures
        comp_views(r@) == components(without_verbatim_prefix(p@)),
{
    let n = strip_verbatim_chars(p);
    path_components(n.as_slice())
}

pub fn paths_equal(a: &[char], b: &[char]) -> (r: bool)
    ensures
        r == same_path(a@, b@),
{
    let ca = normalized_components(a);
    let cb = normalized_components(b);
    if ca.len() != cb.len() {
        return false;
    }
    let r = components_prefix_eq(&ca, &cb, ca.len());
    assert(comp_views(ca@).take(ca.len() as int) =~= comp_views(ca@));
    assert(comp_views(cb@).take(cb.len() as int) =~= comp_views(cb@));
    r
}

pub fn path_is_within(path: &[char], root: &[char]) -> (r: bool)
    ensures
        r == path_within(path@, root@),
{
    let cp = normalized_components(path);
    let cr = normalized_components(root);
    if cr.len() > cp.len() {
        return false;
    }
    let r = components_prefix_eq(&cp, &cr, cr.len());
    assert(comp_views(cr@).take(cr.len() as int) =~= comp_views(cr@));
    r
}

/// A component that names a file or folder (not the root, `.` or `..`).
pub open spec fn is_normal_component(c: Seq<char>) -> bool {
    c != seq!['/'] && c != seq!['.'] && c != seq!['.', '.']
}

/// `Path::file_name`: the last component when it is a name.
pub open spec fn file_name(p: Seq<char>) -> Option<Seq<char>> {
    let c = components(p);
    if c.len() > 0 && is_normal_component(c.last()) {
        Some(c.last())
    } else {
        None
    }
}

pub fn file_name_of(p: &[char]) -> (r: Option<Vec<char>>)
    ensures
        match r {
            Some(n) => file_name(p@) == Some(n@),
            None => file_name(p@) is None,
        },
{
    let mut c = path_components(p);
    if c.len() == 0 {
        return None;
    }
    let last = c.pop().unwrap();
    assert(last@ == components(p@).last());
    let root = last.len() == 1 && last[0] == '/';
    let cur = last.len() == 1 && last[0] == '.';
    let up = last.len() == 2 && last[0] == '.' && last[1] == '.';
    if root || cur || up {
        if root {
            assert(last@ =~= seq!['/']);
        }
        if cur {
            assert(last@ =~= seq!['.']);
        }
        if up {
            assert(last@ =~= seq!['.', '.']);
        }
        return None;
    }
    assert(last@ != seq!['/']) by {
        if last@.len() == 1 {
            assert(last@[0] != seq!['/'][0]);
        }
    }
    assert(last@ != seq!['.']) by {
        if last@.len() == 1 {
            assert(last@[0] != seq!['.'][0]);
        }
    }
    assert(last@ != seq!['.', '.']) by {
        if last@.len() == 2 {
            if last@[0] != '.' {
                assert(last@[0] != seq!['.', '.'][0]);
            } else {
                assert(last@[1] != seq!['.', '.'][1]);
            }
        }
    }
    Some(last)
}

/// Position of the last `.` in `s`, or -1.
pub open spec fn last_dot(s: Seq<char>) -> int
    decreases s.len(),
{
    if s.len() == 0 {
        -1
    } else if s.last() == '.' {
        s.len() - 1
    } else {
        last_dot(s.drop_last())
    }
}

/// `Path::extension`: what follows the last `.` of the file name, when a dot stands after
/// its first character.
pub open spec fn extension(p: Seq<char>) -> Option<Seq<char>> {
    match file_name(p) {
        Some(n) => if last_dot(n) > 0 {
            Some(n.skip(last_dot(n) + 1))
        } else {
            None
        },
        None => None,
    }
}

/// A path whose extension names a supported audio format.
pub open spec fn is_audio_path(p: Seq<char>) -> bool {
    match extension(p) {
        Some(e) => is_audio_extension(e),
        None => false,
    }
}

fn last_dot_exec(s: &[char]) -> (r: Option<usize>)
    ensures
        match r {
            Some(i) => last_dot(s@) == i as int && i < s.len(),
            None => last_dot(s@) == -1,
        },
{
    let mut i = s.len();
    assert(s@.take(i as int) =~= s@);
    while i > 0
        invariant
            i <= s.len(),
            last_dot(s@) == last_dot(s@.take(i as int)),
        decreases i,
    {
        assert(s@.take(i as int).drop_last() =~= s@.take(i - 1));
        if s[i - 1] == '.' {
            return Some(i - 1);
        }
        i -= 1;
    }
    None
}

pub fn extension_of(p: &[char]) -> (r: Option<Vec<char>>)
    ensures
        match r {
            Some(e) => extension(p@) == Some(e@),
            None => extension(p@) is None,
        },
{
    let name = match file_name_of(p) {
        Some(n) => n,
        None => return None,
    };
    match last_dot_exec(name.as_slice()) {
        Some(i) => {
            if i == 0 {
                return None;
            }
            let mut out: Vec<char> = Vec::new();
            let mut k = i + 1;
            while k < name.len()
                invariant
                    i + 1 <= k <= name.len(),
                    out@ == name@.subrange(i + 1, k as int),
                decreases name.len() - k,
            {
                out.push(name[k]);
                k += 1;
                assert(out@ =~= name@.subrange(i + 1, k as int));
            }
            assert(name@.subrange(i + 1, name.len() as int) =~= name@.skip(i + 1));
            Some(out)
        },
        None => None,
    }
}

pub fn is_audio_file(p: &[char]) -> (r: bool)
    ensures
        r == is_audio_path(p@),
{
    match extension_of(p) {
        Some(e) => {
            let s = crate::text::string_from_chars(e.as_slice());
            crate::library::is_audio(Some(s.as_str()))
        },
        None => false,
    }
}

/// Components joined back into text: the root mark, then the names separated by `/`.
pub open spec fn join_names(c: Seq<Seq<char>>) -> Seq<char>
    decreases c.len(),
{
    if c.len() == 0 {
        seq![]
    } else if c.len() == 1 {
        c[0]
    } else {
        join_names(c.drop_last()) + seq!['/'] + c.last()
    }
}

pub open spec fn join_components(c: Seq<Seq<char>>) -> Seq<char> {
    if c.len() > 0 && c[0] == seq!['/'] {
        seq!['/'] + join_names(c.skip(1))
    } else {
        join_names(c)
    }
}

/// `Path::parent`, written from the components: none for the root or an empty path,
/// otherwise every component but the last.
pub open spec fn parent(p: Seq<char>) -> Option<Seq<char>> {
    let c = components(p);
    if c.len() == 0 || c == seq![seq!['/']] {
        None
    } else {
        Some(join_components(c.drop_last()))
    }
}

fn join_names_exec(c: &Vec<Vec<char>>, start: usize, end: usize) -> (r: Vec<char>)
    requires
        start <= end <= c.len(),
    ensures
        r@ == join_names(comp_views(c@).subrange(start as int, end as int)),
{
    let ghost cv = comp_views(c@);
    let mut out: Vec<char> = Vec::new();
    let mut i = start;
    while i < end
        invariant
            start <= i <= end <= c.len(),
            cv == comp_views(c@),
            out@ == join_names(cv.subrange(start as int, i as int)),
        decreases end - i,
    {
        let ghost before = cv.subrange(start as int, i as int);
        assert(cv.subrange(start as int, i + 1).drop_last() =~= before);
        assert(cv.subrange(start as int, i + 1).last() == c@[i as int]@);
        if i > start {
            out.push('/');
        } else {
            assert(before.len() == 0);
        }
        crate::text::extend_chars(&mut out, c[i].as_slice());
        i += 1;
    }
    out
}

pub fn parent_of(p: &[char]) -> (r: Option<Vec<char>>)
    ensures
        match r {
            Some(q) => parent(p@) == Some(q@),
            None => parent(p@) is None,
        },
{
    let c = path_components(p);
    let ghost cv = comp_views(c@);
    if c.len() == 0 {
        return None;
    }
    let first_root = c[0].len() == 1 && c[0][0] == '/';
    if first_root {
        assert(cv[0] =~= seq!['/']);
    } else {
        assert(cv[0] != seq!['/']) by {
            if cv[0].len() == 1 {
                assert(cv[0][0] != seq!['/'][0]);
            }
        }
    }
    if c.len() == 1 && first_root {
        assert(cv =~= seq![seq!['/']]);
        return None;
    }
    assert(cv != seq![seq!['/']]) by {
        if cv.len() == 1 {
            assert(cv[0] != seq![seq!['/']][0]);
        }
    }
    let n = c.len() - 1;
    let ghost d = cv.drop_last();
    if first_root {
        let mut out: Vec<char> = vec!['/'];
        let rest = join_names_exec(&c, 1, n);
        crate::text::extend_chars(&mut out, rest.as_slice());
        assert(cv.subrange(1, n as int) =~= d.skip(1));
        assert(d[0] == cv[0]);
        Some(out)
    } else {
        let r = join_names_exec(&c, 0, n);
        assert(cv.subrange(0, n as int) =~= d);
        assert(d.len() > 0 ==> d[0] == cv[0]);
        Some(r)
    }
}

/// `Path::file_stem`: the file name without its extension.
pub open spec fn file_stem(p: Seq<char>) -> Option<Seq<char>> {
    match file_name(p) {
        Some(n) => Some(
            if last_dot(n) > 0 {
                n.take(last_dot(n))
            } else {
                n
            },
        ),
        None => None,
    }
}

pub fn file_stem_of(p: &[char]) -> (r: Option<Vec<char>>)
    ensures
        match r {
            Some(s) => file_stem(p@) == Some(s@),
            None => file_stem(p@) is None,
        },
{
    let name = match file_name_of(p) {
        Some(n) => n,
        None => return None,
    };
    match last_dot_exec(name.as_slice()) {
        Some(i) => {
            if i == 0 {
                return Some(name);
            }
            let stem = crate::text::sub_chars(name.as_slice(), 0, i);
            assert(stem@ =~= name@.take(i as int));
            Some(stem)
        },
        None => Some(name),
    }
}

} // verus!
