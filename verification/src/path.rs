//! The grammar of `/`-separated paths: components, file name, extension and
//! parent directory.
//!
//! A path is read as a sequence of characters. Runs of characters between
//! separators are its segments; empty segments and `.` segments are skipped,
//! and a final `..` segment names no file.

use vstd::prelude::*;
use vstd::std_specs::iter::IteratorSpec;

verus! {

/// The character that separates the segments of a path.
pub open spec fn is_separator(c: char) -> bool {
    c == '/'
}

/// Whether the segment that ends just before `end` is the single character `.`.
pub open spec fn dot_segment_ends_at(p: Seq<char>, end: int) -> bool {
    &&& 1 <= end <= p.len()
    &&& p[end - 1] == '.'
    &&& (end == 1 || is_separator(p[end - 2]))
}

/// Where the last component at or before `end` stops: separators and `.`
/// segments are stepped over from the right. The result is 0 when nothing but
/// those is found.
pub open spec fn component_end(p: Seq<char>, end: int) -> int
    decreases end,
{
    if end <= 0 || end > p.len() {
        0
    } else if is_separator(p[end - 1]) || dot_segment_ends_at(p, end) {
        component_end(p, end - 1)
    } else {
        end
    }
}

/// Where the separator-free run that stops at `end` begins.
pub open spec fn run_start(p: Seq<char>, end: int) -> int
    decreases end,
{
    if end <= 0 || end > p.len() {
        0
    } else if is_separator(p[end - 1]) {
        end
    } else {
        run_start(p, end - 1)
    }
}

/// The two characters `..`.
pub open spec fn parent_marker() -> Seq<char> {
    seq!['.', '.']
}

/// The bounds of the file name inside `p`: the last component, unless there is
/// none or it is `..`.
pub open spec fn file_name_bounds(p: Seq<char>) -> Option<(int, int)> {
    let end = component_end(p, p.len() as int);
    let start = run_start(p, end);
    if end == 0 || p.subrange(start, end) == parent_marker() {
        None
    } else {
        Some((start, end))
    }
}

/// The file name of `p`, if it has one.
pub open spec fn file_name(p: Seq<char>) -> Option<Seq<char>> {
    match file_name_bounds(p) {
        Some((start, end)) => Some(p.subrange(start, end)),
        None => None,
    }
}

/// The index of the last `.` among the first `end` characters of `name`, or
/// -1 when there is none.
pub open spec fn last_dot(name: Seq<char>, end: int) -> int
    decreases end,
{
    if end <= 0 || end > name.len() {
        -1
    } else if name[end - 1] == '.' {
        end - 1
    } else {
        last_dot(name, end - 1)
    }
}

/// The extension of a file name: what follows its last `.`. A name without
/// a dot has none.
pub open spec fn extension(name: Seq<char>) -> Option<Seq<char>> {
    let dot = last_dot(name, name.len() as int);
    if dot < 0 {
        None
    } else {
        Some(name.subrange(dot + 1, name.len() as int))
    }
}

/// The extension of the file that `p` names, if any.
pub open spec fn path_extension(p: Seq<char>) -> Option<Seq<char>> {
    match file_name(p) {
        Some(name) => extension(name),
        None => None,
    }
}

/// How many leading characters of `p` make up its parent directory: the path
/// without its last component and without the separators and `.` segments
/// before it, but never less than a leading `/` or `.`. A path made of a root
/// alone, and the empty path, have no parent.
pub open spec fn parent_len(p: Seq<char>) -> Option<int> {
    let end = component_end(p, p.len() as int);
    let start = run_start(p, end);
    if end == 0 {
        if p.len() > 0 && p[0] == '.' {
            Some(0)
        } else {
            None
        }
    } else if component_end(p, start) > 0 {
        Some(component_end(p, start))
    } else if start > 0 {
        Some(1)
    } else {
        Some(0)
    }
}

/// The parent directory of `p`, if it has one.
pub open spec fn parent(p: Seq<char>) -> Option<Seq<char>> {
    match parent_len(p) {
        Some(n) => Some(p.subrange(0, n)),
        None => None,
    }
}

/// The name shown for a path that names no file.
pub open spec fn fallback_name() -> Seq<char> {
    seq!['u', 'n', 't', 'i', 't', 'l', 'e', 'd']
}

/// The name shown for `p`: its file name, or the fallback.
pub open spec fn display_name(p: Seq<char>) -> Seq<char> {
    match file_name(p) {
        Some(name) => name,
        None => fallback_name(),
    }
}

/// The view of an optional string.
pub open spec fn optional_text(s: Option<String>) -> Option<Seq<char>> {
    match s {
        Some(t) => Some(t@),
        None => None,
    }
}

/// A run reaches back to the start of the path or to a separator, and holds
/// no separator itself.
pub proof fn lemma_run_start(p: Seq<char>, end: int)
    requires
        0 <= end <= p.len(),
    ensures
        0 <= run_start(p, end) <= end,
        run_start(p, end) == 0 || is_separator(p[run_start(p, end) - 1]),
        forall|i: int| run_start(p, end) <= i < end ==> !is_separator(#[trigger] p[i]),
        end > 0 && !is_separator(p[end - 1]) ==> run_start(p, end) < end,
    decreases end,
{
    if end > 0 && !is_separator(p[end - 1]) {
        lemma_run_start(p, end - 1);
    }
}

/// A component stops at a character that is no separator and does not close a
/// `.` segment.
pub proof fn lemma_component_end(p: Seq<char>, end: int)
    requires
        0 <= end <= p.len(),
    ensures
        0 <= component_end(p, end) <= end,
        component_end(p, end) > 0 ==> !is_separator(p[component_end(p, end) - 1])
            && !dot_segment_ends_at(p, component_end(p, end)),
        component_end(p, component_end(p, end)) == component_end(p, end),
    decreases end,
{
    if end > 0 && (is_separator(p[end - 1]) || dot_segment_ends_at(p, end)) {
        lemma_component_end(p, end - 1);
    }
}

/// A name that can stand as the last segment of a path and name a file: not
/// empty, free of separators, and neither `.` nor `..`.
pub open spec fn is_plain_name(name: Seq<char>) -> bool {
    &&& name.len() > 0
    &&& forall|i: int| 0 <= i < name.len() ==> !is_separator(#[trigger] name[i])
    &&& name != seq!['.']
    &&& name != parent_marker()
}

/// Whether `s` holds no `.`.
pub open spec fn dot_free(s: Seq<char>) -> bool {
    forall|i: int| 0 <= i < s.len() ==> #[trigger] s[i] != '.'
}

/// Whether the characters from `start` up to `end` are a whole segment of
/// `p`: bounded on each side by a separator or by an end of the path, and
/// free of separators.
pub open spec fn is_segment(p: Seq<char>, start: int, end: int) -> bool {
    &&& 0 <= start <= end <= p.len()
    &&& (start == 0 || is_separator(p[start - 1]))
    &&& (end == p.len() || is_separator(p[end]))
    &&& forall|i: int| start <= i < end ==> !is_separator(#[trigger] p[i])
}

/// Whether the characters from `start` up to `end` are a component of `p`: a
/// segment that is neither empty nor `.`.
pub open spec fn is_component(p: Seq<char>, start: int, end: int) -> bool {
    &&& is_segment(p, start, end)
    &&& start < end
    &&& p.subrange(start, end) != seq!['.']
}

/// Up to a segment boundary `end`, `component_end` finds the last component:
/// it stops where one stops, and none stops later.
pub proof fn lemma_component_end_is_last(p: Seq<char>, end: int)
    requires
        0 <= end <= p.len(),
        end == p.len() || is_separator(p[end]),
    ensures
        component_end(p, end) > 0 ==> is_component(
            p,
            run_start(p, component_end(p, end)),
            component_end(p, end),
        ),
        forall|s: int, e: int|
            e <= end && #[trigger] is_component(p, s, e) ==> e <= component_end(p, end),
    decreases end,
{
    if end <= 0 {
    } else if is_separator(p[end - 1]) {
        lemma_component_end_is_last(p, end - 1);
        assert forall|s: int, e: int| e <= end && #[trigger] is_component(p, s, e) implies e
            <= component_end(p, end) by {
            if e == end {
                assert(!is_separator(p[e - 1]));
            }
        }
    } else if dot_segment_ends_at(p, end) {
        if end >= 2 {
            lemma_component_end_is_last(p, end - 2);
            assert(component_end(p, end - 1) == component_end(p, end - 2));
        } else {
            assert(component_end(p, end - 1) == 0);
        }
        assert forall|s: int, e: int| e <= end && #[trigger] is_component(p, s, e) implies e
            <= component_end(p, end) by {
            if e == end {
                if s < end - 1 {
                    assert(!is_separator(p[end - 2]));
                }
                assert(p.subrange(s, e) =~= seq!['.']);
            } else if e == end - 1 {
                assert(is_separator(p[e]));
            }
        }
    } else {
        lemma_run_start(p, end);
        let start = run_start(p, end);
        let run = p.subrange(start, end);
        if run == seq!['.'] {
            assert(run.len() == 1);
            assert(run[0] == p[start]);
            assert(dot_segment_ends_at(p, end));
        }
        assert(is_component(p, start, end));
    }
}

/// Whether the characters from `start` up to `end` are the last component of
/// `p`.
pub open spec fn is_last_component(p: Seq<char>, start: int, end: int) -> bool {
    &&& is_component(p, start, end)
    &&& forall|s: int, e: int| #[trigger] is_component(p, s, e) ==> e <= end
}

/// The file name of a path is its last component, unless that is `..`; a path
/// has no file name only when it has no component or the last one is `..`.
pub proof fn lemma_file_name_is_last_component(p: Seq<char>)
    ensures
        match file_name_bounds(p) {
            Some((start, end)) => is_last_component(p, start, end) && p.subrange(start, end)
                != parent_marker(),
            None => forall|s: int, e: int| #[trigger]
                is_last_component(p, s, e) ==> p.subrange(s, e) == parent_marker(),
        },
{
    let n = p.len() as int;
    lemma_component_end(p, n);
    lemma_component_end_is_last(p, n);
    let end = component_end(p, n);
    let start = run_start(p, end);
    assert forall|s: int, e: int| #[trigger] is_component(p, s, e) implies e <= end by {
        assert(e <= n);
    }
    match file_name_bounds(p) {
        Some((a, b)) => {
            assert(is_last_component(p, a, b));
        },
        None => {
            assert forall|s: int, e: int| #[trigger] is_last_component(p, s, e) implies p.subrange(
                s,
                e,
            ) == parent_marker() by {
                assert(is_component(p, s, e));
                assert(e == end);
                if s < start {
                    assert(!is_separator(p[start - 1]));
                }
                if start < s {
                    assert(!is_separator(p[s - 1]));
                }
            }
        },
    }
}

/// The file name of a path is a plain name.
pub proof fn lemma_file_name_is_plain(p: Seq<char>)
    ensures
        match file_name(p) {
            Some(name) => is_plain_name(name),
            None => true,
        },
{
    let n = p.len() as int;
    lemma_component_end(p, n);
    let end = component_end(p, n);
    lemma_run_start(p, end);
    let start = run_start(p, end);
    if file_name(p) is Some {
        let name = p.subrange(start, end);
        assert forall|i: int| 0 <= i < name.len() implies !is_separator(#[trigger] name[i]) by {
            assert(name[i] == p[start + i]);
        }
        if name == seq!['.'] {
            assert(name.len() == 1);
            assert(name[0] == '.');
            assert(dot_segment_ends_at(p, end));
        }
    }
}

/// A plain name is its own file name, and the file name of every path that
/// ends with a separator and that name.
pub proof fn lemma_file_name_of_joined(dir: Seq<char>, name: Seq<char>)
    requires
        is_plain_name(name),
    ensures
        file_name(name) == Some(name),
        file_name(dir + seq!['/'] + name) == Some(name),
{
    assert(name.subrange(0, name.len() as int) =~= name);
    lemma_last_segment(name, 0);
    let p = dir + seq!['/'] + name;
    let from = dir.len() as int + 1;
    assert(is_separator(p[from - 1]));
    assert forall|i: int| from <= i < p.len() implies !is_separator(#[trigger] p[i]) by {
        assert(p[i] == name[i - from]);
    }
    assert(p.subrange(from, p.len() as int) =~= name);
    lemma_last_segment(p, from);
}

/// When the characters of `p` from `from` on are a plain name that begins a
/// segment, that name is the file name of `p`.
proof fn lemma_last_segment(p: Seq<char>, from: int)
    requires
        0 <= from < p.len(),
        from == 0 || is_separator(p[from - 1]),
        is_plain_name(p.subrange(from, p.len() as int)),
    ensures
        file_name_bounds(p) == Some((from, p.len() as int)),
{
    let n = p.len() as int;
    let name = p.subrange(from, n);
    assert(name[name.len() - 1] == p[n - 1]);
    assert(!dot_segment_ends_at(p, n)) by {
        if dot_segment_ends_at(p, n) {
            if n - 1 == from {
                assert(name =~= seq!['.']);
            } else {
                assert(name[name.len() - 2] == p[n - 2]);
            }
        }
    }
    assert(component_end(p, n) == n);
    lemma_run_start(p, n);
    let start = run_start(p, n);
    if start < from {
        assert(!is_separator(p[from - 1]));
    }
    if start > from {
        assert(name[start - 1 - from] == p[start - 1]);
    }
}

/// Below `end`, a path and a longer path that begins with it have their
/// components at the same places.
proof fn lemma_component_end_of_prefix(p: Seq<char>, q: Seq<char>, end: int)
    requires
        0 <= end <= p.len() <= q.len(),
        q.subrange(0, p.len() as int) == p,
    ensures
        component_end(q, end) == component_end(p, end),
    decreases end,
{
    if end > 0 {
        assert(p[end - 1] == q.subrange(0, p.len() as int)[end - 1]);
        if end > 1 {
            assert(p[end - 2] == q.subrange(0, p.len() as int)[end - 2]);
        }
        lemma_component_end_of_prefix(p, q, end - 1);
    }
}

/// A directory that ends with a component is the parent of what stands
/// directly in it.
pub proof fn lemma_parent_of_joined(dir: Seq<char>, name: Seq<char>)
    requires
        is_plain_name(name),
        dir.len() > 0,
        component_end(dir, dir.len() as int) == dir.len(),
    ensures
        parent(dir + seq!['/'] + name) == Some(dir),
{
    let p = dir + seq!['/'] + name;
    let from = dir.len() as int + 1;
    assert(is_separator(p[from - 1]));
    assert(p.subrange(from, p.len() as int) =~= name);
    lemma_last_segment(p, from);
    assert(p.subrange(0, dir.len() as int) =~= dir);
    lemma_component_end_of_prefix(dir, p, dir.len() as int);
    assert(component_end(p, from) == component_end(p, from - 1));
}

/// A plain name alone has the empty path as its parent.
pub proof fn lemma_parent_of_name(name: Seq<char>)
    requires
        is_plain_name(name),
    ensures
        parent(name) == Some(Seq::<char>::empty()),
{
    assert(name.subrange(0, name.len() as int) =~= name);
    lemma_last_segment(name, 0);
    assert(name.subrange(0, 0) =~= Seq::<char>::empty());
}

/// A plain name directly under the root has the root as its parent.
pub proof fn lemma_parent_under_root(name: Seq<char>)
    requires
        is_plain_name(name),
    ensures
        parent(seq!['/'] + name) == Some(seq!['/']),
{
    let r = seq!['/'] + name;
    assert(is_separator(r[0]));
    assert(r.subrange(1, r.len() as int) =~= name);
    lemma_last_segment(r, 1);
    assert(component_end(r, 1) == 0) by {
        assert(component_end(r, 0) == 0);
    }
    assert(r.subrange(0, 1) =~= seq!['/']);
}

/// What `last_dot` finds is a dot with none after it, or there is none at all.
pub proof fn lemma_last_dot(name: Seq<char>, end: int)
    requires
        0 <= end <= name.len(),
    ensures
        -1 <= last_dot(name, end) < end || end == 0,
        last_dot(name, end) >= 0 ==> name[last_dot(name, end)] == '.',
        forall|i: int| last_dot(name, end) < i < end ==> #[trigger] name[i] != '.',
    decreases end,
{
    if end > 0 && name[end - 1] != '.' {
        lemma_last_dot(name, end - 1);
    }
}

/// What follows the last dot of a name is its extension.
pub proof fn lemma_extension_of_joined(stem: Seq<char>, ext: Seq<char>)
    requires
        dot_free(ext),
    ensures
        extension(stem + seq!['.'] + ext) == Some(ext),
{
    let name = stem + seq!['.'] + ext;
    let n = name.len() as int;
    let at = stem.len() as int;
    lemma_last_dot(name, n);
    let dot = last_dot(name, n);
    assert(name[at] == '.');
    if dot > at {
        assert(name[dot] == ext[dot - at - 1]);
    }
    assert(name.subrange(at + 1, n) =~= ext);
}

/// A name without a dot has no extension, and a name with one has.
pub proof fn lemma_no_extension(name: Seq<char>)
    ensures
        extension(name) is None <==> dot_free(name),
{
    let n = name.len() as int;
    lemma_last_dot(name, n);
    let dot = last_dot(name, n);
    if dot >= 0 {
        assert(name[dot] == '.');
    }
}

/// The characters of `s`, in order.
pub fn chars_of(s: &str) -> (cs: Vec<char>)
    ensures
        cs@ == s@,
{
    broadcast use vstd::string::group_string_axioms;
    let n = s.unicode_len();
    let mut it = s.chars();
    let mut cs: Vec<char> = Vec::new();
    while cs.len() < n
        invariant
            n == s@.len(),
            cs@ + it.remaining() == s@,
        decreases n - cs@.len(),
    {
        let ghost before = it.remaining();
        if let Some(c) = it.next() {
            cs.push(c);
            assert(cs@ + it.remaining() =~= s@) by {
                assert(before =~= seq![c] + before.drop_first());
            }
        }
    }
    assert(cs@ =~= s@);
    cs
}

/// Computes `component_end`.
fn find_component_end(cs: &Vec<char>, end: usize) -> (r: usize)
    requires
        end <= cs@.len(),
    ensures
        r as int == component_end(cs@, end as int),
        r <= end,
{
    let mut e: usize = end;
    while e > 0 && (cs[e - 1] == '/' || (cs[e - 1] == '.' && (e == 1 || cs[e - 2] == '/')))
        invariant
            e <= end <= cs@.len(),
            component_end(cs@, e as int) == component_end(cs@, end as int),
        decreases e,
    {
        e = e - 1;
    }
    e
}

/// Computes `run_start`.
fn find_run_start(cs: &Vec<char>, end: usize) -> (r: usize)
    requires
        end <= cs@.len(),
    ensures
        r as int == run_start(cs@, end as int),
        r <= end,
{
    let mut s: usize = end;
    while s > 0 && cs[s - 1] != '/'
        invariant
            s <= end <= cs@.len(),
            run_start(cs@, s as int) == run_start(cs@, end as int),
        decreases s,
    {
        s = s - 1;
    }
    s
}

/// The bounds of the file name among the characters `cs`.
pub(crate) fn find_file_name(cs: &Vec<char>) -> (r: Option<(usize, usize)>)
    ensures
        match r {
            Some((start, end)) => file_name_bounds(cs@) == Some((start as int, end as int))
                && start < end <= cs@.len(),
            None => file_name_bounds(cs@) is None,
        },
{
    let end = find_component_end(cs, cs.len());
    let start = find_run_start(cs, end);
    if end == 0 {
        return None;
    }
    proof {
        lemma_component_end(cs@, cs@.len() as int);
        lemma_run_start(cs@, end as int);
    }
    let is_parent = end - start == 2 && cs[start] == '.' && cs[start + 1] == '.';
    proof {
        let seg = cs@.subrange(start as int, end as int);
        if is_parent {
            assert(seg =~= parent_marker());
        } else if seg == parent_marker() {
            assert(seg.len() == 2);
            assert(seg[0] == '.' && seg[1] == '.');
        }
    }
    if is_parent {
        None
    } else {
        Some((start, end))
    }
}

/// The file name of `path`, if it has one.
pub fn file_name_of(path: &str) -> (name: Option<String>)
    ensures
        optional_text(name) == file_name(path@),
{
    let cs = chars_of(path);
    match find_file_name(&cs) {
        Some((start, end)) => Some(path.substring_char(start, end).to_owned()),
        None => None,
    }
}

/// The last path segment of `path`, or `untitled` when the path names no file.
pub fn filename_from_path(path: &str) -> (name: String)
    ensures
        name@ == display_name(path@),
{
    let cs = chars_of(path);
    match find_file_name(&cs) {
        Some((start, end)) => path.substring_char(start, end).to_owned(),
        None => {
            proof {
                reveal_strlit("untitled");
                assert("untitled"@ =~= fallback_name());
            }
            "untitled".to_owned()
        },
    }
}

/// The directory that holds what `path` names, if the path has one.
pub fn parent_of(path: &str) -> (dir: Option<String>)
    ensures
        optional_text(dir) == parent(path@),
{
    let cs = chars_of(path);
    let end = find_component_end(&cs, cs.len());
    let start = find_run_start(&cs, end);
    if end == 0 {
        if cs.len() > 0 && cs[0] == '.' {
            Some(path.substring_char(0, 0).to_owned())
        } else {
            None
        }
    } else {
        let before = find_component_end(&cs, start);
        let n: usize = if before > 0 {
            before
        } else if start > 0 {
            1
        } else {
            0
        };
        Some(path.substring_char(0, n).to_owned())
    }
}

} // verus!
