//! Paths as text, read the way Unix reads them.
//!
//! A path's components follow `std::path::Path::components` on Unix: a
//! leading `/` is the root, repeated separators and interior `.` segments are
//! ignored, a leading `.` is kept, and `..` names the parent directory. A
//! component is written here as text: `/` for the root, `.` for the current
//! directory, `..` for the parent, anything else is an ordinary name.

use crate::text::{
    char_views, chars_of, prefix_of, split_char, split_chars, string_of, string_views, suffix_of,
};
use vstd::prelude::*;

verus! {

/// The text of the root component.
pub open spec fn root_part() -> Seq<char> {
    seq!['/']
}

/// The text of the current-directory component.
pub open spec fn cur_part() -> Seq<char> {
    seq!['.']
}

/// The text of the parent-directory component.
pub open spec fn parent_part() -> Seq<char> {
    seq!['.', '.']
}

/// An ordinary name, as opposed to the root, `.` or `..`.
pub open spec fn is_normal_part(c: Seq<char>) -> bool {
    c != root_part() && c != cur_part() && c != parent_part()
}

/// The segments that count as names: empty and `.` segments dropped.
pub open spec fn kept_segments(s: Seq<Seq<char>>) -> Seq<Seq<char>>
    decreases s.len(),
{
    if s.len() == 0 {
        Seq::empty()
    } else {
        let r = kept_segments(s.drop_last());
        if s.last().len() == 0 || s.last() == cur_part() {
            r
        } else {
            r.push(s.last())
        }
    }
}

/// Whether the path starts at the root.
pub open spec fn is_rooted(p: Seq<char>) -> bool {
    p.len() > 0 && p[0] == '/'
}

/// The components of the path `p`.
pub open spec fn components(p: Seq<char>) -> Seq<Seq<char>> {
    let segs = split_char(p, '/');
    if is_rooted(p) {
        seq![root_part()] + kept_segments(segs.drop_first())
    } else if segs[0] == cur_part() {
        seq![cur_part()] + kept_segments(segs.drop_first())
    } else {
        kept_segments(segs)
    }
}

/// `parts` joined with `/` between them.
pub open spec fn join_parts(parts: Seq<Seq<char>>) -> Seq<char>
    decreases parts.len(),
{
    if parts.len() == 0 {
        Seq::empty()
    } else if parts.len() == 1 {
        parts[0]
    } else {
        join_parts(parts.drop_last()) + seq!['/'] + parts.last()
    }
}

/// The last component of `p` when it is a name (what `Path::file_name` returns).
pub open spec fn file_name_spec(p: Seq<char>) -> Option<Seq<char>> {
    let c = components(p);
    if c.len() > 0 && is_normal_part(c.last()) {
        Some(c.last())
    } else {
        None
    }
}

/// The position of the last `c` in `s`, if any.
pub open spec fn last_index(s: Seq<char>, c: char) -> Option<int>
    decreases s.len(),
{
    if s.len() == 0 {
        None
    } else if s.last() == c {
        Some(s.len() - 1)
    } else {
        last_index(s.drop_last(), c)
    }
}

/// The text after the last `.` of the file name, unless that dot starts the
/// name (what `Path::extension` returns).
pub open spec fn extension_spec(p: Seq<char>) -> Option<Seq<char>> {
    match file_name_spec(p) {
        Some(name) => match last_index(name, '.') {
            Some(i) => if i > 0 {
                Some(name.skip(i + 1))
            } else {
                None
            },
            None => None,
        },
        None => None,
    }
}

/// `base`'s components start `p`'s components (what `Path::starts_with` checks).
pub open spec fn is_component_prefix(base: Seq<Seq<char>>, p: Seq<Seq<char>>) -> bool {
    base.len() <= p.len() && p.take(base.len() as int) == base
}

/// Every component of `parts` is an ordinary name.
pub open spec fn all_normal(parts: Seq<Seq<char>>) -> bool {
    forall|i: int| 0 <= i < parts.len() ==> is_normal_part(#[trigger] parts[i])
}

/// `..` occurs among `parts`.
pub open spec fn has_parent_part(parts: Seq<Seq<char>>) -> bool {
    exists|i: int| 0 <= i < parts.len() && parts[i] == parent_part()
}

/// Keeping segments one more step.
proof fn lemma_kept_segments_step(s: Seq<Seq<char>>, k: int)
    requires
        0 <= k < s.len(),
    ensures
        kept_segments(s.take(k + 1)) == (if s[k].len() == 0 || s[k] == cur_part() {
            kept_segments(s.take(k))
        } else {
            kept_segments(s.take(k)).push(s[k])
        }),
{
    assert(s.take(k + 1).drop_last() =~= s.take(k));
}

/// Kept segments are never empty and never `.`.
pub proof fn lemma_kept_segments_shape(s: Seq<Seq<char>>)
    ensures
        forall|i: int|
            0 <= i < kept_segments(s).len() ==> (#[trigger] kept_segments(s)[i]).len() > 0
                && kept_segments(s)[i] != cur_part(),
    decreases s.len(),
{
    if s.len() > 0 {
        lemma_kept_segments_shape(s.drop_last());
        let r = kept_segments(s.drop_last());
        if !(s.last().len() == 0 || s.last() == cur_part()) {
            assert forall|i: int| 0 <= i < r.push(s.last()).len() implies (#[trigger] r.push(
                s.last(),
            )[i]).len() > 0 && r.push(s.last())[i] != cur_part() by {
                if i < r.len() {
                    assert(r.push(s.last())[i] == r[i]);
                }
            }
        }
    }
}

/// Facts about the last occurrence.
pub proof fn lemma_last_index_facts(s: Seq<char>, c: char)
    ensures
        last_index(s, c) matches Some(i) ==> 0 <= i < s.len() && s[i] == c,
    decreases s.len(),
{
    if s.len() > 0 {
        lemma_last_index_facts(s.drop_last(), c);
    }
}

/// Whether `c` is the text of the root, `.` or `..`.
pub fn is_normal_text(c: &Vec<char>) -> (r: bool)
    ensures
        r == is_normal_part(c@),
{
    if c.len() == 1 && c[0] == '/' {
        assert(c@ =~= root_part());
        return false;
    }
    if c.len() == 1 && c[0] == '.' {
        assert(c@ =~= cur_part());
        return false;
    }
    if c.len() == 2 && c[0] == '.' && c[1] == '.' {
        assert(c@ =~= parent_part());
        return false;
    }
    proof {
        if c@ == root_part() || c@ == cur_part() {
            assert(c@.len() == 1);
        }
        if c@ == parent_part() {
            assert(c@.len() == 2 && c@[0] == '.' && c@[1] == '.');
        }
    }
    true
}

/// The components of `p` as character vectors.
pub fn components_chars(p: &Vec<char>) -> (r: Vec<Vec<char>>)
    ensures
        char_views(r@) == components(p@),
{
    let segs = split_chars(p, '/');
    let ghost ssegs = split_char(p@, '/');
    assert(char_views(segs@) == ssegs);
    assert(segs.len() == ssegs.len() && ssegs.len() >= 1);
    let rooted = p.len() > 0 && p[0] == '/';
    let first_is_dot = segs[0].len() == 1 && segs[0][0] == '.';
    proof {
        assert(char_views(segs@)[0] == segs@[0]@);
        if first_is_dot {
            assert(segs@[0]@ =~= cur_part());
        }
        if segs@[0]@ == cur_part() {
            assert(segs@[0]@.len() == 1);
        }
    }
    let mut out: Vec<Vec<char>> = Vec::new();
    let start: usize;
    if rooted {
        let mut root: Vec<char> = Vec::new();
        root.push('/');
        out.push(root);
        start = 1;
    } else if first_is_dot {
        let mut dot: Vec<char> = Vec::new();
        dot.push('.');
        out.push(dot);
        start = 1;
    } else {
        start = 0;
    }
    let ghost head = char_views(out@);
    let ghost rest = ssegs.skip(start as int);
    assert(head.len() == start);
    assert(kept_segments(rest.take(0)) =~= Seq::<Seq<char>>::empty());
    assert(char_views(out@) =~= head + kept_segments(rest.take(0)));
    let mut i: usize = start;
    while i < segs.len()
        invariant
            start <= i <= segs.len(),
            start <= 1,
            char_views(segs@) == ssegs,
            rest == ssegs.skip(start as int),
            char_views(out@) == head + kept_segments(rest.take(i - start)),
        decreases segs.len() - i,
    {
        proof {
            lemma_kept_segments_step(rest, i - start);
            assert(rest[i - start] == ssegs[i as int]);
            assert(char_views(segs@)[i as int] == segs@[i as int]@);
        }
        let seg = &segs[i];
        let keep = !(seg.len() == 0 || (seg.len() == 1 && seg[0] == '.'));
        proof {
            if seg@ == cur_part() {
                assert(seg@.len() == 1);
            }
            if seg.len() == 1 && seg@[0] == '.' {
                assert(seg@ =~= cur_part());
            }
        }
        if keep {
            let copy = prefix_of(seg, seg.len());
            assert(copy@ =~= seg@);
            let ghost before = char_views(out@);
            out.push(copy);
            assert(char_views(out@) =~= before.push(copy@));
        }
        i = i + 1;
        assert(char_views(out@) =~= head + kept_segments(rest.take(i - start)));
    }
    assert(rest.take(segs.len() - start) =~= rest);
    proof {
        if rooted {
            assert(head =~= seq![root_part()]);
        } else if ssegs[0] == cur_part() {
            assert(head =~= seq![cur_part()]);
        } else {
            assert(head =~= Seq::<Seq<char>>::empty());
            assert(rest =~= ssegs);
        }
    }
    out
}

/// The components of `p` (what `Path::components` yields on Unix).
pub fn path_components(p: &str) -> (r: Vec<String>)
    ensures
        string_views(r@) == components(p@),
{
    let parts = components_chars(&chars_of(p));
    let mut r: Vec<String> = Vec::new();
    let mut i: usize = 0;
    while i < parts.len()
        invariant
            i <= parts.len(),
            string_views(r@) == char_views(parts@).take(i as int),
        decreases parts.len() - i,
    {
        let text = string_of(&parts[i]);
        assert(char_views(parts@)[i as int] == parts@[i as int]@);
        let ghost before = string_views(r@);
        r.push(text);
        assert(string_views(r@) =~= before.push(text@));
        assert(char_views(parts@).take(i + 1) =~= char_views(parts@).take(i as int).push(
            parts@[i as int]@,
        ));
        i = i + 1;
    }
    assert(char_views(parts@).take(parts.len() as int) =~= char_views(parts@));
    r
}

/// Whether some component of `parts` is `..`.
fn has_parent_chars(parts: &Vec<Vec<char>>) -> (r: bool)
    ensures
        r == has_parent_part(char_views(parts@)),
{
    let mut i: usize = 0;
    while i < parts.len()
        invariant
            i <= parts.len(),
            forall|j: int| 0 <= j < i ==> char_views(parts@)[j] != parent_part(),
        decreases parts.len() - i,
    {
        let c = &parts[i];
        assert(char_views(parts@)[i as int] == c@);
        if c.len() == 2 && c[0] == '.' && c[1] == '.' {
            assert(c@ =~= parent_part());
            return true;
        }
        proof {
            if c@ == parent_part() {
                assert(c@.len() == 2);
            }
        }
        i = i + 1;
    }
    false
}

/// Whether every component of `parts` is an ordinary name.
pub fn all_normal_chars(parts: &Vec<Vec<char>>) -> (r: bool)
    ensures
        r == all_normal(char_views(parts@)),
{
    let mut i: usize = 0;
    while i < parts.len()
        invariant
            i <= parts.len(),
            forall|j: int| 0 <= j < i ==> is_normal_part(#[trigger] char_views(parts@)[j]),
        decreases parts.len() - i,
    {
        assert(char_views(parts@)[i as int] == parts@[i as int]@);
        if !is_normal_text(&parts[i]) {
            return false;
        }
        i = i + 1;
    }
    true
}

/// `parts` joined with `/` between them.
pub fn join_chars(parts: &Vec<Vec<char>>) -> (r: Vec<char>)
    ensures
        r@ == join_parts(char_views(parts@)),
{
    let mut r: Vec<char> = Vec::new();
    let mut i: usize = 0;
    while i < parts.len()
        invariant
            i <= parts.len(),
            r@ == join_parts(char_views(parts@).take(i as int)),
        decreases parts.len() - i,
    {
        let ghost done = char_views(parts@).take(i as int);
        let ghost next = char_views(parts@).take(i + 1);
        assert(next.drop_last() =~= done);
        assert(char_views(parts@)[i as int] == parts@[i as int]@);
        if i > 0 {
            r.push('/');
        }
        let mut piece = prefix_of(&parts[i], parts[i].len());
        assert(piece@ =~= parts@[i as int]@);
        r.append(&mut piece);
        proof {
            if i == 0 {
                assert(r@ =~= next[0]);
            } else {
                assert(r@ =~= join_parts(done) + seq!['/'] + next.last());
            }
        }
        i = i + 1;
    }
    assert(char_views(parts@).take(parts.len() as int) =~= char_views(parts@));
    r
}

/// Why a path was refused.
#[derive(Clone, Copy, Debug, PartialEq, Eq)]
pub enum PathIssue {
    /// The path is empty or starts at the root.
    NotRelative,
    /// A component climbs out of the starting directory.
    Escapes,
    /// A component is not an ordinary name.
    Unsafe,
}

/// Accept only a non-empty relative path that never climbs above its start.
pub fn require_safe_relative_path(path: &str) -> (r: Result<(), PathIssue>)
    ensures
        path@.len() == 0 || is_rooted(path@) <==> r == Err::<(), PathIssue>(PathIssue::NotRelative),
        r == Err::<(), PathIssue>(PathIssue::Escapes) <==> (path@.len() > 0 && !is_rooted(path@)
            && has_parent_part(components(path@))),
        r is Ok <==> (path@.len() > 0 && !is_rooted(path@) && !has_parent_part(
            components(path@),
        )),
{
    let v = chars_of(path);
    if v.len() == 0 || v[0] == '/' {
        return Err(PathIssue::NotRelative);
    }
    let parts = components_chars(&v);
    if has_parent_chars(&parts) {
        return Err(PathIssue::Escapes);
    }
    Ok(())
}

/// Whether `base`'s components start `parts`.
pub fn component_prefix(base: &Vec<Vec<char>>, parts: &Vec<Vec<char>>) -> (r: bool)
    ensures
        r == is_component_prefix(char_views(base@), char_views(parts@)),
{
    if base.len() > parts.len() {
        return false;
    }
    let mut i: usize = 0;
    while i < base.len()
        invariant
            i <= base.len() <= parts.len(),
            forall|j: int| 0 <= j < i ==> char_views(base@)[j] == char_views(parts@)[j],
        decreases base.len() - i,
    {
        assert(char_views(base@)[i as int] == base@[i as int]@);
        assert(char_views(parts@)[i as int] == parts@[i as int]@);
        if !same_chars(&base[i], &parts[i]) {
            assert(char_views(parts@).take(base.len() as int)[i as int] != char_views(
                base@,
            )[i as int]);
            return false;
        }
        i = i + 1;
    }
    assert(char_views(parts@).take(base.len() as int) =~= char_views(base@));
    true
}

/// Whether two character vectors hold the same characters.
pub fn same_chars(a: &Vec<char>, b: &Vec<char>) -> (r: bool)
    ensures
        r == (a@ == b@),
{
    if a.len() != b.len() {
        return false;
    }
    let mut i: usize = 0;
    while i < a.len()
        invariant
            i <= a.len() == b.len(),
            forall|j: int| 0 <= j < i ==> a@[j] == b@[j],
        decreases a.len() - i,
    {
        if a[i] != b[i] {
            return false;
        }
        i = i + 1;
    }
    assert(a@ =~= b@);
    true
}

/// Whether the path `p` lies at or under `base`, component by component.
pub fn path_starts_with(p: &str, base: &str) -> (r: bool)
    ensures
        r == is_component_prefix(components(base@), components(p@)),
{
    let b = components_chars(&chars_of(base));
    let q = components_chars(&chars_of(p));
    component_prefix(&b, &q)
}

/// The last component of `p` when it is a name (what `Path::file_name` returns).
pub fn file_name(p: &str) -> (r: Option<String>)
    ensures
        r matches Some(s) ==> file_name_spec(p@) == Some(s@),
        r is None ==> file_name_spec(p@) is None,
{
    let parts = components_chars(&chars_of(p));
    let n = parts.len();
    if n == 0 {
        return None;
    }
    assert(char_views(parts@)[n - 1] == parts@[n - 1]@);
    if !is_normal_text(&parts[n - 1]) {
        return None;
    }
    Some(string_of(&parts[n - 1]))
}

/// The position of the last `c` in `v`, if any.
fn find_last_char(v: &Vec<char>, c: char) -> (r: Option<usize>)
    ensures
        r matches Some(i) ==> last_index(v@, c) == Some(i as int),
        r is None ==> last_index(v@, c) is None,
{
    let mut k: usize = v.len();
    assert(v@.take(k as int) =~= v@);
    while k > 0
        invariant
            k <= v.len(),
            last_index(v@, c) == last_index(v@.take(k as int), c),
        decreases k,
    {
        let ghost t = v@.take(k as int);
        if v[k - 1] == c {
            assert(t.last() == c);
            return Some(k - 1);
        }
        assert(t.drop_last() =~= v@.take(k - 1));
        k = k - 1;
    }
    None
}

/// The extension of the path's file name (what `Path::extension` returns).
pub fn extension(p: &str) -> (r: Option<String>)
    ensures
        r matches Some(s) ==> extension_spec(p@) == Some(s@),
        r is None ==> extension_spec(p@) is None,
{
    match file_name(p) {
        None => None,
        Some(name) => {
            let v = chars_of(name.as_str());
            proof {
                lemma_last_index_facts(v@, '.');
            }
            match find_last_char(&v, '.') {
                Some(i) => {
                    if i > 0 {
                        Some(string_of(&suffix_of(&v, i + 1)))
                    } else {
                        None
                    }
                },
                None => None,
            }
        },
    }
}

} // verus!
