//! Character-level string operations with their mathematical models.
//!
//! Every operation here works on the Unicode scalar values of a string,
//! which is what `String`'s view exposes.

use vstd::prelude::*;

verus! {

// ---------------------------------------------------------------------------
// Models
// ---------------------------------------------------------------------------

/// `s` without every trailing occurrence of `c`.
pub open spec fn trim_end_char(s: Seq<char>, c: char) -> Seq<char>
    decreases s.len(),
{
    if s.len() > 0 && s.last() == c {
        trim_end_char(s.drop_last(), c)
    } else {
        s
    }
}

/// `s` without every leading occurrence of `c`.
pub open spec fn trim_start_char(s: Seq<char>, c: char) -> Seq<char>
    decreases s.len(),
{
    if s.len() > 0 && s[0] == c {
        trim_start_char(s.drop_first(), c)
    } else {
        s
    }
}

/// The `White_Space` characters, which `char::is_whitespace` recognizes.
pub open spec fn is_white_space(c: char) -> bool {
    let u = c as u32;
    ||| 0x9 <= u <= 0xd
    ||| u == 0x20
    ||| u == 0x85
    ||| u == 0xa0
    ||| u == 0x1680
    ||| 0x2000 <= u <= 0x200a
    ||| u == 0x2028
    ||| u == 0x2029
    ||| u == 0x202f
    ||| u == 0x205f
    ||| u == 0x3000
}

/// `s` without trailing white space.
pub open spec fn trim_end_ws(s: Seq<char>) -> Seq<char>
    decreases s.len(),
{
    if s.len() > 0 && is_white_space(s.last()) {
        trim_end_ws(s.drop_last())
    } else {
        s
    }
}

/// `s` without leading white space.
pub open spec fn trim_start_ws(s: Seq<char>) -> Seq<char>
    decreases s.len(),
{
    if s.len() > 0 && is_white_space(s[0]) {
        trim_start_ws(s.drop_first())
    } else {
        s
    }
}

/// `s` without leading and trailing white space (what `str::trim` returns).
pub open spec fn trim_ws(s: Seq<char>) -> Seq<char> {
    trim_start_ws(trim_end_ws(s))
}

/// `prefix` is an initial segment of `s`.
pub open spec fn has_prefix(s: Seq<char>, prefix: Seq<char>) -> bool {
    prefix.len() <= s.len() && s.take(prefix.len() as int) == prefix
}

/// Whether `c` occurs in `s`.
pub open spec fn has_char(s: Seq<char>, c: char) -> bool {
    exists|i: int| 0 <= i < s.len() && s[i] == c
}

/// The position of the first `c` in `s`, if any.
pub open spec fn first_index(s: Seq<char>, c: char) -> Option<int>
    decreases s.len(),
{
    if s.len() == 0 {
        None
    } else if s[0] == c {
        Some(0)
    } else {
        match first_index(s.drop_first(), c) {
            Some(i) => Some(i + 1),
            None => None,
        }
    }
}

/// The two sides of the first `c` in `s` (what `str::split_once` returns).
pub open spec fn split_once_spec(s: Seq<char>, c: char) -> Option<(Seq<char>, Seq<char>)> {
    match first_index(s, c) {
        Some(i) => Some((s.take(i), s.skip(i + 1))),
        None => None,
    }
}

/// The pieces of `s` finished so far, and the piece in progress, after reading all of `s`.
pub open spec fn split_state(s: Seq<char>, sep: char) -> (Seq<Seq<char>>, Seq<char>)
    decreases s.len(),
{
    if s.len() == 0 {
        (Seq::empty(), Seq::empty())
    } else {
        let (done, cur) = split_state(s.drop_last(), sep);
        if s.last() == sep {
            (done.push(cur), Seq::empty())
        } else {
            (done, cur.push(s.last()))
        }
    }
}

/// `s` split at every `sep` (what `str::split` returns); never empty.
pub open spec fn split_char(s: Seq<char>, sep: char) -> Seq<Seq<char>> {
    split_state(s, sep).0.push(split_state(s, sep).1)
}

/// A line that was ended by a newline loses one carriage return before it.
pub open spec fn strip_cr(s: Seq<char>) -> Seq<char> {
    if s.len() > 0 && s.last() == '\r' {
        s.drop_last()
    } else {
        s
    }
}

/// The lines of `s` (what `str::lines` returns): pieces between newlines, a
/// carriage return before a newline dropped, and no empty final piece.
pub open spec fn lines_spec(s: Seq<char>) -> Seq<Seq<char>> {
    let pieces = split_char(s, '\n');
    let ended = pieces.drop_last().map_values(|p: Seq<char>| strip_cr(p));
    if pieces.last().len() == 0 {
        ended
    } else {
        ended.push(pieces.last())
    }
}

/// ASCII upper-case letters mapped to lower case; every other character kept.
pub open spec fn ascii_lower_char(c: char) -> char {
    if 'A' <= c <= 'Z' {
        ((c as u32) + 32) as char
    } else {
        c
    }
}

/// `s` with ASCII letters in lower case (what `str::to_ascii_lowercase` returns).
pub open spec fn ascii_lower(s: Seq<char>) -> Seq<char> {
    s.map_values(|c: char| ascii_lower_char(c))
}

/// Strict lexicographic order by Unicode scalar value; for UTF-8 text this is
/// the byte order that `String`'s `Ord` uses.
pub open spec fn seq_lt(a: Seq<char>, b: Seq<char>) -> bool
    decreases a.len(),
{
    if a.len() == 0 {
        b.len() > 0
    } else if b.len() == 0 {
        false
    } else if a[0] != b[0] {
        (a[0] as u32) < (b[0] as u32)
    } else {
        seq_lt(a.drop_first(), b.drop_first())
    }
}

/// Every occurrence of `c` in `s` replaced by `r`.
pub open spec fn replace_char(s: Seq<char>, c: char, r: Seq<char>) -> Seq<char>
    decreases s.len(),
{
    if s.len() == 0 {
        Seq::empty()
    } else {
        replace_char(s.drop_last(), c, r) + (if s.last() == c {
            r
        } else {
            seq![s.last()]
        })
    }
}

/// The character sequences held by a vector of character vectors.
pub open spec fn char_views(v: Seq<Vec<char>>) -> Seq<Seq<char>> {
    v.map_values(|x: Vec<char>| x@)
}

/// The character sequences held by a vector of strings.
pub open spec fn string_views(v: Seq<String>) -> Seq<Seq<char>> {
    v.map_values(|x: String| x@)
}

// ---------------------------------------------------------------------------
// Facts about the models
// ---------------------------------------------------------------------------

/// No string comes before itself.
pub proof fn lemma_seq_lt_irreflexive(a: Seq<char>)
    ensures
        !seq_lt(a, a),
    decreases a.len(),
{
    if a.len() > 0 {
        lemma_seq_lt_irreflexive(a.drop_first());
    }
}

/// The order is transitive.
pub proof fn lemma_seq_lt_transitive(a: Seq<char>, b: Seq<char>, c: Seq<char>)
    requires
        seq_lt(a, b),
        seq_lt(b, c),
    ensures
        seq_lt(a, c),
    decreases a.len(),
{
    if a.len() > 0 && b.len() > 0 && c.len() > 0 {
        if a[0] == b[0] && b[0] == c[0] {
            lemma_seq_lt_transitive(a.drop_first(), b.drop_first(), c.drop_first());
        }
    }
}

/// Two different strings are ordered one way or the other.
pub proof fn lemma_seq_lt_total(a: Seq<char>, b: Seq<char>)
    ensures
        a == b || seq_lt(a, b) || seq_lt(b, a),
    decreases a.len(),
{
    if a.len() > 0 && b.len() > 0 {
        if a[0] == b[0] {
            lemma_seq_lt_total(a.drop_first(), b.drop_first());
            if a.drop_first() == b.drop_first() {
                assert(a =~= seq![a[0]] + a.drop_first());
                assert(b =~= seq![b[0]] + b.drop_first());
            }
        } else {
            lemma_char_code_injective(a[0], b[0]);
        }
    } else if a.len() == 0 && b.len() == 0 {
        assert(a =~= b);
    }
}

/// Different characters have different codes.
pub proof fn lemma_char_code_injective(x: char, y: char)
    requires
        x != y,
    ensures
        (x as u32) != (y as u32),
{
    assert((x as int) != (y as int));
}

/// The order is asymmetric.
pub proof fn lemma_seq_lt_asymmetric(a: Seq<char>, b: Seq<char>)
    requires
        seq_lt(a, b),
    ensures
        !seq_lt(b, a),
{
    if seq_lt(b, a) {
        lemma_seq_lt_transitive(a, b, a);
        lemma_seq_lt_irreflexive(a);
    }
}

/// Trimming white space from the end keeps every character up to a non-white one.
proof fn lemma_trim_end_ws_keeps(s: Seq<char>, i: int)
    requires
        0 <= i < s.len(),
        !is_white_space(s[i]),
    ensures
        trim_end_ws(s).len() > i,
        trim_end_ws(s)[i] == s[i],
    decreases s.len(),
{
    if s.len() > 0 && is_white_space(s.last()) {
        assert(s.drop_last()[i] == s[i]);
        lemma_trim_end_ws_keeps(s.drop_last(), i);
    }
}

/// Trimming white space from the start leaves something when a non-white character remains.
proof fn lemma_trim_start_ws_keeps(s: Seq<char>, i: int)
    requires
        0 <= i < s.len(),
        !is_white_space(s[i]),
    ensures
        trim_start_ws(s).len() > 0,
    decreases s.len(),
{
    if s.len() > 0 && is_white_space(s[0]) {
        assert(s.drop_first()[i - 1] == s[i]);
        lemma_trim_start_ws_keeps(s.drop_first(), i - 1);
    }
}

/// Text holding a character that is not white space is not blank.
pub proof fn lemma_not_blank(s: Seq<char>, i: int)
    requires
        0 <= i < s.len(),
        !is_white_space(s[i]),
    ensures
        trim_ws(s).len() > 0,
{
    lemma_trim_end_ws_keeps(s, i);
    lemma_trim_start_ws_keeps(trim_end_ws(s), i);
}

/// Dropping one trailing `c` does not change the trimmed text.
proof fn lemma_trim_end_char_step(s: Seq<char>, k: int, c: char)
    requires
        0 < k <= s.len(),
        s[k - 1] == c,
    ensures
        trim_end_char(s.take(k), c) == trim_end_char(s.take(k - 1), c),
{
    assert(s.take(k).drop_last() =~= s.take(k - 1));
}

/// Dropping one trailing white-space character does not change the trimmed text.
proof fn lemma_trim_end_ws_step(s: Seq<char>, k: int)
    requires
        0 < k <= s.len(),
        is_white_space(s[k - 1]),
    ensures
        trim_end_ws(s.take(k)) == trim_end_ws(s.take(k - 1)),
{
    assert(s.take(k).drop_last() =~= s.take(k - 1));
}

/// Splitting one more character.
proof fn lemma_split_state_step(s: Seq<char>, k: int, sep: char)
    requires
        0 <= k < s.len(),
    ensures
        split_state(s.take(k + 1), sep) == (if s[k] == sep {
            (split_state(s.take(k), sep).0.push(split_state(s.take(k), sep).1), Seq::<char>::empty())
        } else {
            (split_state(s.take(k), sep).0, split_state(s.take(k), sep).1.push(s[k]))
        }),
{
    assert(s.take(k + 1).drop_last() =~= s.take(k));
}

/// Every piece produced by splitting is free of the separator.
pub proof fn lemma_split_state_pieces(s: Seq<char>, sep: char)
    ensures
        forall|i: int|
            0 <= i < split_state(s, sep).0.len() ==> !has_char(
                #[trigger] split_state(s, sep).0[i],
                sep,
            ),
        !has_char(split_state(s, sep).1, sep),
    decreases s.len(),
{
    if s.len() > 0 {
        lemma_split_state_pieces(s.drop_last(), sep);
        let (done, cur) = split_state(s.drop_last(), sep);
        if s.last() != sep {
            assert forall|i: int| 0 <= i < cur.push(s.last()).len() implies cur.push(s.last())[i]
                != sep by {
                if i < cur.len() {
                    assert(cur.push(s.last())[i] == cur[i]);
                }
            }
        }
    }
}

// ---------------------------------------------------------------------------
// Operations
// ---------------------------------------------------------------------------

/// The characters of `s` as a vector.
pub fn chars_of(s: &str) -> (v: Vec<char>)
    ensures
        v@ == s@,
{
    let mut v: Vec<char> = Vec::new();
    for c in it: s.chars()
        invariant
            v@ == it.seq().take(it.index() as int),
            it.seq() == s@,
    {
        v.push(c);
    }
    v
}

/// A `String` holding exactly the characters of `v` (std's `FromIterator<&char>` for `String`).
#[verifier::external_body]
pub(crate) fn string_of(v: &Vec<char>) -> (s: String)
    ensures
        s@ == v@,
{
    v.iter().collect()
}

/// A copy of `s` as an owned string.
pub fn owned(s: &str) -> (r: String)
    ensures
        r@ == s@,
{
    s.to_owned()
}

/// Whether two strings hold the same characters.
pub fn same_text(a: &str, b: &str) -> (r: bool)
    ensures
        r == (a@ == b@),
{
    a.to_owned() == b.to_owned()
}

/// The characters of `v` before position `k`.
pub fn prefix_of(v: &Vec<char>, k: usize) -> (r: Vec<char>)
    requires
        k <= v.len(),
    ensures
        r@ == v@.take(k as int),
{
    let mut r: Vec<char> = Vec::new();
    let mut i: usize = 0;
    while i < k
        invariant
            i <= k <= v.len(),
            r@ == v@.take(i as int),
        decreases k - i,
    {
        r.push(v[i]);
        i = i + 1;
        assert(r@ =~= v@.take(i as int));
    }
    r
}

/// The characters of `v` from position `k` on.
pub fn suffix_of(v: &Vec<char>, k: usize) -> (r: Vec<char>)
    requires
        k <= v.len(),
    ensures
        r@ == v@.skip(k as int),
{
    let mut r: Vec<char> = Vec::new();
    let mut i: usize = k;
    while i < v.len()
        invariant
            k <= i <= v.len(),
            r@ == v@.subrange(k as int, i as int),
        decreases v.len() - i,
    {
        r.push(v[i]);
        i = i + 1;
        assert(r@ =~= v@.subrange(k as int, i as int));
    }
    assert(r@ =~= v@.skip(k as int));
    r
}

/// `s` without trailing `c` characters (what `str::trim_end_matches(c)` returns).
pub fn trim_end_matching(s: &str, c: char) -> (r: String)
    ensures
        r@ == trim_end_char(s@, c),
{
    let v = chars_of(s);
    let mut k: usize = v.len();
    assert(s@.take(k as int) =~= s@);
    while k > 0 && v[k - 1] == c
        invariant
            k <= v.len(),
            v@ == s@,
            trim_end_char(s@, c) == trim_end_char(s@.take(k as int), c),
        decreases k,
    {
        proof {
            lemma_trim_end_char_step(s@, k as int, c);
        }
        k = k - 1;
    }
    proof {
        if k == v.len() {
            assert(s@.take(k as int) =~= s@);
        }
        assert(s@.take(k as int).len() == 0 || s@.take(k as int).last() != c);
    }
    string_of(&prefix_of(&v, k))
}

/// `s` without leading `c` characters (what `str::trim_start_matches(c)` returns).
pub fn trim_start_matching(s: &str, c: char) -> (r: String)
    ensures
        r@ == trim_start_char(s@, c),
{
    let v = chars_of(s);
    let mut k: usize = 0;
    assert(s@.skip(0) =~= s@);
    while k < v.len() && v[k] == c
        invariant
            k <= v.len(),
            v@ == s@,
            trim_start_char(s@, c) == trim_start_char(s@.skip(k as int), c),
        decreases v.len() - k,
    {
        assert(s@.skip(k as int).drop_first() =~= s@.skip(k + 1));
        k = k + 1;
    }
    string_of(&suffix_of(&v, k))
}

/// The URL-like `s` without trailing slashes.
pub fn trim_url(url: &str) -> (r: String)
    ensures
        r@ == trim_end_char(url@, '/'),
{
    trim_end_matching(url, '/')
}

/// `s` without leading and trailing white space (what `str::trim` returns).
pub fn trim(s: &str) -> (r: String)
    ensures
        r@ == trim_ws(s@),
{
    let v = chars_of(s);
    let mut k: usize = v.len();
    assert(s@.take(k as int) =~= s@);
    while k > 0 && is_white_space_char(v[k - 1])
        invariant
            k <= v.len(),
            v@ == s@,
            trim_end_ws(s@) == trim_end_ws(s@.take(k as int)),
        decreases k,
    {
        proof {
            lemma_trim_end_ws_step(s@, k as int);
        }
        k = k - 1;
    }
    proof {
        if k == v.len() {
            assert(s@.take(k as int) =~= s@);
        }
    }
    let w = prefix_of(&v, k);
    assert(w@ == trim_end_ws(s@));
    let mut j: usize = 0;
    assert(w@.skip(0) =~= w@);
    while j < w.len() && is_white_space_char(w[j])
        invariant
            j <= w.len(),
            trim_start_ws(w@) == trim_start_ws(w@.skip(j as int)),
        decreases w.len() - j,
    {
        assert(w@.skip(j as int).drop_first() =~= w@.skip(j + 1));
        j = j + 1;
    }
    string_of(&suffix_of(&w, j))
}

/// Whether `c` is white space.
pub fn is_white_space_char(c: char) -> (r: bool)
    ensures
        r == is_white_space(c),
{
    let u = c as u32;
    (0x9 <= u && u <= 0xd) || u == 0x20 || u == 0x85 || u == 0xa0 || u == 0x1680 || (0x2000 <= u
        && u <= 0x200a) || u == 0x2028 || u == 0x2029 || u == 0x202f || u == 0x205f || u == 0x3000
}

/// Whether `s` holds only white space.
pub fn is_blank(s: &str) -> (r: bool)
    ensures
        r == (trim_ws(s@).len() == 0),
{
    let t = trim(s);
    t.as_str().is_empty()
}

/// Whether `prefix` is an initial segment of `s`.
pub fn starts_with(s: &str, prefix: &str) -> (r: bool)
    ensures
        r == has_prefix(s@, prefix@),
{
    let v = chars_of(s);
    let p = chars_of(prefix);
    if p.len() > v.len() {
        return false;
    }
    let mut i: usize = 0;
    while i < p.len()
        invariant
            i <= p.len() <= v.len(),
            v@ == s@,
            p@ == prefix@,
            forall|j: int| 0 <= j < i ==> v@[j] == p@[j],
        decreases p.len() - i,
    {
        if v[i] != p[i] {
            assert(s@.take(prefix@.len() as int)[i as int] != prefix@[i as int]);
            return false;
        }
        i = i + 1;
    }
    assert(s@.take(prefix@.len() as int) =~= prefix@);
    true
}

/// The position of the first `c` in `v`, if any.
pub fn find_char(v: &Vec<char>, c: char) -> (r: Option<usize>)
    ensures
        r matches Some(i) ==> first_index(v@, c) == Some(i as int),
        r is None ==> first_index(v@, c) is None,
{
    let mut i: usize = 0;
    while i < v.len()
        invariant
            i <= v.len(),
            forall|j: int| 0 <= j < i ==> v@[j] != c,
        decreases v.len() - i,
    {
        if v[i] == c {
            proof {
                lemma_first_index_at(v@, c, i as int);
            }
            return Some(i);
        }
        i = i + 1;
    }
    proof {
        lemma_first_index_none(v@, c);
    }
    None
}

/// The first position holding `c` is the one `first_index` finds.
proof fn lemma_first_index_at(s: Seq<char>, c: char, i: int)
    requires
        0 <= i < s.len(),
        s[i] == c,
        forall|j: int| 0 <= j < i ==> s[j] != c,
    ensures
        first_index(s, c) == Some(i),
    decreases i,
{
    if i > 0 {
        lemma_first_index_at(s.drop_first(), c, i - 1);
    }
}

/// When `c` does not occur, `first_index` finds nothing.
proof fn lemma_first_index_none(s: Seq<char>, c: char)
    requires
        forall|j: int| 0 <= j < s.len() ==> s[j] != c,
    ensures
        first_index(s, c) is None,
    decreases s.len(),
{
    if s.len() > 0 {
        lemma_first_index_none(s.drop_first(), c);
    }
}

/// Properties of the first occurrence.
pub proof fn lemma_first_index_facts(s: Seq<char>, c: char)
    ensures
        first_index(s, c) matches Some(i) ==> 0 <= i < s.len() && s[i] == c && forall|j: int|
            0 <= j < i ==> s[j] != c,
        first_index(s, c) is None <==> !has_char(s, c),
    decreases s.len(),
{
    if s.len() > 0 {
        lemma_first_index_facts(s.drop_first(), c);
        if s[0] != c {
            if let Some(i) = first_index(s.drop_first(), c) {
                assert(s[i + 1] == c);
                assert forall|j: int| 0 <= j < i + 1 implies s[j] != c by {
                    if j > 0 {
                        assert(s[j] == s.drop_first()[j - 1]);
                    }
                }
            }
            if has_char(s, c) {
                let k = choose|k: int| 0 <= k < s.len() && s[k] == c;
                assert(s.drop_first()[k - 1] == c);
            }
            if has_char(s.drop_first(), c) {
                let k = choose|k: int| 0 <= k < s.drop_first().len() && s.drop_first()[k] == c;
                assert(s[k + 1] == c);
            }
        }
    }
}

/// The two sides of the first `c` in `s` (what `str::split_once(c)` returns).
pub fn split_once(s: &str, c: char) -> (r: Option<(String, String)>)
    ensures
        r matches Some(p) ==> split_once_spec(s@, c) == Some((p.0@, p.1@)),
        r is None ==> split_once_spec(s@, c) is None,
{
    let v = chars_of(s);
    match find_char(&v, c) {
        Some(i) => {
            proof {
                lemma_first_index_facts(v@, c);
            }
            Some((string_of(&prefix_of(&v, i)), string_of(&suffix_of(&v, i + 1))))
        },
        None => None,
    }
}

/// `s` split at every `sep`, as character vectors.
pub fn split_chars(s: &Vec<char>, sep: char) -> (r: Vec<Vec<char>>)
    ensures
        char_views(r@) == split_char(s@, sep),
{
    let mut done: Vec<Vec<char>> = Vec::new();
    let mut cur: Vec<char> = Vec::new();
    let mut i: usize = 0;
    while i < s.len()
        invariant
            i <= s.len(),
            (char_views(done@), cur@) == split_state(s@.take(i as int), sep),
        decreases s.len() - i,
    {
        proof {
            lemma_split_state_step(s@, i as int, sep);
        }
        if s[i] == sep {
            let finished = cur;
            cur = Vec::new();
            done.push(finished);
            assert(char_views(done@) =~= split_state(s@.take(i + 1), sep).0);
        } else {
            cur.push(s[i]);
            assert(cur@ =~= split_state(s@.take(i + 1), sep).1);
        }
        i = i + 1;
    }
    assert(s@.take(s@.len() as int) =~= s@);
    let ghost before = char_views(done@);
    done.push(cur);
    assert(char_views(done@) =~= before.push(cur@));
    done
}

/// `s` split at every `sep` (what `str::split(sep)` returns).
pub fn split(s: &str, sep: char) -> (r: Vec<String>)
    ensures
        string_views(r@) == split_char(s@, sep),
{
    let pieces = split_chars(&chars_of(s), sep);
    let mut r: Vec<String> = Vec::new();
    let mut i: usize = 0;
    while i < pieces.len()
        invariant
            i <= pieces.len(),
            string_views(r@) == char_views(pieces@).take(i as int),
        decreases pieces.len() - i,
    {
        let piece = string_of(&pieces[i]);
        assert(char_views(pieces@)[i as int] == pieces@[i as int]@);
        let ghost before = string_views(r@);
        r.push(piece);
        assert(string_views(r@) =~= before.push(piece@));
        assert(char_views(pieces@).take(i + 1) =~= char_views(pieces@).take(i as int).push(
            pieces@[i as int]@,
        ));
        i = i + 1;
        assert(string_views(r@) =~= char_views(pieces@).take(i as int));
    }
    assert(char_views(pieces@).take(pieces.len() as int) =~= char_views(pieces@));
    r
}

/// The lines of `s` (what `str::lines` returns).
pub fn lines(s: &str) -> (r: Vec<String>)
    ensures
        string_views(r@) == lines_spec(s@),
{
    let pieces = split_chars(&chars_of(s), '\n');
    let ghost spieces = split_char(s@, '\n');
    assert(char_views(pieces@) == spieces);
    let n = pieces.len();
    let mut r: Vec<String> = Vec::new();
    let mut i: usize = 0;
    let ghost ended = spieces.drop_last().map_values(|p: Seq<char>| strip_cr(p));
    while i + 1 < n
        invariant
            n == pieces.len() >= 1,
            char_views(pieces@) == spieces,
            ended == spieces.drop_last().map_values(|p: Seq<char>| strip_cr(p)),
            i + 1 <= n,
            string_views(r@) == ended.take(i as int),
        decreases n - i,
    {
        let piece = &pieces[i];
        let m = piece.len();
        let line = if m > 0 && piece[m - 1] == '\r' {
            prefix_of(piece, m - 1)
        } else {
            prefix_of(piece, m)
        };
        proof {
            assert(piece@ == spieces[i as int]);
            assert(piece@.take(m as int) =~= piece@);
            if m > 0 {
                assert(piece@.take(m - 1) =~= piece@.drop_last());
            }
        }
        assert(ended[i as int] == strip_cr(spieces[i as int]));
        assert(char_views(pieces@)[i as int] == pieces@[i as int]@);
        let ghost before = string_views(r@);
        let text = string_of(&line);
        r.push(text);
        assert(string_views(r@) =~= before.push(text@));
        assert(ended.take(i + 1) =~= ended.take(i as int).push(ended[i as int]));
        i = i + 1;
        assert(string_views(r@) =~= ended.take(i as int));
    }
    assert(ended.take(i as int) =~= ended);
    let last = &pieces[n - 1];
    if last.len() > 0 {
        let ghost before = string_views(r@);
        r.push(string_of(last));
        assert(string_views(r@) =~= before.push(last@));
    }
    r
}

/// Whether `a` and `b` are equal when ASCII letters are compared without case
/// (what `str::eq_ignore_ascii_case` returns).
pub fn eq_ignore_ascii_case(a: &str, b: &str) -> (r: bool)
    ensures
        r == (ascii_lower(a@) == ascii_lower(b@)),
{
    let x = chars_of(a);
    let y = chars_of(b);
    if x.len() != y.len() {
        assert(ascii_lower(a@).len() != ascii_lower(b@).len());
        return false;
    }
    let mut i: usize = 0;
    while i < x.len()
        invariant
            i <= x.len() == y.len(),
            x@ == a@,
            y@ == b@,
            forall|j: int| 0 <= j < i ==> ascii_lower_char(x@[j]) == ascii_lower_char(y@[j]),
        decreases x.len() - i,
    {
        if lower_char(x[i]) != lower_char(y[i]) {
            assert(ascii_lower(a@)[i as int] != ascii_lower(b@)[i as int]);
            return false;
        }
        i = i + 1;
    }
    assert(ascii_lower(a@) =~= ascii_lower(b@));
    true
}

/// `c` in lower case when it is an ASCII letter.
pub fn lower_char(c: char) -> (r: char)
    ensures
        r == ascii_lower_char(c),
{
    if 'A' <= c && c <= 'Z' {
        let u = (c as u32) + 32;
        assert(0x61 <= u <= 0x7a);
        char_from_ascii(u)
    } else {
        c
    }
}

/// The character with the ASCII code `u`.
fn char_from_ascii(u: u32) -> (r: char)
    requires
        u < 0x80,
    ensures
        r == u as char,
{
    let b = u as u8;
    assert(b == u);
    b as char
}

/// `s` with ASCII letters in lower case (what `str::to_ascii_lowercase` returns).
pub fn to_ascii_lowercase(s: &str) -> (r: String)
    ensures
        r@ == ascii_lower(s@),
{
    let v = chars_of(s);
    let mut w: Vec<char> = Vec::new();
    let mut i: usize = 0;
    while i < v.len()
        invariant
            i <= v.len(),
            v@ == s@,
            w@ == ascii_lower(s@).take(i as int),
        decreases v.len() - i,
    {
        w.push(lower_char(v[i]));
        i = i + 1;
        assert(w@ =~= ascii_lower(s@).take(i as int));
    }
    assert(ascii_lower(s@).take(v.len() as int) =~= ascii_lower(s@));
    string_of(&w)
}

/// Whether `a` comes strictly before `b`.
pub fn text_less(a: &str, b: &str) -> (r: bool)
    ensures
        r == seq_lt(a@, b@),
{
    let x = chars_of(a);
    let y = chars_of(b);
    let mut i: usize = 0;
    assert(x@.skip(0) =~= x@);
    assert(y@.skip(0) =~= y@);
    while i < x.len() && i < y.len() && x[i] == y[i]
        invariant
            i <= x.len(),
            i <= y.len(),
            x@ == a@,
            y@ == b@,
            seq_lt(a@, b@) == seq_lt(x@.skip(i as int), y@.skip(i as int)),
        decreases x.len() - i,
    {
        assert(x@.skip(i as int).drop_first() =~= x@.skip(i + 1));
        assert(y@.skip(i as int).drop_first() =~= y@.skip(i + 1));
        i = i + 1;
    }
    if i == x.len() {
        i < y.len()
    } else if i == y.len() {
        false
    } else {
        (x[i] as u32) < (y[i] as u32)
    }
}

/// `s` with every `c` replaced by `r` (what `str::replace` returns for a character pattern).
pub fn replace(s: &str, c: char, r: &str) -> (out: String)
    ensures
        out@ == replace_char(s@, c, r@),
{
    let v = chars_of(s);
    let rv = chars_of(r);
    let mut w: Vec<char> = Vec::new();
    let mut i: usize = 0;
    while i < v.len()
        invariant
            i <= v.len(),
            v@ == s@,
            rv@ == r@,
            w@ == replace_char(s@.take(i as int), c, r@),
        decreases v.len() - i,
    {
        assert(s@.take(i + 1).drop_last() =~= s@.take(i as int));
        if v[i] == c {
            let mut add = rv.clone();
            assert(add@ == rv@);
            w.append(&mut add);
        } else {
            w.push(v[i]);
        }
        i = i + 1;
        assert(w@ =~= replace_char(s@.take(i as int), c, r@));
    }
    assert(s@.take(v.len() as int) =~= s@);
    string_of(&w)
}

/// `a` followed by `b`.
pub fn concat(a: &str, b: &str) -> (r: String)
    ensures
        r@ == a@ + b@,
{
    let mut v = chars_of(a);
    let mut w = chars_of(b);
    v.append(&mut w);
    string_of(&v)
}


/// The decimal digit `d`.
pub open spec fn digit_char(d: int) -> char {
    if d == 0 {
        '0'
    } else if d == 1 {
        '1'
    } else if d == 2 {
        '2'
    } else if d == 3 {
        '3'
    } else if d == 4 {
        '4'
    } else if d == 5 {
        '5'
    } else if d == 6 {
        '6'
    } else if d == 7 {
        '7'
    } else if d == 8 {
        '8'
    } else {
        '9'
    }
}

/// The decimal digits of `n`, most significant first, without leading zeros.
pub open spec fn digits(n: nat) -> Seq<char>
    decreases n,
{
    if n < 10 {
        seq![digit_char(n as int)]
    } else {
        digits(n / 10).push(digit_char((n % 10) as int))
    }
}

/// `n` in decimal, with a leading `-` when negative (what `Display` prints for integers).
pub open spec fn decimal(n: int) -> Seq<char> {
    if n < 0 {
        seq!['-'] + digits((-n) as nat)
    } else {
        digits(n as nat)
    }
}

/// The digit character for `d`.
fn digit(d: u64) -> (c: char)
    requires
        d < 10,
    ensures
        c == digit_char(d as int),
{
    if d == 0 {
        '0'
    } else if d == 1 {
        '1'
    } else if d == 2 {
        '2'
    } else if d == 3 {
        '3'
    } else if d == 4 {
        '4'
    } else if d == 5 {
        '5'
    } else if d == 6 {
        '6'
    } else if d == 7 {
        '7'
    } else if d == 8 {
        '8'
    } else {
        '9'
    }
}

/// The decimal digits of `n`.
fn digits_of(n: u64) -> (v: Vec<char>)
    ensures
        v@ == digits(n as nat),
    decreases n,
{
    if n < 10 {
        let mut v: Vec<char> = Vec::new();
        v.push(digit(n));
        assert(v@ =~= seq![digit_char(n as int)]);
        v
    } else {
        let mut v = digits_of(n / 10);
        v.push(digit(n % 10));
        v
    }
}

/// `n` in decimal.
pub fn decimal_text(n: i32) -> (r: String)
    ensures
        r@ == decimal(n as int),
{
    if n < 0 {
        let m: u64 = (0i64 - n as i64) as u64;
        let mut v: Vec<char> = Vec::new();
        v.push('-');
        let mut rest = digits_of(m);
        v.append(&mut rest);
        assert(v@ =~= seq!['-'] + digits((-n) as nat));
        string_of(&v)
    } else {
        string_of(&digits_of(n as u64))
    }
}

/// The pieces joined with `sep` between each two (what `[String]::join` returns).
pub open spec fn join(parts: Seq<Seq<char>>, sep: Seq<char>) -> Seq<char>
    decreases parts.len(),
{
    if parts.len() == 0 {
        Seq::empty()
    } else if parts.len() == 1 {
        parts[0]
    } else {
        join(parts.drop_last(), sep) + sep + parts.last()
    }
}

/// The strings joined with `sep` between each two.
pub fn join_strings(v: &Vec<String>, sep: &str) -> (r: String)
    ensures
        r@ == join(string_views(v@), sep@),
{
    let ghost all = string_views(v@);
    let mut acc = String::new();
    let mut i: usize = 0;
    while i < v.len()
        invariant
            i <= v.len(),
            all == string_views(v@),
            acc@ == join(all.take(i as int), sep@),
        decreases v.len() - i,
    {
        assert(all.take(i + 1).drop_last() =~= all.take(i as int));
        assert(all.take(i + 1).last() == v@[i as int]@);
        if i == 0 {
            acc = owned(v[i].as_str());
            assert(all.take(1) =~= seq![v@[0]@]);
        } else {
            let with_sep = concat(acc.as_str(), sep);
            acc = concat(with_sep.as_str(), v[i].as_str());
        }
        i = i + 1;
    }
    assert(all.take(v.len() as int) =~= all);
    acc
}

} // verus!
