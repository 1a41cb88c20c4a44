//! Unix paths held as character sequences: joining a path with a further part,
//! and the file name and file stem of a path, as `std::path` defines them.
use vstd::prelude::*;
use crate::text::{chars_of, slice_of, string_of};

verus! {

// ---------------------------------------------------------------------------
// Specifications
// ---------------------------------------------------------------------------

/// `base.join(part)`: a `part` that starts with `'/'` replaces `base`; otherwise `part`
/// is appended, with a `'/'` between them unless `base` is empty or already ends in one.
pub open spec fn join(base: Seq<char>, part: Seq<char>) -> Seq<char> {
    if part.len() > 0 && part[0] == '/' {
        part
    } else if base.len() > 0 && base.last() != '/' {
        base + seq!['/'] + part
    } else {
        base + part
    }
}

/// The index of the last `c` in `s`, or `-1` if `s` holds none.
pub open spec fn last_index_of(s: Seq<char>, c: char) -> int
    decreases s.len(),
{
    if s.len() == 0 {
        -1
    } else if s.last() == c {
        s.len() - 1
    } else {
        last_index_of(s.drop_last(), c)
    }
}

/// The last component of `p` that is neither empty nor `"."`: the text after the
/// last `'/'`, where trailing `'/'`s and `"."` components are skipped.
pub open spec fn last_component(p: Seq<char>) -> Option<Seq<char>>
    decreases p.len(),
{
    let k = last_index_of(p, '/');
    let seg = p.subrange(k + 1, p.len() as int);
    if seg.len() > 0 && seg != seq!['.'] {
        Some(seg)
    } else if k < 0 {
        None
    } else {
        proof {
            lemma_last_index_bounds(p, '/');
        }
        last_component(p.subrange(0, k))
    }
}

/// `Path::file_name`: the last component, unless the path has none or ends in `".."`.
pub open spec fn file_name(p: Seq<char>) -> Option<Seq<char>> {
    match last_component(p) {
        Some(c) => if c == seq!['.', '.'] {
            None
        } else {
            Some(c)
        },
        None => None,
    }
}

/// The stem of a file name: the name up to its last `'.'`, unless that dot is the
/// first character or there is none (then the whole name).
pub open spec fn stem_of(name: Seq<char>) -> Seq<char> {
    let d = last_index_of(name, '.');
    if name == seq!['.', '.'] || d <= 0 {
        name
    } else {
        name.take(d)
    }
}

/// `Path::file_stem`.
pub open spec fn file_stem(p: Seq<char>) -> Option<Seq<char>> {
    match file_name(p) {
        Some(n) => Some(stem_of(n)),
        None => None,
    }
}

/// `Path::file_stem(..).unwrap_or_default()`: the stem, or the empty text.
pub open spec fn stem_or_empty(p: Seq<char>) -> Seq<char> {
    match file_stem(p) {
        Some(s) => s,
        None => Seq::empty(),
    }
}

/// `s` holds no `c`.
pub open spec fn lacks(s: Seq<char>, c: char) -> bool {
    forall|i: int| 0 <= i < s.len() ==> s[i] != c
}

/// A single path component: non-empty, no `'/'`, and neither `"."` nor `".."`.
pub open spec fn is_plain_name(n: Seq<char>) -> bool {
    &&& n.len() > 0
    &&& lacks(n, '/')
    &&& n != seq!['.']
    &&& n != seq!['.', '.']
}

// ---------------------------------------------------------------------------
// Lemmas
// ---------------------------------------------------------------------------

/// What `last_index_of` returns.
pub proof fn lemma_last_index_bounds(s: Seq<char>, c: char)
    ensures
        -1 <= last_index_of(s, c) < s.len(),
        last_index_of(s, c) >= 0 ==> s[last_index_of(s, c)] == c,
        forall|j: int| last_index_of(s, c) < j < s.len() ==> s[j] != c,
    decreases s.len(),
{
    if s.len() > 0 && s.last() != c {
        lemma_last_index_bounds(s.drop_last(), c);
        assert forall|j: int| last_index_of(s, c) < j < s.len() implies s[j] != c by {
            if j < s.len() - 1 {
                assert(s[j] == s.drop_last()[j]);
            }
        }
    }
}

/// If `s[k] == c` (or `k == -1`) and no `c` follows, then `k` is the last index of `c`.
pub proof fn lemma_last_index_at(s: Seq<char>, c: char, k: int)
    requires
        -1 <= k < s.len(),
        k >= 0 ==> s[k] == c,
        forall|j: int| k < j < s.len() ==> s[j] != c,
    ensures
        last_index_of(s, c) == k,
    decreases s.len(),
{
    if s.len() > 0 && k < s.len() - 1 {
        assert(s.last() != c);
        lemma_last_index_at(s.drop_last(), c, k);
    }
}

/// The last component of a path holds no `'/'`.
pub proof fn lemma_last_component_lacks_slash(p: Seq<char>)
    ensures
        last_component(p) matches Some(c) ==> c.len() > 0 && lacks(c, '/'),
    decreases p.len(),
{
    let k = last_index_of(p, '/');
    lemma_last_index_bounds(p, '/');
    let seg = p.subrange(k + 1, p.len() as int);
    if seg.len() > 0 && seg != seq!['.'] {
        assert forall|i: int| 0 <= i < seg.len() implies seg[i] != '/' by {
            assert(seg[i] == p[k + 1 + i]);
        }
    } else if k >= 0 {
        lemma_last_component_lacks_slash(p.subrange(0, k));
    }
}

/// A path's file name and stem hold no `'/'`.
pub proof fn lemma_file_stem_lacks_slash(p: Seq<char>)
    ensures
        file_name(p) matches Some(n) ==> lacks(n, '/'),
        lacks(stem_or_empty(p), '/'),
{
    lemma_last_component_lacks_slash(p);
    if let Some(n) = file_name(p) {
        let st = stem_of(n);
        lemma_last_index_bounds(n, '.');
        assert forall|i: int| 0 <= i < st.len() implies st[i] != '/' by {
            assert(st[i] == n[i]);
        }
    }
}

/// Joining a plain name onto any path gives a path whose file name is that name.
pub proof fn lemma_file_name_of_join(base: Seq<char>, part: Seq<char>)
    requires
        is_plain_name(part),
    ensures
        file_name(join(base, part)) == Some(part),
{
    let j = join(base, part);
    assert(part[0] != '/');
    let prefix = if base.len() > 0 && base.last() != '/' {
        base + seq!['/']
    } else {
        base
    };
    assert(j =~= prefix + part);
    let k = prefix.len() - 1;
    assert forall|t: int| k < t < j.len() implies j[t] != '/' by {
        assert(j[t] == part[t - prefix.len()]);
    }
    lemma_last_index_at(j, '/', k);
    assert(j.subrange(k + 1, j.len() as int) =~= part);
}

/// The stem of `name + ext`, where `name` is non-empty and `ext` is a `'.'` followed
/// by non-empty dot-free text, is `name`.
pub proof fn lemma_stem_of_extension(name: Seq<char>, ext: Seq<char>)
    requires
        name.len() > 0,
        ext.len() > 1,
        ext[0] == '.',
        forall|i: int| 0 < i < ext.len() ==> ext[i] != '.',
    ensures
        stem_of(name + ext) == name,
{
    let n = name + ext;
    assert forall|t: int| name.len() < t < n.len() implies n[t] != '.' by {
        assert(n[t] == ext[t - name.len()]);
    }
    lemma_last_index_at(n, '.', name.len() as int);
    assert(n != seq!['.', '.']) by {
        assert(n.len() > 2);
    }
    assert(n.take(name.len() as int) =~= name);
}

// ---------------------------------------------------------------------------
// Executable functions
// ---------------------------------------------------------------------------

/// `base.join(part)` on character sequences.
pub fn join_chars(base: &Vec<char>, part: &Vec<char>) -> (r: Vec<char>)
    ensures
        r@ == join(base@, part@),
{
    if part.len() > 0 && part[0] == '/' {
        return slice_of(part, 0, part.len());
    }
    let mut r = slice_of(base, 0, base.len());
    if base.len() > 0 && base[base.len() - 1] != '/' {
        r.push('/');
    }
    let prefix_len = r.len();
    let mut i: usize = 0;
    while i < part.len()
        invariant
            i <= part.len(),
            r.len() == prefix_len + i,
            r@.take(prefix_len as int) == (if base@.len() > 0 && base@.last() != '/' {
                base@ + seq!['/']
            } else {
                base@
            }),
            r@.skip(prefix_len as int) == part@.take(i as int),
        decreases part.len() - i,
    {
        let ghost before = r@;
        r.push(part[i]);
        assert(r@.take(prefix_len as int) =~= before.take(prefix_len as int));
        assert(r@.skip(prefix_len as int) =~= part@.take(i + 1));
        i = i + 1;
    }
    proof {
        assert(part@.take(part.len() as int) =~= part@);
        assert(r@ =~= r@.take(prefix_len as int) + r@.skip(prefix_len as int));
        assert(base@.subrange(0, base@.len() as int) =~= base@);
    }
    r
}

/// `Path::file_name` on character sequences.
pub fn file_name_chars(p: &Vec<char>) -> (r: Option<Vec<char>>)
    ensures
        match r {
            Some(v) => file_name(p@) == Some(v@),
            None => file_name(p@) is None,
        },
{
    let mut i: usize = p.len();
    assert(p@.subrange(0, i as int) =~= p@);
    loop
        invariant
            i <= p.len(),
            last_component(p@) == last_component(p@.subrange(0, i as int)),
        decreases i,
    {
        let ghost t = p@.subrange(0, i as int);
        let mut j: usize = i;
        while j > 0 && p[j - 1] != '/'
            invariant
                j <= i <= p.len(),
                forall|x: int| j <= x < i ==> p@[x] != '/',
            decreases j,
        {
            j = j - 1;
        }
        proof {
            lemma_last_index_at(t, '/', j - 1);
        }
        let seg = slice_of(p, j, i);
        assert(t.subrange(j as int, t.len() as int) =~= seg@);
        let is_dot = seg.len() == 1 && seg[0] == '.';
        if is_dot {
            assert(seg@ =~= seq!['.']);
        }
        if seg.len() > 0 && !is_dot {
            if seg.len() == 2 && seg[0] == '.' && seg[1] == '.' {
                assert(seg@ =~= seq!['.', '.']);
                return None;
            }
            return Some(seg);
        }
        if j == 0 {
            return None;
        }
        assert(t.subrange(0, j - 1) =~= p@.subrange(0, j - 1));
        i = j - 1;
    }
}

/// The stem of a file name.
pub fn stem_of_chars(name: &Vec<char>) -> (r: Vec<char>)
    ensures
        r@ == stem_of(name@),
{
    let mut j: usize = name.len();
    while j > 0 && name[j - 1] != '.'
        invariant
            j <= name.len(),
            forall|x: int| j <= x < name.len() ==> name@[x] != '.',
        decreases j,
    {
        j = j - 1;
    }
    proof {
        lemma_last_index_at(name@, '.', j - 1);
    }
    let is_dotdot = name.len() == 2 && name[0] == '.' && name[1] == '.';
    if is_dotdot {
        assert(name@ =~= seq!['.', '.']);
    }
    if is_dotdot || j <= 1 {
        slice_of(name, 0, name.len())
    } else {
        slice_of(name, 0, j - 1)
    }
}

/// `Path::file_stem` on character sequences.
pub fn file_stem_chars(p: &Vec<char>) -> (r: Option<Vec<char>>)
    ensures
        match r {
            Some(v) => file_stem(p@) == Some(v@),
            None => file_stem(p@) is None,
        },
{
    match file_name_chars(p) {
        Some(n) => Some(stem_of_chars(&n)),
        None => None,
    }
}

/// `Path::file_stem(..).unwrap_or_default()` on character sequences.
pub fn stem_or_empty_chars(p: &Vec<char>) -> (r: Vec<char>)
    ensures
        r@ == stem_or_empty(p@),
{
    match file_stem_chars(p) {
        Some(s) => s,
        None => Vec::new(),
    }
}

/// `PathBuf::from(base).join(part)`, for paths held as text.
pub fn join_path(base: &str, part: &str) -> (r: String)
    ensures
        r@ == join(base@, part@),
{
    let b = chars_of(base);
    let q = chars_of(part);
    string_of(&join_chars(&b, &q))
}

/// `Path::new(p).file_name()`, for a path held as text.
pub fn path_file_name(p: &str) -> (r: Option<String>)
    ensures
        match r {
            Some(n) => file_name(p@) == Some(n@),
            None => file_name(p@) is None,
        },
{
    let v = chars_of(p);
    match file_name_chars(&v) {
        Some(n) => Some(string_of(&n)),
        None => None,
    }
}

/// `Path::new(p).file_stem()`, for a path held as text.
pub fn path_file_stem(p: &str) -> (r: Option<String>)
    ensures
        match r {
            Some(n) => file_stem(p@) == Some(n@),
            None => file_stem(p@) is None,
        },
{
    let v = chars_of(p);
    match file_stem_chars(&v) {
        Some(n) => Some(string_of(&n)),
        None => None,
    }
}

} // verus!
