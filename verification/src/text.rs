//! Character-sequence utilities over `Seq<char>`: substring search, the lines of a
//! text, the field after a delimiter, and trimming. Each executable function is
//! proved against the spec function that says what it returns.
use vstd::prelude::*;

verus! {

// ---------------------------------------------------------------------------
// Specifications
// ---------------------------------------------------------------------------

/// `pat` occurs in `s` starting at index `i`.
pub open spec fn occurs_at(s: Seq<char>, pat: Seq<char>, i: int) -> bool {
    0 <= i && i + pat.len() <= s.len() && s.subrange(i, i + pat.len()) == pat
}

/// `pat` occurs somewhere in `s` (what `str::contains` answers).
pub open spec fn contains(s: Seq<char>, pat: Seq<char>) -> bool {
    exists|i: int| occurs_at(s, pat, i)
}

/// The first index at or after `from` at which `pat` occurs in `s`.
pub open spec fn find_from(s: Seq<char>, pat: Seq<char>, from: int) -> Option<int>
    decreases s.len() + 1 - from,
{
    if from < 0 || from + pat.len() > s.len() {
        None
    } else if occurs_at(s, pat, from) {
        Some(from)
    } else {
        find_from(s, pat, from + 1)
    }
}

/// The text between the first and the second occurrence of `delim` in `s` (or the
/// end of `s`): what `s.split(delim).nth(1)` gives for a non-empty `delim`.
pub open spec fn segment_after(s: Seq<char>, delim: Seq<char>) -> Option<Seq<char>> {
    match find_from(s, delim, 0) {
        None => None,
        Some(i) => {
            let start = i + delim.len();
            match find_from(s, delim, start) {
                None => Some(s.subrange(start, s.len() as int)),
                Some(j) => Some(s.subrange(start, j)),
            }
        },
    }
}

/// The index of the first `'\n'` at or after `from`, or `s.len()` if there is none.
pub open spec fn line_end(s: Seq<char>, from: int) -> int
    decreases s.len() - from,
{
    if from < 0 || from >= s.len() {
        s.len() as int
    } else if s[from] == '\n' {
        from
    } else {
        line_end(s, from + 1)
    }
}

/// A line with one trailing `'\r'` removed, if it has one.
pub open spec fn strip_cr(line: Seq<char>) -> Seq<char> {
    if line.len() > 0 && line.last() == '\r' {
        line.drop_last()
    } else {
        line
    }
}

/// The lines of `s` from index `from` on, as `str::lines` yields them: the text is
/// split at each `'\n'`, a `'\r'` just before a `'\n'` is dropped, and a final line
/// ending is optional.
pub open spec fn lines_from(s: Seq<char>, from: int) -> Seq<Seq<char>>
    decreases s.len() - from,
{
    if from < 0 || from >= s.len() {
        Seq::empty()
    } else {
        let e = line_end(s, from);
        if e >= s.len() {
            seq![s.subrange(from, s.len() as int)]
        } else {
            proof {
                lemma_line_end_bounds(s, from);
            }
            seq![strip_cr(s.subrange(from, e))] + lines_from(s, e + 1)
        }
    }
}

/// The lines of `s` (`s.lines()`).
pub open spec fn lines(s: Seq<char>) -> Seq<Seq<char>> {
    lines_from(s, 0)
}

/// The first of `ls` that contains both `a` and `b`.
pub open spec fn first_with_both(ls: Seq<Seq<char>>, a: Seq<char>, b: Seq<char>) -> Option<
    Seq<char>,
>
    decreases ls.len(),
{
    if ls.len() == 0 {
        None
    } else if contains(ls[0], a) && contains(ls[0], b) {
        Some(ls[0])
    } else {
        first_with_both(ls.drop_first(), a, b)
    }
}

/// The first line of `s` that contains both `a` and `b`:
/// `s.lines().find(|l| l.contains(a) && l.contains(b))`.
pub open spec fn first_line_with(s: Seq<char>, a: Seq<char>, b: Seq<char>) -> Option<Seq<char>> {
    first_with_both(lines(s), a, b)
}

/// A class of characters that trimming removes.
#[derive(Clone, Copy, PartialEq, Eq, Debug)]
pub enum CharClass {
    /// The characters for which `char::is_whitespace` holds (Unicode `White_Space`).
    Whitespace,
    /// The double quote `'"'`.
    Quote,
}

/// `c` has the Unicode `White_Space` property (`char::is_whitespace`).
pub open spec fn is_whitespace(c: char) -> bool {
    let u = c as u32;
    ||| 0x09 <= u <= 0x0D
    ||| u == 0x20
    ||| u == 0x85
    ||| u == 0xA0
    ||| u == 0x1680
    ||| 0x2000 <= u <= 0x200A
    ||| u == 0x2028
    ||| u == 0x2029
    ||| u == 0x202F
    ||| u == 0x205F
    ||| u == 0x3000
}

/// `c` belongs to the class `k`.
pub open spec fn in_class(k: CharClass, c: char) -> bool {
    match k {
        CharClass::Whitespace => is_whitespace(c),
        CharClass::Quote => c == '"',
    }
}

/// `s` without its leading characters of class `k`.
pub open spec fn trim_start(s: Seq<char>, k: CharClass) -> Seq<char>
    decreases s.len(),
{
    if s.len() > 0 && in_class(k, s[0]) {
        trim_start(s.drop_first(), k)
    } else {
        s
    }
}

/// `s` without its trailing characters of class `k`.
pub open spec fn trim_end(s: Seq<char>, k: CharClass) -> Seq<char>
    decreases s.len(),
{
    if s.len() > 0 && in_class(k, s.last()) {
        trim_end(s.drop_last(), k)
    } else {
        s
    }
}

/// `s` without leading and trailing characters of class `k`
/// (`str::trim` for whitespace, `str::trim_matches('"')` for quotes).
pub open spec fn trim(s: Seq<char>, k: CharClass) -> Seq<char> {
    trim_end(trim_start(s, k), k)
}

// ---------------------------------------------------------------------------
// Lemmas
// ---------------------------------------------------------------------------

/// `line_end` lies between `from` and the end of `s`.
pub proof fn lemma_line_end_bounds(s: Seq<char>, from: int)
    requires
        0 <= from <= s.len(),
    ensures
        from <= line_end(s, from) <= s.len(),
        line_end(s, from) < s.len() ==> s[line_end(s, from)] == '\n',
        forall|j: int| from <= j < line_end(s, from) ==> s[j] != '\n',
    decreases s.len() - from,
{
    if from < s.len() && s[from] != '\n' {
        lemma_line_end_bounds(s, from + 1);
    }
}

/// What `find_from` returns: the first occurrence at or after `from`, if any.
pub proof fn lemma_find_from(s: Seq<char>, pat: Seq<char>, from: int)
    requires
        0 <= from,
    ensures
        match find_from(s, pat, from) {
            Some(i) => from <= i && occurs_at(s, pat, i) && forall|j: int|
                from <= j < i ==> !occurs_at(s, pat, j),
            None => forall|j: int| from <= j ==> !occurs_at(s, pat, j),
        },
    decreases s.len() + 1 - from,
{
    if from + pat.len() > s.len() {
    } else if occurs_at(s, pat, from) {
    } else {
        lemma_find_from(s, pat, from + 1);
    }
}

/// `contains` holds exactly when a search from the start finds something.
pub proof fn lemma_contains_iff_found(s: Seq<char>, pat: Seq<char>)
    ensures
        contains(s, pat) <==> find_from(s, pat, 0) is Some,
{
    lemma_find_from(s, pat, 0);
    if contains(s, pat) {
        let i = choose|i: int| occurs_at(s, pat, i);
        assert(0 <= i);
    }
}

/// If `pat` occurs at `k` and nowhere from `from` up to `k`, the search from `from`
/// finds `k`.
pub proof fn lemma_find_from_at(s: Seq<char>, pat: Seq<char>, from: int, k: int)
    requires
        0 <= from <= k,
        occurs_at(s, pat, k),
        forall|j: int| from <= j < k ==> !occurs_at(s, pat, j),
    ensures
        find_from(s, pat, from) == Some(k),
    decreases k - from,
{
    if from < k {
        lemma_find_from_at(s, pat, from + 1, k);
    }
}

/// The line that `first_with_both` picks contains both texts.
pub proof fn lemma_first_with_both_contains(ls: Seq<Seq<char>>, a: Seq<char>, b: Seq<char>)
    ensures
        first_with_both(ls, a, b) matches Some(x) ==> contains(x, a) && contains(x, b),
    decreases ls.len(),
{
    if ls.len() > 0 && !(contains(ls[0], a) && contains(ls[0], b)) {
        lemma_first_with_both_contains(ls.drop_first(), a, b);
    }
}

/// A text that contains `delim` has a segment after it.
pub proof fn lemma_segment_after_exists(s: Seq<char>, delim: Seq<char>)
    requires
        contains(s, delim),
    ensures
        segment_after(s, delim) is Some,
{
    lemma_contains_iff_found(s, delim);
}

proof fn trim_start_index(s: Seq<char>, k: CharClass) -> (a: int)
    ensures
        0 <= a <= s.len(),
        trim_start(s, k) == s.skip(a),
        forall|i: int| 0 <= i < a ==> in_class(k, s[i]),
        a < s.len() ==> !in_class(k, s[a]),
    decreases s.len(),
{
    if s.len() > 0 && in_class(k, s[0]) {
        let a = trim_start_index(s.drop_first(), k);
        assert(s.drop_first().skip(a) =~= s.skip(a + 1));
        assert forall|i: int| 0 <= i < a + 1 implies in_class(k, s[i]) by {
            if i > 0 {
                assert(s[i] == s.drop_first()[i - 1]);
            }
        }
        a + 1
    } else {
        assert(s.skip(0) =~= s);
        0
    }
}

proof fn trim_end_index(t: Seq<char>, k: CharClass) -> (b: int)
    ensures
        0 <= b <= t.len(),
        trim_end(t, k) == t.take(b),
        forall|i: int| b <= i < t.len() ==> in_class(k, t[i]),
        b > 0 ==> !in_class(k, t[b - 1]),
    decreases t.len(),
{
    if t.len() > 0 && in_class(k, t.last()) {
        let b = trim_end_index(t.drop_last(), k);
        assert(t.drop_last().take(b) =~= t.take(b));
        assert forall|i: int| b <= i < t.len() implies in_class(k, t[i]) by {
            if i < t.len() - 1 {
                assert(t[i] == t.drop_last()[i]);
            }
        }
        b
    } else {
        assert(t.take(t.len() as int) =~= t);
        t.len() as int
    }
}

/// What trimming does: it removes a prefix and a suffix made only of characters of
/// the class, and what is left neither starts nor ends with one; if nothing is left,
/// every character was of the class.
pub proof fn lemma_trim_characterized(s: Seq<char>, k: CharClass)
    ensures
        exists|a: int, b: int|
            #![trigger s.subrange(a, b)]
            0 <= a <= b <= s.len() && trim(s, k) == s.subrange(a, b) && (forall|i: int|
                0 <= i < a ==> in_class(k, s[i])) && (forall|i: int|
                b <= i < s.len() ==> in_class(k, s[i])),
        trim(s, k).len() > 0 ==> !in_class(k, trim(s, k)[0]) && !in_class(
            k,
            trim(s, k).last(),
        ),
        trim(s, k).len() == 0 ==> forall|i: int| 0 <= i < s.len() ==> in_class(k, s[i]),
{
    let a = trim_start_index(s, k);
    let t = s.skip(a);
    let c = trim_end_index(t, k);
    let b = a + c;
    assert(t.take(c) =~= s.subrange(a, b));
    assert forall|i: int| b <= i < s.len() implies in_class(k, s[i]) by {
        assert(s[i] == t[i - a]);
    }
    assert(s.subrange(a, b) == s.subrange(a, b));
    if c > 0 {
        assert(trim(s, k)[0] == s[a]);
        assert(trim(s, k).last() == t[c - 1]);
    } else {
        if a < s.len() {
            assert(t.len() > 0);
            assert(!in_class(k, t[0]));
            assert(in_class(k, t[0]));
        }
    }
}

/// What `segment_after` gives: for a non-empty delimiter there is a segment exactly
/// when the delimiter occurs; the segment starts right after its first occurrence,
/// holds no occurrence of it, and ends at the next occurrence or at the end of the text.
pub proof fn lemma_segment_after_characterized(s: Seq<char>, d: Seq<char>)
    requires
        d.len() > 0,
    ensures
        segment_after(s, d) is Some <==> contains(s, d),
        segment_after(s, d) matches Some(x) ==> exists|i: int|
            #![trigger occurs_at(s, d, i)]
            {
                &&& occurs_at(s, d, i)
                &&& forall|j: int| 0 <= j < i ==> !occurs_at(s, d, j)
                &&& x == s.subrange(i + d.len(), i + d.len() + x.len())
                &&& !contains(x, d)
                &&& (i + d.len() + x.len() == s.len() || occurs_at(s, d, i + d.len() + x.len()))
            },
{
    lemma_contains_iff_found(s, d);
    lemma_find_from(s, d, 0);
    if let Some(i) = find_from(s, d, 0) {
        let start = i + d.len();
        lemma_find_from(s, d, start);
        let x = segment_after(s, d)->0;
        let end = start + x.len();
        assert(x =~= s.subrange(start, end));
        assert forall|p: int| !occurs_at(x, d, p) by {
            if occurs_at(x, d, p) {
                assert(x.subrange(p, p + d.len()) =~= s.subrange(start + p, start + p + d.len()));
                assert(occurs_at(s, d, start + p));
            }
        }
        assert(occurs_at(s, d, i));
    }
}

/// A line of `s` starts at `i`: at the start of the text or just after a `'\n'`.
pub open spec fn is_line_start(s: Seq<char>, i: int) -> bool {
    0 <= i < s.len() && (i == 0 || s[i - 1] == '\n')
}

/// The line that starts at `i`: up to the next `'\n'` (one `'\r'` before it dropped),
/// or to the end of the text.
pub open spec fn line_at(s: Seq<char>, i: int) -> Seq<char> {
    let e = line_end(s, i);
    if e < s.len() {
        strip_cr(s.subrange(i, e))
    } else {
        s.subrange(i, s.len() as int)
    }
}

/// `x` contains both `a` and `b`.
pub open spec fn has_both(x: Seq<char>, a: Seq<char>, b: Seq<char>) -> bool {
    contains(x, a) && contains(x, b)
}

proof fn lemma_first_line_from(s: Seq<char>, a: Seq<char>, b: Seq<char>, pos: int)
    requires
        0 <= pos <= s.len(),
        pos == 0 || s[pos - 1] == '\n',
    ensures
        first_with_both(lines_from(s, pos), a, b) matches Some(x) ==> exists|i: int|
            #![trigger line_at(s, i)]
            pos <= i && is_line_start(s, i) && line_at(s, i) == x && has_both(x, a, b) && (
            forall|j: int| pos <= j < i && is_line_start(s, j) ==> !has_both(line_at(s, j), a, b)),
        first_with_both(lines_from(s, pos), a, b) is None ==> forall|j: int|
            pos <= j && is_line_start(s, j) ==> !has_both(line_at(s, j), a, b),
    decreases s.len() - pos,
{
    if pos < s.len() {
        let e = line_end(s, pos);
        lemma_line_end_bounds(s, pos);
        let line = line_at(s, pos);
        let rest = if e < s.len() {
            lines_from(s, e + 1)
        } else {
            Seq::empty()
        };
        assert(lines_from(s, pos) =~= seq![line] + rest);
        assert((seq![line] + rest).drop_first() =~= rest);
        assert forall|j: int| pos < j <= e && j < s.len() implies !is_line_start(s, j) by {
            assert(s[j - 1] != '\n');
        }
        if has_both(line, a, b) {
            assert(line_at(s, pos) == line);
        } else if e < s.len() {
            lemma_first_line_from(s, a, b, e + 1);
        } else {
            assert(first_with_both(Seq::<Seq<char>>::empty(), a, b) is None);
        }
    }
}

/// What `first_line_with` finds: the first line of the text that contains both `a`
/// and `b` (lines start at the beginning and after each `'\n'`); and when it finds
/// nothing, no line contains both.
pub proof fn lemma_first_line_with_characterized(s: Seq<char>, a: Seq<char>, b: Seq<char>)
    ensures
        first_line_with(s, a, b) matches Some(x) ==> exists|i: int|
            #![trigger line_at(s, i)]
            is_line_start(s, i) && line_at(s, i) == x && has_both(x, a, b) && (forall|j: int|
                0 <= j < i && is_line_start(s, j) ==> !has_both(line_at(s, j), a, b)),
        first_line_with(s, a, b) is None ==> forall|j: int|
            is_line_start(s, j) ==> !has_both(line_at(s, j), a, b),
{
    lemma_first_line_from(s, a, b, 0);
}

/// If `s[k]` is the first `'\n'` at or after `from` then `line_end` is `k`; if there is
/// none up to the end, it is `s.len()`.
proof fn lemma_line_end_at(s: Seq<char>, from: int, k: int)
    requires
        0 <= from <= k <= s.len(),
        forall|j: int| from <= j < k ==> s[j] != '\n',
        k == s.len() || s[k] == '\n',
    ensures
        line_end(s, from) == k,
    decreases k - from,
{
    if from < k {
        lemma_line_end_at(s, from + 1, k);
    }
}

proof fn lemma_trim_start_step(s: Seq<char>, k: CharClass, a: int)
    requires
        0 <= a < s.len(),
        in_class(k, s[a]),
    ensures
        trim_start(s.skip(a), k) == trim_start(s.skip(a + 1), k),
{
    assert(s.skip(a).drop_first() =~= s.skip(a + 1));
}

proof fn lemma_trim_end_step(t: Seq<char>, k: CharClass, b: int)
    requires
        0 < b <= t.len(),
        in_class(k, t[b - 1]),
    ensures
        trim_end(t.take(b), k) == trim_end(t.take(b - 1), k),
{
    assert(t.take(b).drop_last() =~= t.take(b - 1));
}

// ---------------------------------------------------------------------------
// Executable functions
// ---------------------------------------------------------------------------

/// Appends one character to a `String`: std's `String::push`.
/// Trusted: std documents that `push` appends the given char at the end of the string.
#[verifier::external_body]
fn push_char(s: &mut String, c: char)
    ensures
        final(s)@ == old(s)@.push(c),
{
    s.push(c)
}

/// The characters of `s`, in order.
pub fn chars_of(s: &str) -> (v: Vec<char>)
    ensures
        v@ == s@,
{
    broadcast use vstd::string::group_string_axioms;

    let mut v: Vec<char> = Vec::new();
    for c in it: s.chars()
        invariant
            v@ == it.seq().take(it.index() as int),
    {
        v.push(c);
    }
    v
}

/// A `String` holding exactly the characters of `v`.
pub fn string_of(v: &Vec<char>) -> (s: String)
    ensures
        s@ == v@,
{
    let mut s = String::new();
    let mut i: usize = 0;
    while i < v.len()
        invariant
            i <= v.len(),
            s@ == v@.take(i as int),
        decreases v.len() - i,
    {
        push_char(&mut s, v[i]);
        assert(v@.take(i as int).push(v@[i as int]) =~= v@.take(i + 1));
        i = i + 1;
    }
    assert(v@.take(v.len() as int) =~= v@);
    s
}

/// The characters `v[from..to]`.
pub fn slice_of(v: &Vec<char>, from: usize, to: usize) -> (r: Vec<char>)
    requires
        from <= to <= v.len(),
    ensures
        r@ == v@.subrange(from as int, to as int),
{
    let mut r: Vec<char> = Vec::new();
    let mut i: usize = from;
    while i < to
        invariant
            from <= i <= to <= v.len(),
            r@ == v@.subrange(from as int, i as int),
        decreases to - i,
    {
        r.push(v[i]);
        assert(v@.subrange(from as int, i as int).push(v@[i as int]) =~= v@.subrange(
            from as int,
            i + 1,
        ));
        i = i + 1;
    }
    r
}

/// `a` followed by `b`.
pub fn concat(a: &Vec<char>, b: &Vec<char>) -> (r: Vec<char>)
    ensures
        r@ == a@ + b@,
{
    let mut r = slice_of(a, 0, a.len());
    let mut i: usize = 0;
    while i < b.len()
        invariant
            i <= b.len(),
            r@ == a@ + b@.take(i as int),
        decreases b.len() - i,
    {
        r.push(b[i]);
        assert((a@ + b@.take(i as int)).push(b@[i as int]) =~= a@ + b@.take(i + 1));
        i = i + 1;
    }
    assert(a@.subrange(0, a@.len() as int) =~= a@);
    assert(b@.take(b.len() as int) =~= b@);
    r
}

/// Whether `pat` occurs in `s` at index `i`.
pub fn occurs_at_exec(s: &Vec<char>, pat: &Vec<char>, i: usize) -> (r: bool)
    ensures
        r == occurs_at(s@, pat@, i as int),
{
    if i > s.len() || pat.len() > s.len() - i {
        return false;
    }
    let mut j: usize = 0;
    while j < pat.len()
        invariant
            i + pat.len() <= s.len(),
            j <= pat.len(),
            forall|t: int| 0 <= t < j ==> s@[i + t] == pat@[t],
        decreases pat.len() - j,
    {
        if s[i + j] != pat[j] {
            assert(s@.subrange(i as int, i + pat.len())[j as int] != pat@[j as int]);
            return false;
        }
        j = j + 1;
    }
    assert(s@.subrange(i as int, i + pat.len()) =~= pat@);
    true
}

/// The first index at or after `from` at which `pat` occurs in `s`.
pub fn find_exec(s: &Vec<char>, pat: &Vec<char>, from: usize) -> (r: Option<usize>)
    ensures
        match r {
            Some(i) => find_from(s@, pat@, from as int) == Some(i as int),
            None => find_from(s@, pat@, from as int) is None,
        },
{
    let mut k: usize = from;
    while k <= s.len() && pat.len() <= s.len() - k
        invariant
            from <= k,
            find_from(s@, pat@, from as int) == find_from(s@, pat@, k as int),
        decreases s.len() + 1 - k,
    {
        if occurs_at_exec(s, pat, k) {
            return Some(k);
        }
        proof {
            if pat.len() == 0 {
                assert(s@.subrange(k as int, k as int) =~= pat@);
            }
        }
        k = k + 1;
    }
    None
}

/// Whether `pat` occurs in `s` (`str::contains`).
pub fn contains_exec(s: &Vec<char>, pat: &Vec<char>) -> (r: bool)
    ensures
        r == contains(s@, pat@),
{
    proof {
        lemma_contains_iff_found(s@, pat@);
    }
    find_exec(s, pat, 0).is_some()
}

/// Whether `pat` occurs in the text `s` (`str::contains`).
pub fn str_contains(s: &str, pat: &str) -> (r: bool)
    ensures
        r == contains(s@, pat@),
{
    let sv = chars_of(s);
    let pv = chars_of(pat);
    contains_exec(&sv, &pv)
}

/// `s.split(delim).nth(1)` for a non-empty `delim`.
pub fn segment_after_exec(s: &Vec<char>, delim: &Vec<char>) -> (r: Option<Vec<char>>)
    requires
        delim.len() > 0,
    ensures
        match r {
            Some(v) => segment_after(s@, delim@) == Some(v@),
            None => segment_after(s@, delim@) is None,
        },
{
    match find_exec(s, delim, 0) {
        None => None,
        Some(i) => {
            proof {
                lemma_find_from(s@, delim@, 0);
                assert(occurs_at(s@, delim@, i as int));
            }
            let n = s.len();
            assert(i + delim.len() <= n);
            let start = i + delim.len();
            match find_exec(s, delim, start) {
                None => Some(slice_of(s, start, s.len())),
                Some(j) => {
                    proof {
                        lemma_find_from(s@, delim@, start as int);
                    }
                    Some(slice_of(s, start, j))
                },
            }
        },
    }
}

/// The first line of `s` that contains both `a` and `b`.
pub fn first_line_with_exec(s: &Vec<char>, a: &Vec<char>, b: &Vec<char>) -> (r: Option<Vec<char>>)
    ensures
        match r {
            Some(v) => first_line_with(s@, a@, b@) == Some(v@),
            None => first_line_with(s@, a@, b@) is None,
        },
{
    let mut pos: usize = 0;
    while pos < s.len()
        invariant
            pos <= s.len(),
            first_line_with(s@, a@, b@) == first_with_both(lines_from(s@, pos as int), a@, b@),
        decreases s.len() - pos,
    {
        let mut e: usize = pos;
        while e < s.len() && s[e] != '\n'
            invariant
                pos <= e <= s.len(),
                forall|j: int| pos <= j < e ==> s@[j] != '\n',
            decreases s.len() - e,
        {
            e = e + 1;
        }
        proof {
            lemma_line_end_at(s@, pos as int, e as int);
        }
        let line = if e < s.len() && e > pos && s[e - 1] == '\r' {
            slice_of(s, pos, e - 1)
        } else {
            slice_of(s, pos, e)
        };
        proof {
            if e < s.len() {
                assert(line@ == strip_cr(s@.subrange(pos as int, e as int)));
            }
        }
        let ghost rest = if e < s.len() {
            lines_from(s@, e + 1)
        } else {
            Seq::empty()
        };
        assert(lines_from(s@, pos as int) =~= seq![line@] + rest);
        assert((seq![line@] + rest).drop_first() =~= rest);
        if contains_exec(&line, a) && contains_exec(&line, b) {
            return Some(line);
        }
        if e >= s.len() {
            assert(first_with_both(Seq::<Seq<char>>::empty(), a@, b@) is None);
            return None;
        }
        pos = e + 1;
    }
    None
}

/// `s` without leading and trailing characters of class `k`.
pub fn trim_exec(s: &Vec<char>, k: CharClass) -> (r: Vec<char>)
    ensures
        r@ == trim(s@, k),
{
    let mut a: usize = 0;
    assert(s@.skip(0) =~= s@);
    while a < s.len() && in_class_exec(k, s[a])
        invariant
            a <= s.len(),
            trim_start(s@, k) == trim_start(s@.skip(a as int), k),
        decreases s.len() - a,
    {
        proof {
            lemma_trim_start_step(s@, k, a as int);
        }
        a = a + 1;
    }
    let ghost t = s@.skip(a as int);
    assert(trim_start(s@, k) == t);
    let mut b: usize = s.len();
    assert(t.take(s.len() - a) =~= t);
    while b > a && in_class_exec(k, s[b - 1])
        invariant
            a <= b <= s.len(),
            t == s@.skip(a as int),
            trim_end(t, k) == trim_end(t.take(b - a), k),
        decreases b,
    {
        proof {
            lemma_trim_end_step(t, k, b - a);
        }
        b = b - 1;
    }
    assert(t.take(b - a) =~= s@.subrange(a as int, b as int));
    assert(t.take(s.len() - a) =~= t);
    slice_of(s, a, b)
}

/// Whether `a` and `b` hold the same characters.
pub fn chars_eq(a: &Vec<char>, b: &Vec<char>) -> (r: bool)
    ensures
        r == (a@ == b@),
{
    if a.len() != b.len() {
        return false;
    }
    let mut i: usize = 0;
    while i < a.len()
        invariant
            a.len() == b.len(),
            i <= a.len(),
            forall|t: int| 0 <= t < i ==> a@[t] == b@[t],
        decreases a.len() - i,
    {
        if a[i] != b[i] {
            return false;
        }
        i = i + 1;
    }
    assert(a@ =~= b@);
    true
}

/// Whether the texts `a` and `b` are equal.
pub fn str_eq(a: &str, b: &str) -> (r: bool)
    ensures
        r == (a@ == b@),
{
    chars_eq(&chars_of(a), &chars_of(b))
}

/// The text `a` followed by the text `b`.
pub fn concat_str(a: &str, b: &str) -> (r: String)
    ensures
        r@ == a@ + b@,
{
    string_of(&concat(&chars_of(a), &chars_of(b)))
}

/// Whether `c` belongs to class `k`.
pub fn in_class_exec(k: CharClass, c: char) -> (r: bool)
    ensures
        r == in_class(k, c),
{
    match k {
        CharClass::Whitespace => {
            let u = c as u32;
            (0x09 <= u && u <= 0x0D) || u == 0x20 || u == 0x85 || u == 0xA0 || u == 0x1680 || (
            0x2000 <= u && u <= 0x200A) || u == 0x2028 || u == 0x2029 || u == 0x202F || u
                == 0x205F || u == 0x3000
        },
        CharClass::Quote => c == '"',
    }
}

} // verus!
