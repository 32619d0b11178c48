//! Character-level text operations: specifications over `Seq<char>` and the
//! executable functions that compute them on `Vec<char>`.
use vstd::prelude::*;

verus! {

// ---------------------------------------------------------------------------
// Specifications
// ---------------------------------------------------------------------------

/// `c` has the Unicode `White_Space` property (what `char::is_whitespace` tests).
pub open spec fn is_white_space(c: char) -> bool {
    let u = c as u32;
    ||| 0x9 <= u <= 0xd
    ||| u == 0x20
    ||| u == 0x85
    ||| u == 0xa0
    ||| u == 0x1680
    ||| 0x2000 <= u <= 0x200a
    ||| u == 0x2028
    ||| u == 0x2029
    ||| u == 0x202f
    ||| u == 0x205f
    ||| u == 0x3000
}

/// A class of characters that a trim removes.
pub enum CharClass {
    /// Unicode white space.
    WhiteSpace,
    /// One given character.
    Exactly(char),
}

pub open spec fn in_class(cls: CharClass, c: char) -> bool {
    match cls {
        CharClass::WhiteSpace => is_white_space(c),
        CharClass::Exactly(x) => c == x,
    }
}

/// `s` without its longest prefix of characters in `cls`.
pub open spec fn trim_start_by(s: Seq<char>, cls: CharClass) -> Seq<char>
    decreases s.len(),
{
    if s.len() > 0 && in_class(cls, s[0]) {
        trim_start_by(s.drop_first(), cls)
    } else {
        s
    }
}

/// `s` without its longest suffix of characters in `cls`.
pub open spec fn trim_end_by(s: Seq<char>, cls: CharClass) -> Seq<char>
    decreases s.len(),
{
    if s.len() > 0 && in_class(cls, s.last()) {
        trim_end_by(s.drop_last(), cls)
    } else {
        s
    }
}

/// `s` without leading and trailing characters in `cls`.
pub open spec fn trim_by(s: Seq<char>, cls: CharClass) -> Seq<char> {
    trim_end_by(trim_start_by(s, cls), cls)
}

/// What `str::trim` gives.
pub open spec fn trim(s: Seq<char>) -> Seq<char> {
    trim_by(s, CharClass::WhiteSpace)
}

/// What `str::trim().trim_end_matches('\r')` gives: the trim used on every
/// configured and received credential.
pub open spec fn trim_cr(s: Seq<char>) -> Seq<char> {
    trim_end_by(trim(s), CharClass::Exactly('\r'))
}

pub open spec fn starts_with(s: Seq<char>, p: Seq<char>) -> bool {
    p.len() <= s.len() && s.take(p.len() as int) == p
}

pub open spec fn ends_with(s: Seq<char>, p: Seq<char>) -> bool {
    p.len() <= s.len() && s.skip(s.len() - p.len()) == p
}

/// Index of the first occurrence of `c` in `s`, or -1.
pub open spec fn find_char(s: Seq<char>, c: char) -> int
    decreases s.len(),
{
    if s.len() == 0 {
        -1
    } else if s[0] == c {
        0
    } else {
        let r = find_char(s.drop_first(), c);
        if r < 0 {
            -1
        } else {
            r + 1
        }
    }
}

/// The pieces of `s` between occurrences of `c` (what `str::split(c)` yields).
pub open spec fn split_by(s: Seq<char>, c: char) -> Seq<Seq<char>>
    decreases s.len(),
{
    let i = find_char(s, c);
    if i < 0 {
        seq![s]
    } else {
        proof {
            lemma_find_char(s, c);
        }
        seq![s.take(i)].add(split_by(s.skip(i + 1), c))
    }
}

pub open spec fn ascii_lower(c: char) -> char {
    if 'A' <= c && c <= 'Z' {
        ((c as u32) + 32) as char
    } else {
        c
    }
}

/// What `str::to_ascii_lowercase` gives.
pub open spec fn to_ascii_lower(s: Seq<char>) -> Seq<char> {
    s.map_values(|c: char| ascii_lower(c))
}

/// What `str::eq_ignore_ascii_case` gives.
pub open spec fn eq_ignore_ascii_case(a: Seq<char>, b: Seq<char>) -> bool {
    to_ascii_lower(a) == to_ascii_lower(b)
}

// ---------------------------------------------------------------------------
// Lemmas
// ---------------------------------------------------------------------------

pub proof fn lemma_find_char(s: Seq<char>, c: char)
    ensures
        -1 <= find_char(s, c) < s.len(),
        find_char(s, c) >= 0 ==> s[find_char(s, c)] == c,
        forall|k: int| 0 <= k < s.len() && (find_char(s, c) < 0 || k < find_char(s, c)) ==> s[k] != c,
    decreases s.len(),
{
    if s.len() > 0 && s[0] != c {
        lemma_find_char(s.drop_first(), c);
        assert forall|k: int| 0 <= k < s.len() && (find_char(s, c) < 0 || k < find_char(s, c))
            implies s[k] != c by {
            if k > 0 {
                assert(s[k] == s.drop_first()[k - 1]);
            }
        }
    }
}

/// Dropping a prefix of class members does not change `trim_start_by`.
pub proof fn lemma_trim_start_skip(s: Seq<char>, cls: CharClass, i: int)
    requires
        0 <= i <= s.len(),
        forall|k: int| 0 <= k < i ==> in_class(cls, #[trigger] s[k]),
    ensures
        trim_start_by(s, cls) == trim_start_by(s.skip(i), cls),
    decreases i,
{
    if i > 0 {
        assert(in_class(cls, s[0]));
        let t = s.drop_first();
        assert forall|k: int| 0 <= k < i - 1 implies in_class(cls, #[trigger] t[k]) by {
            assert(t[k] == s[k + 1]);
        }
        lemma_trim_start_skip(t, cls, i - 1);
        assert(t.skip(i - 1) =~= s.skip(i));
    } else {
        assert(s.skip(0) =~= s);
    }
}

/// Dropping a suffix of class members does not change `trim_end_by`.
pub proof fn lemma_trim_end_take(s: Seq<char>, cls: CharClass, j: int)
    requires
        0 <= j <= s.len(),
        forall|k: int| j <= k < s.len() ==> in_class(cls, #[trigger] s[k]),
    ensures
        trim_end_by(s, cls) == trim_end_by(s.take(j), cls),
    decreases s.len() - j,
{
    if j < s.len() {
        assert(in_class(cls, s.last()));
        let t = s.drop_last();
        assert forall|k: int| j <= k < t.len() implies in_class(cls, #[trigger] t[k]) by {
            assert(t[k] == s[k]);
        }
        lemma_trim_end_take(t, cls, j);
        assert(t.take(j) =~= s.take(j));
    } else {
        assert(s.take(j) =~= s);
    }
}

/// `trim_start_by` drops exactly the leading class members.
pub proof fn lemma_trim_start_shape(s: Seq<char>, cls: CharClass) -> (k: int)
    ensures
        0 <= k <= s.len(),
        trim_start_by(s, cls) == s.skip(k),
        forall|j: int| 0 <= j < k ==> in_class(cls, #[trigger] s[j]),
        k < s.len() ==> !in_class(cls, s[k]),
    decreases s.len(),
{
    if s.len() > 0 && in_class(cls, s[0]) {
        let t = s.drop_first();
        let k1 = lemma_trim_start_shape(t, cls);
        assert(t.skip(k1) =~= s.skip(k1 + 1));
        assert forall|j: int| 0 <= j < k1 + 1 implies in_class(cls, #[trigger] s[j]) by {
            if j > 0 {
                assert(s[j] == t[j - 1]);
            }
        }
        if k1 + 1 < s.len() {
            assert(s[k1 + 1] == t[k1]);
        }
        k1 + 1
    } else {
        assert(s.skip(0) =~= s);
        0
    }
}

/// `trim_end_by` drops exactly the trailing class members.
pub proof fn lemma_trim_end_shape(s: Seq<char>, cls: CharClass) -> (k: int)
    ensures
        0 <= k <= s.len(),
        trim_end_by(s, cls) == s.take(k),
        forall|j: int| k <= j < s.len() ==> in_class(cls, #[trigger] s[j]),
        k > 0 ==> !in_class(cls, s[k - 1]),
    decreases s.len(),
{
    if s.len() > 0 && in_class(cls, s.last()) {
        let t = s.drop_last();
        let k1 = lemma_trim_end_shape(t, cls);
        assert(t.take(k1) =~= s.take(k1));
        assert forall|j: int| k1 <= j < s.len() implies in_class(cls, #[trigger] s[j]) by {
            if j < s.len() - 1 {
                assert(s[j] == t[j]);
            }
        }
        if k1 > 0 {
            assert(s[k1 - 1] == t[k1 - 1]);
        }
        k1
    } else {
        assert(s.take(s.len() as int) =~= s);
        s.len() as int
    }
}

/// Trimming the ends in either order gives the same; trimming twice is
/// trimming once; a trimmed non-empty text starts and ends outside the class.
pub proof fn lemma_trim_facts(s: Seq<char>, cls: CharClass)
    ensures
        trim_end_by(trim_start_by(s, cls), cls) == trim_start_by(trim_end_by(s, cls), cls),
        trim_end_by(trim_end_by(s, cls), cls) == trim_end_by(s, cls),
        trim_by(trim_by(s, cls), cls) == trim_by(s, cls),
        trim_by(s, cls).len() > 0 ==> !in_class(cls, trim_by(s, cls)[0]) && !in_class(
            cls,
            trim_by(s, cls).last(),
        ),
{
    let a = lemma_trim_start_shape(s, cls);
    let t = s.skip(a);
    let c = lemma_trim_end_shape(t, cls);
    let b = lemma_trim_end_shape(s, cls);
    let u = s.take(b);
    let d = lemma_trim_start_shape(u, cls);
    let e = lemma_trim_end_shape(u, cls);
    assert(e == b) by {
        if e < b {
            assert(u[b - 1] == s[b - 1]);
        }
        if b > 0 && e < b {
            assert(in_class(cls, u[b - 1]));
        }
    }
    assert(u.take(e) =~= u);
    if a == s.len() {
        assert(t.len() == 0);
        if b > 0 {
            assert(in_class(cls, s[b - 1]));
        }
        assert(b == 0);
        assert(trim_end_by(t, cls) =~= Seq::<char>::empty());
        assert(trim_start_by(u, cls) =~= Seq::<char>::empty());
        assert(trim_by(s, cls) =~= Seq::<char>::empty());
        assert(trim_by(Seq::<char>::empty(), cls) =~= Seq::<char>::empty());
    } else {
        assert(!in_class(cls, s[a]));
        assert(a < b) by {
            if b <= a {
                assert(in_class(cls, s[a]));
            }
        }
        assert(d == a) by {
            if d < a {
                assert(u[d] == s[d]);
            }
            if d > a {
                assert(u[a] == s[a]);
                assert(in_class(cls, u[a]));
            }
        }
        assert(c == b - a) by {
            if c < b - a {
                assert(t[b - a - 1] == s[b - 1]);
                assert(in_class(cls, t[b - a - 1]));
            }
            if c > b - a {
                assert(t[c - 1] == s[a + c - 1]);
                assert(in_class(cls, s[a + c - 1]));
            }
        }
        let r = s.subrange(a, b);
        assert(t.take(c) =~= r);
        assert(u.skip(d) =~= r);
        assert(r[0] == s[a]);
        assert(r.last() == s[b - 1]);
        let a2 = lemma_trim_start_shape(r, cls);
        assert(a2 == 0);
        assert(r.skip(0) =~= r);
        let b2 = lemma_trim_end_shape(r, cls);
        assert(b2 == r.len()) by {
            if b2 < r.len() {
                assert(in_class(cls, r[r.len() - 1]));
            }
        }
        assert(r.take(b2) =~= r);
    }
    let w = trim_end_by(s, cls);
    let f = lemma_trim_end_shape(w, cls);
    assert(f == w.len()) by {
        if f < w.len() {
            assert(w[w.len() - 1] == s[b - 1]);
            assert(in_class(cls, w[w.len() - 1]));
        }
    }
    assert(w.take(f) =~= w);
}

/// Trimming `p + t + q`, where `p` and `q` are made of class members and `t`
/// starts and ends outside the class, gives `t`.
pub proof fn lemma_trim_around(p: Seq<char>, t: Seq<char>, q: Seq<char>, cls: CharClass)
    requires
        forall|k: int| 0 <= k < p.len() ==> in_class(cls, #[trigger] p[k]),
        forall|k: int| 0 <= k < q.len() ==> in_class(cls, #[trigger] q[k]),
        t.len() > 0 ==> !in_class(cls, t[0]) && !in_class(cls, t.last()),
    ensures
        trim_by(p + t + q, cls) == t,
{
    let x = p + t + q;
    assert forall|k: int| 0 <= k < p.len() implies in_class(cls, #[trigger] x[k]) by {
        assert(x[k] == p[k]);
    }
    lemma_trim_start_skip(x, cls, p.len() as int);
    let y = t + q;
    assert(x.skip(p.len() as int) =~= y);
    if t.len() > 0 {
        assert(y[0] == t[0]);
        assert(trim_start_by(y, cls) == y);
    } else {
        assert forall|k: int| 0 <= k < y.len() implies in_class(cls, #[trigger] y[k]) by {
            assert(y[k] == q[k]);
        }
        lemma_trim_start_skip(y, cls, y.len() as int);
        assert(y.skip(y.len() as int) =~= Seq::<char>::empty());
        assert(trim_start_by(Seq::<char>::empty(), cls) == Seq::<char>::empty());
    }
    assert forall|k: int| t.len() <= k < y.len() implies in_class(cls, #[trigger] y[k]) by {
        assert(y[k] == q[k - t.len()]);
    }
    lemma_trim_end_take(y, cls, t.len() as int);
    assert(y.take(t.len() as int) =~= t);
    if t.len() > 0 {
        assert(trim_end_by(t, cls) == t);
    } else {
        assert(trim_end_by(t, cls) == t);
        assert(trim_end_by(Seq::<char>::empty(), cls) == Seq::<char>::empty());
    }
}

/// Trailing trimming of `p + s` keeps `p` when `p` ends outside the class.
pub proof fn lemma_trim_end_keeps_prefix(p: Seq<char>, s: Seq<char>, cls: CharClass)
    requires
        p.len() > 0,
        !in_class(cls, p.last()),
    ensures
        trim_end_by(p + s, cls) == p + trim_end_by(s, cls),
    decreases s.len(),
{
    if s.len() == 0 {
        assert(p + s =~= p);
        assert(p + Seq::<char>::empty() =~= p);
    } else if in_class(cls, s.last()) {
        assert((p + s).last() == s.last());
        assert((p + s).drop_last() =~= p + s.drop_last());
        lemma_trim_end_keeps_prefix(p, s.drop_last(), cls);
    } else {
        assert((p + s).last() == s.last());
    }
}

// ---------------------------------------------------------------------------
// Executable functions
// ---------------------------------------------------------------------------

/// Appends `c` to `s` (`String::push`).
#[verifier::external_body]
pub(crate) fn push_char(s: &mut String, c: char)
    ensures
        final(s)@ == old(s)@.push(c),
{
    s.push(c);
}

/// Collects the characters of `s` in order.
pub fn chars_of(s: &str) -> (v: Vec<char>)
    ensures
        v@ == s@,
{
    let mut v: Vec<char> = Vec::new();
    for c in it: s.chars()
        invariant
            v@ == it.seq().take(it.index() as int),
    {
        v.push(c);
    }
    v
}

/// The string made of the characters `v[lo..hi]`.
pub fn string_of_range(v: &Vec<char>, lo: usize, hi: usize) -> (r: String)
    requires
        lo <= hi <= v.len(),
    ensures
        r@ == v@.subrange(lo as int, hi as int),
{
    let mut r = String::new();
    let mut i = lo;
    while i < hi
        invariant
            lo <= i <= hi <= v.len(),
            r@ == v@.subrange(lo as int, i as int),
        decreases hi - i,
    {
        push_char(&mut r, v[i]);
        assert(v@.subrange(lo as int, i + 1) =~= v@.subrange(lo as int, i as int).push(v@[i as int]));
        i += 1;
    }
    r
}

/// The string made of all of `v`.
pub fn string_of(v: &Vec<char>) -> (r: String)
    ensures
        r@ == v@,
{
    let r = string_of_range(v, 0, v.len());
    assert(v@.subrange(0, v@.len() as int) =~= v@);
    r
}

/// The vector `v[lo..hi]`.
pub fn sub_vec(v: &Vec<char>, lo: usize, hi: usize) -> (r: Vec<char>)
    requires
        lo <= hi <= v.len(),
    ensures
        r@ == v@.subrange(lo as int, hi as int),
{
    let mut r: Vec<char> = Vec::new();
    let mut i = lo;
    while i < hi
        invariant
            lo <= i <= hi <= v.len(),
            r@ == v@.subrange(lo as int, i as int),
        decreases hi - i,
    {
        r.push(v[i]);
        assert(v@.subrange(lo as int, i + 1) =~= v@.subrange(lo as int, i as int).push(v@[i as int]));
        i += 1;
    }
    r
}

pub fn is_white_space_exec(c: char) -> (b: bool)
    ensures
        b == is_white_space(c),
{
    let u = c as u32;
    (0x9 <= u && u <= 0xd) || u == 0x20 || u == 0x85 || u == 0xa0 || u == 0x1680 || (0x2000 <= u
        && u <= 0x200a) || u == 0x2028 || u == 0x2029 || u == 0x202f || u == 0x205f || u == 0x3000
}

fn in_class_exec(cls: &CharClass, c: char) -> (b: bool)
    ensures
        b == in_class(*cls, c),
{
    match cls {
        CharClass::WhiteSpace => is_white_space_exec(c),
        CharClass::Exactly(x) => c == *x,
    }
}

/// What `trim_start_by` keeps, for a vector.
pub fn trim_start_vec(v: &Vec<char>, cls: CharClass) -> (r: Vec<char>)
    ensures
        r@ == trim_start_by(v@, cls),
{
    let mut i: usize = 0;
    while i < v.len() && in_class_exec(&cls, v[i])
        invariant
            i <= v.len(),
            forall|k: int| 0 <= k < i ==> in_class(cls, #[trigger] v@[k]),
        decreases v.len() - i,
    {
        i += 1;
    }
    proof {
        lemma_trim_start_skip(v@, cls, i as int);
        assert(v@.skip(i as int) =~= v@.subrange(i as int, v@.len() as int));
    }
    sub_vec(v, i, v.len())
}

/// What `trim_end_by` keeps, for a vector.
pub fn trim_end_vec(v: &Vec<char>, cls: CharClass) -> (r: Vec<char>)
    ensures
        r@ == trim_end_by(v@, cls),
{
    let mut j: usize = v.len();
    while j > 0 && in_class_exec(&cls, v[j - 1])
        invariant
            j <= v.len(),
            forall|k: int| j <= k < v@.len() ==> in_class(cls, #[trigger] v@[k]),
        decreases j,
    {
        j -= 1;
    }
    proof {
        lemma_trim_end_take(v@, cls, j as int);
        assert(v@.take(j as int) =~= v@.subrange(0, j as int));
    }
    sub_vec(v, 0, j)
}

/// What `trim_by` keeps, for a vector.
pub fn trim_vec_by(v: &Vec<char>, cls: CharClass) -> (r: Vec<char>)
    ensures
        r@ == trim_by(v@, cls),
{
    let cls2 = match cls {
        CharClass::WhiteSpace => CharClass::WhiteSpace,
        CharClass::Exactly(x) => CharClass::Exactly(x),
    };
    let t = trim_start_vec(v, cls);
    trim_end_vec(&t, cls2)
}

/// `str::trim` followed by `trim_end_matches('\r')`, for a vector.
pub fn trim_cr_vec(v: &Vec<char>) -> (r: Vec<char>)
    ensures
        r@ == trim_cr(v@),
{
    let t = trim_vec_by(v, CharClass::WhiteSpace);
    trim_end_vec(&t, CharClass::Exactly('\r'))
}

/// Whether `v` starts with `p`.
pub fn starts_with_vec(v: &Vec<char>, p: &Vec<char>) -> (b: bool)
    ensures
        b == starts_with(v@, p@),
{
    if p.len() > v.len() {
        return false;
    }
    let mut i: usize = 0;
    while i < p.len()
        invariant
            p.len() <= v.len(),
            i <= p.len(),
            forall|k: int| 0 <= k < i ==> v@[k] == p@[k],
        decreases p.len() - i,
    {
        if v[i] != p[i] {
            assert(v@.take(p@.len() as int)[i as int] != p@[i as int]);
            return false;
        }
        i += 1;
    }
    assert(v@.take(p@.len() as int) =~= p@);
    true
}

/// Whether two vectors hold the same characters.
pub fn eq_vec(a: &Vec<char>, b: &Vec<char>) -> (r: bool)
    ensures
        r == (a@ == b@),
{
    if a.len() != b.len() {
        return false;
    }
    let mut i: usize = 0;
    while i < a.len()
        invariant
            a.len() == b.len(),
            i <= a.len(),
            forall|k: int| 0 <= k < i ==> a@[k] == b@[k],
        decreases a.len() - i,
    {
        if a[i] != b[i] {
            return false;
        }
        i += 1;
    }
    assert(a@ =~= b@);
    true
}

/// Whether two strings hold the same characters.
pub fn str_eq(a: &str, b: &str) -> (r: bool)
    ensures
        r == (a@ == b@),
{
    let va = chars_of(a);
    let vb = chars_of(b);
    eq_vec(&va, &vb)
}

/// Index of the first `c` in `v`, as `find_char` states it.
pub fn find_char_vec(v: &Vec<char>, c: char) -> (r: Option<usize>)
    ensures
        match r {
            Some(i) => i == find_char(v@, c),
            None => find_char(v@, c) < 0,
        },
{
    let mut i: usize = 0;
    while i < v.len()
        invariant
            i <= v.len(),
            forall|k: int| 0 <= k < i ==> v@[k] != c,
        decreases v.len() - i,
    {
        if v[i] == c {
            proof {
                lemma_find_char_first(v@, c, i as int);
            }
            return Some(i);
        }
        i += 1;
    }
    proof {
        lemma_find_char_absent(v@, c);
    }
    None
}

proof fn lemma_find_char_first(s: Seq<char>, c: char, i: int)
    requires
        0 <= i < s.len(),
        s[i] == c,
        forall|k: int| 0 <= k < i ==> s[k] != c,
    ensures
        find_char(s, c) == i,
    decreases i,
{
    if i > 0 {
        let t = s.drop_first();
        assert forall|k: int| 0 <= k < i - 1 implies t[k] != c by {
            assert(t[k] == s[k + 1]);
        }
        lemma_find_char_first(t, c, i - 1);
    }
}

proof fn lemma_find_char_absent(s: Seq<char>, c: char)
    requires
        forall|k: int| 0 <= k < s.len() ==> s[k] != c,
    ensures
        find_char(s, c) < 0,
    decreases s.len(),
{
    if s.len() > 0 {
        let t = s.drop_first();
        assert forall|k: int| 0 <= k < t.len() implies t[k] != c by {
            assert(t[k] == s[k + 1]);
        }
        lemma_find_char_absent(t, c);
    }
}

/// The pieces of `v` between occurrences of `c`, as `split_by` states them.
pub fn split_vec(v: &Vec<char>, c: char) -> (r: Vec<Vec<char>>)
    ensures
        r@.map_values(|p: Vec<char>| p@) == split_by(v@, c),
{
    let mut out: Vec<Vec<char>> = Vec::new();
    let mut rest = sub_vec(v, 0, v.len());
    assert(v@.subrange(0, v@.len() as int) =~= v@);
    loop
        invariant
            out@.map_values(|p: Vec<char>| p@) + split_by(rest@, c) == split_by(v@, c),
        decreases rest@.len(),
    {
        match find_char_vec(&rest, c) {
            None => {
                let ghost before = out@.map_values(|p: Vec<char>| p@);
                let ghost last = rest@;
                out.push(rest);
                assert(out@.map_values(|p: Vec<char>| p@) =~= before.push(last));
                assert(split_by(last, c) =~= seq![last]);
                assert(before + seq![last] =~= before.push(last));
                return out;
            },
            Some(i) => {
                proof {
                    lemma_find_char(rest@, c);
                }
                let piece = sub_vec(&rest, 0, i);
                let tail = sub_vec(&rest, i + 1, rest.len());
                let ghost before = out@.map_values(|p: Vec<char>| p@);
                assert(piece@ =~= rest@.take(i as int));
                assert(tail@ =~= rest@.skip(i + 1));
                assert(split_by(rest@, c) == seq![rest@.take(i as int)].add(
                    split_by(rest@.skip(i + 1), c),
                ));
                out.push(piece);
                assert(out@.map_values(|p: Vec<char>| p@) =~= before.push(piece@));
                assert(before.push(piece@) + split_by(tail@, c) =~= before + (seq![piece@].add(
                    split_by(tail@, c),
                )));
                rest = tail;
            },
        }
    }
}

fn ascii_lower_exec(c: char) -> (r: char)
    ensures
        r == ascii_lower(c),
{
    if 'A' <= c && c <= 'Z' {
        let u = (c as u32) + 32;
        let b = u as u8;
        b as char
    } else {
        c
    }
}

/// `to_ascii_lower` of a vector.
pub fn to_ascii_lower_vec(v: &Vec<char>) -> (r: Vec<char>)
    ensures
        r@ == to_ascii_lower(v@),
{
    let mut r: Vec<char> = Vec::new();
    let mut i: usize = 0;
    while i < v.len()
        invariant
            i <= v.len(),
            r@ == to_ascii_lower(v@.take(i as int)),
        decreases v.len() - i,
    {
        r.push(ascii_lower_exec(v[i]));
        assert(to_ascii_lower(v@.take(i + 1)) =~= to_ascii_lower(v@.take(i as int)).push(
            ascii_lower(v@[i as int]),
        ));
        i += 1;
    }
    assert(v@.take(v@.len() as int) =~= v@);
    r
}

/// `String::from_utf8`: the text that `bytes` encode, when they are valid UTF-8.
#[verifier::external_body]
pub(crate) fn string_from_utf8(bytes: Vec<u8>) -> (r: Option<String>)
    ensures
        match r {
            Some(s) => vstd::utf8::valid_utf8(bytes@) && s@ == vstd::utf8::decode_utf8(bytes@),
            None => !vstd::utf8::valid_utf8(bytes@),
        },
{
    match String::from_utf8(bytes) {
        Ok(s) => Some(s),
        Err(_) => None,
    }
}

/// Whether `a` and `b` are equal up to ASCII case.
pub fn eq_ignore_ascii_case_vec(a: &Vec<char>, b: &Vec<char>) -> (r: bool)
    ensures
        r == eq_ignore_ascii_case(a@, b@),
{
    let la = to_ascii_lower_vec(a);
    let lb = to_ascii_lower_vec(b);
    eq_vec(&la, &lb)
}

} // verus!
