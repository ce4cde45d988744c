//! Character-level text operations, each stated over `Seq<char>` and proved.
use vstd::prelude::*;

verus! {

broadcast use vstd::string::group_string_axioms;

// ---------------------------------------------------------------------------
// Specifications
// ---------------------------------------------------------------------------

/// Splits `s` at the first occurrence of `sep`: what comes before it, and what comes
/// after it (`None` when `sep` does not occur). This is `s.splitn(2, sep)`.
pub open spec fn split_once(s: Seq<char>, sep: char) -> (Seq<char>, Option<Seq<char>>)
    decreases s.len(),
{
    if s.len() == 0 {
        (s, None)
    } else if s[0] == sep {
        (Seq::empty(), Some(s.skip(1)))
    } else {
        let (head, tail) = split_once(s.skip(1), sep);
        (seq![s[0]] + head, tail)
    }
}

/// The view of an optional string slice.
pub open spec fn opt_view(o: Option<&str>) -> Option<Seq<char>> {
    match o {
        Some(t) => Some(t@),
        None => None,
    }
}

/// The view of an optional owned string.
pub open spec fn opt_string_view(o: Option<String>) -> Option<Seq<char>> {
    match o {
        Some(t) => Some(t@),
        None => None,
    }
}

/// Unicode `White_Space`: the characters that `char::is_whitespace` accepts.
pub open spec fn is_white_space(c: char) -> bool {
    ||| ('\u{9}' <= c && c <= '\u{d}')
    ||| c == ' '
    ||| c == '\u{85}'
    ||| c == '\u{a0}'
    ||| c == '\u{1680}'
    ||| ('\u{2000}' <= c && c <= '\u{200a}')
    ||| c == '\u{2028}'
    ||| c == '\u{2029}'
    ||| c == '\u{202f}'
    ||| c == '\u{205f}'
    ||| c == '\u{3000}'
}

/// What a trim removes: white space, or the double quote.
pub open spec fn trimmed_char(c: char, quotes: bool) -> bool {
    if quotes {
        c == '"'
    } else {
        is_white_space(c)
    }
}

/// `s` without its leading trimmed characters.
pub open spec fn trim_start(s: Seq<char>, quotes: bool) -> Seq<char>
    decreases s.len(),
{
    if s.len() > 0 && trimmed_char(s[0], quotes) {
        trim_start(s.skip(1), quotes)
    } else {
        s
    }
}

/// `s` without its trailing trimmed characters.
pub open spec fn trim_end(s: Seq<char>, quotes: bool) -> Seq<char>
    decreases s.len(),
{
    if s.len() > 0 && trimmed_char(s.last(), quotes) {
        trim_end(s.drop_last(), quotes)
    } else {
        s
    }
}

/// `s` without white space at either end: `str::trim`.
pub open spec fn trim_ws(s: Seq<char>) -> Seq<char> {
    trim_end(trim_start(s, false), false)
}

/// `s` without double quotes at either end: `str::trim_matches('"')`.
pub open spec fn trim_quotes(s: Seq<char>) -> Seq<char> {
    trim_end(trim_start(s, true), true)
}

/// `s` with every leading repetition of the non-empty `p` removed:
/// `str::trim_start_matches(p)`.
pub open spec fn strip_prefix_all(s: Seq<char>, p: Seq<char>) -> Seq<char>
    decreases s.len(),
{
    if p.len() > 0 && p.is_prefix_of(s) {
        strip_prefix_all(s.skip(p.len() as int), p)
    } else {
        s
    }
}

// ---------------------------------------------------------------------------
// Lemmas
// ---------------------------------------------------------------------------

/// `split_once` cuts at the first separator.
pub proof fn lemma_split_once_at(s: Seq<char>, sep: char, i: int)
    requires
        0 <= i < s.len(),
        s[i] == sep,
        forall|j: int| 0 <= j < i ==> s[j] != sep,
    ensures
        split_once(s, sep) == (s.take(i), Some(s.skip(i + 1))),
    decreases i,
{
    if i > 0 {
        lemma_split_once_at(s.skip(1), sep, i - 1);
        assert(seq![s[0]] + s.skip(1).take(i - 1) =~= s.take(i));
        assert(s.skip(1).skip(i) =~= s.skip(i + 1));
    } else {
        assert(s.take(0) =~= Seq::<char>::empty());
    }
}

/// Without a separator, `split_once` keeps the whole sequence.
pub proof fn lemma_split_once_none(s: Seq<char>, sep: char)
    requires
        forall|j: int| 0 <= j < s.len() ==> s[j] != sep,
    ensures
        split_once(s, sep) == (s, None::<Seq<char>>),
    decreases s.len(),
{
    if s.len() > 0 {
        lemma_split_once_none(s.skip(1), sep);
        assert(seq![s[0]] + s.skip(1) =~= s);
    }
}

/// Joining two parts with a separator that the first does not hold, then splitting at
/// that separator, gives the parts back.
pub proof fn lemma_split_once_join(a: Seq<char>, sep: char, b: Seq<char>)
    requires
        !a.contains(sep),
    ensures
        split_once(a + seq![sep] + b, sep) == (a, Some(b)),
{
    let s = a + seq![sep] + b;
    assert forall|j: int| 0 <= j < a.len() implies s[j] != sep by {
        assert(s[j] == a[j]);
    }
    lemma_split_once_at(s, sep, a.len() as int);
    assert(s.take(a.len() as int) =~= a);
    assert(s.skip(a.len() as int + 1) =~= b);
}

/// Splitting a sequence that does not hold the separator keeps it whole.
pub proof fn lemma_split_once_absent(a: Seq<char>, sep: char)
    requires
        !a.contains(sep),
    ensures
        split_once(a, sep) == (a, None::<Seq<char>>),
{
    assert forall|j: int| 0 <= j < a.len() implies a[j] != sep by {
        if a[j] == sep {
            assert(a.contains(sep));
        }
    }
    lemma_split_once_none(a, sep);
}

/// The part after the separator is shorter than the whole.
pub proof fn lemma_split_once_shorter(s: Seq<char>, sep: char)
    ensures
        split_once(s, sep).0.len() <= s.len(),
        split_once(s, sep).1 matches Some(t) ==> t.len() < s.len(),
        split_once(s, sep).1 matches Some(t) ==> split_once(s, sep).0.len() + 1 + t.len() == s.len(),
        split_once(s, sep).1 is None ==> split_once(s, sep).0 == s,
    decreases s.len(),
{
    if s.len() > 0 && s[0] != sep {
        lemma_split_once_shorter(s.skip(1), sep);
        if split_once(s.skip(1), sep).1 is None {
            assert(seq![s[0]] + s.skip(1) =~= s);
        }
    }
}

// ---------------------------------------------------------------------------
// Executable operations
// ---------------------------------------------------------------------------

/// The characters of `s`, in order.
pub fn chars_of(s: &str) -> (v: Vec<char>)
    ensures
        v@ == s@,
{
    let mut v: Vec<char> = Vec::new();
    for c in it: s.chars()
        invariant
            it.seq() == s@,
            v@ == it.seq().take(it.index() as int),
    {
        v.push(c);
    }
    v
}

/// The index of the first `c` in `v`, if any.
pub fn find_char(v: &Vec<char>, c: char) -> (r: Option<usize>)
    ensures
        r matches Some(i) ==> i < v.len() && v@[i as int] == c && forall|j: int|
            0 <= j < i ==> v@[j] != c,
        r is None ==> forall|j: int| 0 <= j < v.len() ==> v@[j] != c,
{
    let mut i: usize = 0;
    while i < v.len()
        invariant
            i <= v.len(),
            forall|j: int| 0 <= j < i ==> v@[j] != c,
        decreases v.len() - i,
    {
        if v[i] == c {
            return Some(i);
        }
        i = i + 1;
    }
    None
}

/// Whether `c` occurs in `s`.
pub fn contains_char(s: &str, c: char) -> (r: bool)
    ensures
        r == s@.contains(c),
{
    let v = chars_of(s);
    match find_char(&v, c) {
        Some(i) => {
            assert(s@[i as int] == c);
            true
        },
        None => false,
    }
}

/// `s.splitn(2, sep)`: the part before the first `sep`, and the part after it.
pub fn split_once_str<'a>(s: &'a str, sep: char) -> (r: (&'a str, Option<&'a str>))
    ensures
        (r.0@, opt_view(r.1)) == split_once(s@, sep),
{
    let v = chars_of(s);
    let n = v.len();
    match find_char(&v, sep) {
        Some(i) => {
            proof {
                lemma_split_once_at(s@, sep, i as int);
            }
            let head = s.substring_char(0, i);
            let tail = s.substring_char(i + 1, n);
            (head, Some(tail))
        },
        None => {
            proof {
                lemma_split_once_none(s@, sep);
            }
            let whole = s.substring_char(0, n);
            assert(whole@ =~= s@);
            (s, None)
        },
    }
}

/// The index of the first character of `v` that a trim keeps (or `v.len()`).
fn skip_trimmed(v: &Vec<char>, quotes: bool) -> (a: usize)
    ensures
        a <= v.len(),
        trim_start(v@, quotes) == v@.skip(a as int),
{
    let mut i: usize = 0;
    assert(v@.skip(0) =~= v@);
    while i < v.len() && is_trimmed(v[i], quotes)
        invariant
            i <= v.len(),
            trim_start(v@, quotes) == trim_start(v@.skip(i as int), quotes),
        decreases v.len() - i,
    {
        assert(v@.skip(i as int).skip(1) =~= v@.skip(i + 1));
        i = i + 1;
    }
    proof {
        lemma_trim_start_stops(v@, i as int, quotes);
    }
    i
}

/// Trimming the start stops at a character that a trim keeps, or at the end.
proof fn lemma_trim_start_stops(s: Seq<char>, i: int, quotes: bool)
    requires
        0 <= i <= s.len(),
        i < s.len() ==> !trimmed_char(s[i], quotes),
    ensures
        trim_start(s.skip(i), quotes) == s.skip(i),
{
}

/// The end index `b >= a` such that trimming the end of `v[a..]` leaves `v[a..b]`.
fn drop_trimmed_end(v: &Vec<char>, a: usize, quotes: bool) -> (b: usize)
    requires
        a <= v.len(),
    ensures
        a <= b <= v.len(),
        trim_end(v@.subrange(a as int, v.len() as int), quotes) == v@.subrange(a as int, b as int),
{
    let mut j: usize = v.len();
    while j > a && is_trimmed(v[j - 1], quotes)
        invariant
            a <= j <= v.len(),
            trim_end(v@.subrange(a as int, v.len() as int), quotes) == trim_end(
                v@.subrange(a as int, j as int),
                quotes,
            ),
        decreases j,
    {
        assert(v@.subrange(a as int, j as int).drop_last() =~= v@.subrange(a as int, j - 1));
        j = j - 1;
    }
    j
}

/// `char::is_whitespace`, written out.
pub fn is_white_space_exec(c: char) -> (r: bool)
    ensures
        r == is_white_space(c),
{
    ('\u{9}' <= c && c <= '\u{d}') || c == ' ' || c == '\u{85}' || c == '\u{a0}' || c == '\u{1680}'
        || ('\u{2000}' <= c && c <= '\u{200a}') || c == '\u{2028}' || c == '\u{2029}' || c
        == '\u{202f}' || c == '\u{205f}' || c == '\u{3000}'
}

/// Whether a trim removes `c`.
fn is_trimmed(c: char, quotes: bool) -> (r: bool)
    ensures
        r == trimmed_char(c, quotes),
{
    if quotes {
        c == '"'
    } else {
        is_white_space_exec(c)
    }
}

fn trim_with<'a>(s: &'a str, quotes: bool) -> (r: &'a str)
    ensures
        r@ == trim_end(trim_start(s@, quotes), quotes),
{
    let v = chars_of(s);
    let a = skip_trimmed(&v, quotes);
    let b = drop_trimmed_end(&v, a, quotes);
    assert(v@.skip(a as int) =~= v@.subrange(a as int, v.len() as int));
    s.substring_char(a, b)
}

/// `str::trim`: `s` without white space at either end.
pub fn trim_ws_str<'a>(s: &'a str) -> (r: &'a str)
    ensures
        r@ == trim_ws(s@),
{
    trim_with(s, false)
}

/// `str::trim_matches('"')`: `s` without double quotes at either end.
pub fn trim_quotes_str<'a>(s: &'a str) -> (r: &'a str)
    ensures
        r@ == trim_quotes(s@),
{
    trim_with(s, true)
}

/// Whether `p` occurs in `v` at index `at`.
fn occurs_at(v: &Vec<char>, at: usize, p: &Vec<char>) -> (r: bool)
    requires
        at <= v.len(),
    ensures
        r == p@.is_prefix_of(v@.skip(at as int)),
{
    if p.len() > v.len() - at {
        return false;
    }
    let mut k: usize = 0;
    while k < p.len()
        invariant
            k <= p.len(),
            p.len() <= v.len() - at,
            forall|j: int| 0 <= j < k ==> p@[j] == v@[at + j],
        decreases p.len() - k,
    {
        if p[k] != v[at + k] {
            assert(v@.skip(at as int).subrange(0, p.len() as int)[k as int] != p@[k as int]);
            return false;
        }
        k = k + 1;
    }
    assert(p@ =~= v@.skip(at as int).subrange(0, p.len() as int));
    true
}

/// `s.starts_with(p)`.
pub fn starts_with_str(s: &str, p: &str) -> (r: bool)
    ensures
        r == p@.is_prefix_of(s@),
{
    let v = chars_of(s);
    let pv = chars_of(p);
    assert(v@.skip(0) =~= v@);
    occurs_at(&v, 0, &pv)
}

/// `s.ends_with(p)`.
pub fn ends_with_str(s: &str, p: &str) -> (r: bool)
    ensures
        r == p@.is_suffix_of(s@),
{
    let v = chars_of(s);
    let pv = chars_of(p);
    if pv.len() > v.len() {
        return false;
    }
    let at = v.len() - pv.len();
    let r = occurs_at(&v, at, &pv);
    assert(v@.skip(at as int) =~= v@.subrange(at as int, v.len() as int));
    assert(v@.skip(at as int).subrange(0, pv.len() as int) =~= v@.subrange(
        at as int,
        v.len() as int,
    ));
    r
}

/// `s == t`, compared character by character.
pub fn str_equal(s: &str, t: &str) -> (r: bool)
    ensures
        r == (s@ == t@),
{
    let v = chars_of(s);
    let w = chars_of(t);
    if v.len() != w.len() {
        return false;
    }
    let r = occurs_at(&v, 0, &w);
    assert(v@.skip(0) =~= v@);
    assert(r ==> w@ =~= v@);
    r
}

/// `s.trim_start_matches(p)`; an empty `p` leaves `s` as it is.
pub fn strip_prefix_all_str<'a>(s: &'a str, p: &str) -> (r: &'a str)
    ensures
        r@ == strip_prefix_all(s@, p@),
{
    let v = chars_of(s);
    let pv = chars_of(p);
    if pv.len() == 0 {
        return s;
    }
    let mut i: usize = 0;
    assert(v@.skip(0) =~= v@);
    while occurs_at(&v, i, &pv)
        invariant
            i <= v.len(),
            pv@ == p@,
            pv.len() > 0,
            strip_prefix_all(v@, p@) == strip_prefix_all(v@.skip(i as int), p@),
        decreases v.len() - i,
    {
        assert(v@.skip(i as int).skip(pv.len() as int) =~= v@.skip(i + pv.len()));
        i = i + pv.len();
    }
    let n = v.len();
    let r = s.substring_char(i, n);
    r
}

} // verus!
