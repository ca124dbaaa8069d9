//! Character-sequence helpers shared by the URL and configuration logic.
//!
//! Strings are reasoned about through their views, sequences of `char`.
//! The scanning functions work on a `Vec<char>` copy of a string and report
//! positions; the results are then cut out of the input string.

use vstd::prelude::*;
use vstd::string::*;

verus! {

broadcast use vstd::string::group_string_axioms;

/// The two kinds of characters that the library strips from the ends of strings.
#[derive(Clone, Copy, Debug, PartialEq, Eq)]
pub enum CharClass {
    /// Characters with the Unicode `White_Space` property (what `str::trim` removes).
    Whitespace,
    /// The path separator `/`.
    Slash,
}

/// The Unicode `White_Space` property, which `char::is_whitespace` tests.
pub open spec fn is_white_space(c: char) -> bool {
    let u = c as u32;
    ||| 0x09 <= u <= 0x0D
    ||| u == 0x20
    ||| u == 0x85
    ||| u == 0xA0
    ||| u == 0x1680
    ||| 0x2000 <= u <= 0x200A
    ||| u == 0x2028
    ||| u == 0x2029
    ||| u == 0x202F
    ||| u == 0x205F
    ||| u == 0x3000
}

pub open spec fn in_class(cls: CharClass, c: char) -> bool {
    match cls {
        CharClass::Whitespace => is_white_space(c),
        CharClass::Slash => c == '/',
    }
}

/// `s` without its leading characters of class `cls`.
pub open spec fn drop_front(s: Seq<char>, cls: CharClass) -> Seq<char>
    decreases s.len(),
{
    if s.len() > 0 && in_class(cls, s[0]) {
        drop_front(s.drop_first(), cls)
    } else {
        s
    }
}

/// `s` without its trailing characters of class `cls`.
pub open spec fn drop_back(s: Seq<char>, cls: CharClass) -> Seq<char>
    decreases s.len(),
{
    if s.len() > 0 && in_class(cls, s.last()) {
        drop_back(s.drop_last(), cls)
    } else {
        s
    }
}

/// What `str::trim` returns: leading and trailing white space removed.
pub open spec fn trim(s: Seq<char>) -> Seq<char> {
    drop_back(drop_front(s, CharClass::Whitespace), CharClass::Whitespace)
}

/// What `str::trim_end_matches('/')` returns.
pub open spec fn trim_end_slashes(s: Seq<char>) -> Seq<char> {
    drop_back(s, CharClass::Slash)
}

pub open spec fn starts_with(s: Seq<char>, t: Seq<char>) -> bool {
    t.len() <= s.len() && s.subrange(0, t.len() as int) == t
}

pub open spec fn ends_with(s: Seq<char>, t: Seq<char>) -> bool {
    t.len() <= s.len() && s.subrange(s.len() - t.len(), s.len() as int) == t
}

/// `t` occurs in `s` starting at position `i`.
pub open spec fn occurs_at(s: Seq<char>, t: Seq<char>, i: int) -> bool {
    0 <= i && i + t.len() <= s.len() && s.subrange(i, i + t.len()) == t
}

/// What `str::contains` with a string pattern returns.
pub open spec fn contains(s: Seq<char>, t: Seq<char>) -> bool {
    exists|i: int| occurs_at(s, t, i)
}

/// The first position at or after `i` where `s` holds `c`, or `s.len()` when there is none.
pub open spec fn find_char(s: Seq<char>, c: char, i: int) -> int
    decreases s.len() - i,
{
    if i >= s.len() {
        s.len() as int
    } else if s[i] == c {
        i
    } else {
        find_char(s, c, i + 1)
    }
}

pub proof fn lemma_drop_back_prefix(s: Seq<char>, cls: CharClass)
    ensures
        drop_back(s, cls).len() <= s.len(),
        drop_back(s, cls) == s.subrange(0, drop_back(s, cls).len() as int),
        drop_back(s, cls).len() > 0 ==> !in_class(cls, drop_back(s, cls).last()),
        forall|k: int|
            drop_back(s, cls).len() <= k < s.len() ==> #[trigger] in_class(cls, s[k]),
    decreases s.len(),
{
    if s.len() > 0 && in_class(cls, s.last()) {
        lemma_drop_back_prefix(s.drop_last(), cls);
        assert(s.drop_last().subrange(0, drop_back(s, cls).len() as int) =~= s.subrange(
            0,
            drop_back(s, cls).len() as int,
        ));
        assert forall|k: int| drop_back(s, cls).len() <= k < s.len() implies #[trigger] in_class(
            cls,
            s[k],
        ) by {
            if k < s.len() - 1 {
                assert(s.drop_last()[k] == s[k]);
            }
        }
    } else {
        assert(s.subrange(0, s.len() as int) =~= s);
    }
}

/// Whether `c` belongs to `cls`.
pub fn class_holds(cls: CharClass, c: char) -> (b: bool)
    ensures
        b == in_class(cls, c),
{
    match cls {
        CharClass::Whitespace => {
            let u = c as u32;
            (0x09 <= u && u <= 0x0D) || u == 0x20 || u == 0x85 || u == 0xA0 || u == 0x1680 || (
            0x2000 <= u && u <= 0x200A) || u == 0x2028 || u == 0x2029 || u == 0x202F || u
                == 0x205F || u == 0x3000
        },
        CharClass::Slash => c == '/',
    }
}

/// The start of `v[lo..hi]` once leading characters of class `cls` are skipped.
pub fn skip_front(v: &Vec<char>, lo: usize, hi: usize, cls: CharClass) -> (r: usize)
    requires
        lo <= hi <= v@.len(),
    ensures
        lo <= r <= hi,
        v@.subrange(r as int, hi as int) == drop_front(v@.subrange(lo as int, hi as int), cls),
{
    let mut i = lo;
    while i < hi && class_holds(cls, v[i])
        invariant
            lo <= i <= hi <= v@.len(),
            drop_front(v@.subrange(i as int, hi as int), cls) == drop_front(
                v@.subrange(lo as int, hi as int),
                cls,
            ),
        decreases hi - i,
    {
        assert(v@.subrange(i as int, hi as int).drop_first() =~= v@.subrange(
            i + 1,
            hi as int,
        ));
        i = i + 1;
    }
    i
}

/// The end of `v[lo..hi]` once trailing characters of class `cls` are dropped.
pub fn skip_back(v: &Vec<char>, lo: usize, hi: usize, cls: CharClass) -> (r: usize)
    requires
        lo <= hi <= v@.len(),
    ensures
        lo <= r <= hi,
        v@.subrange(lo as int, r as int) == drop_back(v@.subrange(lo as int, hi as int), cls),
{
    let mut j = hi;
    while j > lo && class_holds(cls, v[j - 1])
        invariant
            lo <= j <= hi <= v@.len(),
            drop_back(v@.subrange(lo as int, j as int), cls) == drop_back(
                v@.subrange(lo as int, hi as int),
                cls,
            ),
        decreases j - lo,
    {
        assert(v@.subrange(lo as int, j as int).drop_last() =~= v@.subrange(
            lo as int,
            j - 1,
        ));
        j = j - 1;
    }
    j
}

/// Whether `t` occurs in `v` at position `i`.
pub fn occurs_at_exec(v: &Vec<char>, t: &Vec<char>, i: usize) -> (b: bool)
    ensures
        b == occurs_at(v@, t@, i as int),
{
    let n = v.len();
    let m = t.len();
    if i > n || m > n - i {
        return false;
    }
    let end = i + m;
    let mut k: usize = 0;
    while k < m
        invariant
            n == v@.len(),
            m == t@.len(),
            end == i + m,
            end <= n,
            k <= m,
            forall|j: int| 0 <= j < k ==> v@[i + j] == t@[j],
        decreases m - k,
    {
        if v[i + k] != t[k] {
            assert(v@.subrange(i as int, end as int)[k as int] != t@[k as int]);
            return false;
        }
        k = k + 1;
    }
    assert(v@.subrange(i as int, end as int) =~= t@);
    true
}

/// Whether `v[lo..hi]` ends with `t`.
pub fn ends_with_range(v: &Vec<char>, lo: usize, hi: usize, t: &Vec<char>) -> (b: bool)
    requires
        lo <= hi <= v@.len(),
    ensures
        b == ends_with(v@.subrange(lo as int, hi as int), t@),
{
    let ghost s = v@.subrange(lo as int, hi as int);
    if t.len() > hi - lo {
        return false;
    }
    let b = occurs_at_exec(v, t, hi - t.len());
    assert(s.subrange(s.len() - t@.len(), s.len() as int) =~= v@.subrange(
        hi - t@.len(),
        hi as int,
    ));
    b
}

/// Whether `t` occurs anywhere in `v`.
pub fn contains_exec(v: &Vec<char>, t: &Vec<char>) -> (b: bool)
    ensures
        b == contains(v@, t@),
{
    if t.len() > v.len() {
        assert forall|i: int| !occurs_at(v@, t@, i) by {}
        return false;
    }
    if t.len() == 0 {
        assert(v@.subrange(0, 0) =~= t@);
        assert(occurs_at(v@, t@, 0));
        return true;
    }
    let mut i: usize = 0;
    while i <= v.len() - t.len()
        invariant
            0 < t@.len() <= v@.len(),
            i <= v@.len() - t@.len() + 1,
            forall|k: int| 0 <= k < i ==> !occurs_at(v@, t@, k),
        decreases v@.len() - t@.len() + 1 - i,
    {
        if occurs_at_exec(v, t, i) {
            return true;
        }
        i = i + 1;
    }
    assert forall|k: int| !occurs_at(v@, t@, k) by {
        if 0 <= k < i {
        }
    }
    false
}

/// The first position in `v[lo..]` that holds `c`, or `v.len()`.
pub fn find_char_exec(v: &Vec<char>, c: char, lo: usize) -> (r: usize)
    requires
        lo <= v@.len(),
    ensures
        r == find_char(v@, c, lo as int),
        lo <= r <= v@.len(),
        r < v@.len() ==> v@[r as int] == c,
        forall|k: int| lo <= k < r ==> v@[k] != c,
{
    let mut i = lo;
    while i < v.len() && v[i] != c
        invariant
            lo <= i <= v@.len(),
            find_char(v@, c, i as int) == find_char(v@, c, lo as int),
            forall|k: int| lo <= k < i ==> v@[k] != c,
        decreases v@.len() - i,
    {
        i = i + 1;
    }
    i
}

pub proof fn lemma_find_char_bounds(s: Seq<char>, c: char, i: int)
    requires
        0 <= i <= s.len(),
    ensures
        i <= find_char(s, c, i) <= s.len(),
        find_char(s, c, i) < s.len() ==> s[find_char(s, c, i)] == c,
        forall|k: int| i <= k < find_char(s, c, i) ==> s[k] != c,
    decreases s.len() - i,
{
    if i < s.len() && s[i] != c {
        lemma_find_char_bounds(s, c, i + 1);
    }
}

/// The first position in `v[lo..hi]` that holds `c`, or `hi`.
pub fn find_char_in(v: &Vec<char>, c: char, lo: usize, hi: usize) -> (r: usize)
    requires
        lo <= hi <= v@.len(),
    ensures
        lo <= r <= hi,
        r - lo == find_char(v@.subrange(lo as int, hi as int), c, 0),
        r < hi ==> v@[r as int] == c,
        forall|k: int| lo <= k < r ==> v@[k] != c,
{
    let ghost s = v@.subrange(lo as int, hi as int);
    let mut i = lo;
    while i < hi && v[i] != c
        invariant
            lo <= i <= hi <= v@.len(),
            s == v@.subrange(lo as int, hi as int),
            find_char(s, c, i - lo) == find_char(s, c, 0),
            forall|k: int| lo <= k < i ==> v@[k] != c,
        decreases hi - i,
    {
        assert(s[i - lo] == v@[i as int]);
        i = i + 1;
    }
    if i < hi {
        assert(s[i - lo] == v@[i as int]);
    }
    i
}

/// The characters of `s`, in order.
pub fn chars_of(s: &str) -> (v: Vec<char>)
    ensures
        v@ == s@,
{
    let mut v: Vec<char> = Vec::new();
    for c in it: s.chars()
        invariant
            it.seq() == s@,
            v@ == s@.take(it.index()),
    {
        v.push(c);
        proof {
            assert(v@ =~= s@.take(it.index() + 1));
        }
    }
    assert(v@ =~= s@);
    v
}

/// An owned copy of the characters `a..b` of `s`.
pub fn substring(s: &str, a: usize, b: usize) -> (r: String)
    requires
        a <= b <= s@.len(),
    ensures
        r@ == s@.subrange(a as int, b as int),
{
    String::from_str(s.substring_char(a, b))
}

/// What `str::trim` returns, as an owned string.
pub fn trim_text(s: &str) -> (r: String)
    ensures
        r@ == trim(s@),
{
    let v = chars_of(s);
    let n = v.len();
    let a = skip_front(&v, 0, n, CharClass::Whitespace);
    let b = skip_back(&v, a, n, CharClass::Whitespace);
    assert(v@.subrange(0, n as int) =~= v@);
    substring(s, a, b)
}

/// `a` followed by `b`.
pub fn concat2(a: &str, b: &str) -> (r: String)
    ensures
        r@ == a@ + b@,
{
    let mut r = String::from_str(a);
    r.append(b);
    r
}

/// `a`, `b` and `c`, one after another.
pub fn concat3(a: &str, b: &str, c: &str) -> (r: String)
    ensures
        r@ == a@ + b@ + c@,
{
    let mut r = String::from_str(a);
    r.append(b);
    r.append(c);
    r
}

/// Whether two strings hold the same characters.
pub fn same_text(a: &str, b: &str) -> (r: bool)
    ensures
        r == (a@ == b@),
{
    let x = String::from_str(a);
    let y = String::from_str(b);
    x == y
}

} // verus!
