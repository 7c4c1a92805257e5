//! Plain text helpers: substring search and character search over the
//! characters of a string.

use vstd::prelude::*;
use vstd::string::*;

verus! {

/// `needle` stands in `hay` starting at position `i`.
pub open spec fn occurs_at(hay: Seq<char>, needle: Seq<char>, i: int) -> bool {
    0 <= i && i + needle.len() <= hay.len() && hay.subrange(i, i + needle.len()) == needle
}

/// `needle` stands somewhere in `hay`.
pub open spec fn has_substring(hay: Seq<char>, needle: Seq<char>) -> bool {
    exists|i: int| occurs_at(hay, needle, i)
}

/// The views of a list of strings, in order.
pub open spec fn texts(v: Seq<String>) -> Seq<Seq<char>> {
    Seq::new(v.len(), |i: int| v[i]@)
}

/// `i` is the first position of `c` in `s`.
pub open spec fn is_first_at(s: Seq<char>, c: char, i: int) -> bool {
    &&& 0 <= i < s.len()
    &&& s[i] == c
    &&& forall|k: int| 0 <= k < i ==> s[k] != c
}

/// The characters of a string as a vector.
pub fn chars_of(s: &str) -> (v: Vec<char>)
    ensures
        v@ == s@,
{
    let n: usize = s.unicode_len();
    let mut v: Vec<char> = Vec::new();
    let mut i: usize = 0;
    while i < n
        invariant
            i <= n,
            n == s@.len(),
            v@ == s@.take(i as int),
        decreases n - i,
    {
        let c = s.get_char(i);
        v.push(c);
        i += 1;
        assert(v@ =~= s@.take(i as int));
    }
    assert(s@.take(n as int) =~= s@);
    v
}

/// Whether `needle` stands in `hay` at position `i`.
pub fn matches_at(hay: &Vec<char>, needle: &Vec<char>, i: usize) -> (r: bool)
    requires
        i + needle.len() <= hay.len(),
    ensures
        r == occurs_at(hay@, needle@, i as int),
{
    let m: usize = needle.len();
    let mut j: usize = 0;
    while j < m
        invariant
            j <= m,
            m == needle.len(),
            i + m <= hay.len(),
            forall|k: int| 0 <= k < j ==> hay@[i + k] == needle@[k],
        decreases m - j,
    {
        if hay[i + j] != needle[j] {
            assert(hay@.subrange(i as int, i + m)[j as int] != needle@[j as int]);
            return false;
        }
        j += 1;
    }
    assert(hay@.subrange(i as int, i + m) =~= needle@);
    true
}

/// Substring search: whether `needle` stands somewhere in `hay`.
pub fn contains_text(hay: &str, needle: &str) -> (r: bool)
    ensures
        r == has_substring(hay@, needle@),
{
    let h = chars_of(hay);
    let n = chars_of(needle);
    if n.len() == 0 {
        assert(h@.subrange(0, 0) =~= n@);
        assert(occurs_at(h@, n@, 0));
        return true;
    }
    if n.len() > h.len() {
        return false;
    }
    let last: usize = h.len() - n.len();
    let mut i: usize = 0;
    while i <= last
        invariant
            i <= last + 1,
            last == h.len() - n.len(),
            0 < n.len() <= h.len(),
            h@ == hay@,
            n@ == needle@,
            forall|k: int| 0 <= k < i ==> !occurs_at(h@, n@, k),
        decreases last + 1 - i,
    {
        if matches_at(&h, &n, i) {
            assert(occurs_at(h@, n@, i as int));
            return true;
        }
        i += 1;
    }
    false
}

/// The first position of `c` in `v`, or the length of `v` where it holds none.
pub fn find_char(v: &Vec<char>, c: char) -> (i: usize)
    ensures
        i <= v.len(),
        i < v.len() ==> is_first_at(v@, c, i as int),
        i == v.len() ==> !v@.contains(c),
{
    let mut i: usize = 0;
    while i < v.len()
        invariant
            i <= v.len(),
            forall|k: int| 0 <= k < i ==> v@[k] != c,
        decreases v.len() - i,
    {
        if v[i] == c {
            return i;
        }
        i += 1;
    }
    i
}

/// Whether two strings hold the same characters.
pub fn same_text(a: &str, b: &str) -> (r: bool)
    ensures
        r == (a@ == b@),
{
    let x: String = a.to_owned();
    let y: String = b.to_owned();
    x == y
}

/// Whether `name` is one of `list`.
pub fn contains_name(list: &Vec<String>, name: &str) -> (r: bool)
    ensures
        r == texts(list@).contains(name@),
{
    let mut i: usize = 0;
    while i < list.len()
        invariant
            i <= list.len(),
            forall|k: int| 0 <= k < i ==> texts(list@)[k] != name@,
        decreases list.len() - i,
    {
        if same_text(list[i].as_str(), name) {
            assert(texts(list@)[i as int] == name@);
            return true;
        }
        assert(texts(list@)[i as int] != name@);
        i += 1;
    }
    false
}

} // verus!
