//! Character-sequence helpers shared by the path classifier and the display
//! formatting: conversions between strings and character vectors, ASCII case
//! folding, and substring search.

use vstd::prelude::*;

verus! {

/// Collects the characters of a string slice into a vector.
pub fn str_to_chars(s: &str) -> (r: Vec<char>)
    ensures
        r@ == s@,
{
    let mut r: Vec<char> = Vec::new();
    for c in it: s.chars()
        invariant
            it.seq() == s@,
            r@ == it.seq().take(it.index() as int),
    {
        r.push(c);
    }
    proof {
        assert(r@ =~= s@);
    }
    r
}

/// Relies on `String`'s `FromIterator` impl: collecting characters yields the
/// string whose characters are exactly those of the vector, in order.
#[verifier::external_body]
pub fn chars_to_string(v: &Vec<char>) -> (r: String)
    ensures
        r@ == v@,
{
    v.iter().collect()
}

/// ASCII lower-casing of one character; anything outside `A`..`Z` is kept.
pub open spec fn lower_char(c: char) -> char {
    if 'A' <= c && c <= 'Z' {
        ((c as u32) + 32) as char
    } else {
        c
    }
}

/// Executable ASCII lower-casing, matching `lower_char`.
pub fn lower_char_exec(c: char) -> (r: char)
    ensures
        r == lower_char(c),
{
    if 'A' <= c && c <= 'Z' {
        let code: u32 = (c as u32) + 32;
        let r = char_from_code(code);
        r
    } else {
        c
    }
}

/// Relies on `char::from_u32`: for a code below the surrogate range the
/// returned character is exactly the one with that code point.
#[verifier::external_body]
fn char_from_code(code: u32) -> (r: char)
    requires
        code < 0xD800,
    ensures
        r == (code as char),
{
    char::from_u32(code).unwrap_or(' ')
}

/// Character-for-character equality of two vectors.
pub fn chars_eq(a: &Vec<char>, b: &Vec<char>) -> (r: bool)
    ensures
        r == (a@ == b@),
{
    if a.len() != b.len() {
        proof {
            assert(a@.len() != b@.len());
        }
        return false;
    }
    for i in 0..a.len()
        invariant
            a@.len() == b@.len(),
            forall|j: int| 0 <= j < i ==> a@[j] == b@[j],
    {
        if a[i] != b[i] {
            return false;
        }
    }
    proof {
        assert(a@ =~= b@);
    }
    true
}

/// The needle `n` occurs in `h` at position `i`.
pub open spec fn match_at(h: Seq<char>, n: Seq<char>, i: int) -> bool {
    0 <= i && i + n.len() <= h.len() && h.subrange(i, i + n.len() as int) == n
}

/// Position of the first occurrence of `n` in `h` at or after `i`.
pub open spec fn find_from(h: Seq<char>, n: Seq<char>, i: int) -> Option<int>
    decreases h.len() - i,
{
    if i < 0 || i + n.len() > h.len() {
        None
    } else if n.len() == 0 || h.subrange(i, i + n.len() as int) == n {
        Some(i)
    } else {
        find_from(h, n, i + 1)
    }
}

/// A found position lies within bounds, matches, and is the first match.
pub proof fn lemma_find_from_bounds(h: Seq<char>, n: Seq<char>, i: int, j: int)
    requires
        find_from(h, n, i) == Some(j),
    ensures
        i <= j,
        j + n.len() <= h.len(),
        match_at(h, n, j),
        forall|k: int| i <= k < j ==> !match_at(h, n, k),
    decreases h.len() - i,
{
    if i < 0 || i + n.len() > h.len() {
        // contradicts the requires
    } else if n.len() == 0 || h.subrange(i, i + n.len() as int) == n {
        if n.len() == 0 {
            assert(h.subrange(i, i) =~= n);
        }
    } else {
        lemma_find_from_bounds(h, n, i + 1, j);
    }
}

/// The needle `n` occurs somewhere in `h`.
pub open spec fn contains_sub(h: Seq<char>, n: Seq<char>) -> bool {
    find_from(h, n, 0) is Some
}

/// `h` begins with `n`.
pub open spec fn starts_with(h: Seq<char>, n: Seq<char>) -> bool {
    h.len() >= n.len() && h.subrange(0, n.len() as int) == n
}

/// `h` ends with `n`.
pub open spec fn ends_with(h: Seq<char>, n: Seq<char>) -> bool {
    h.len() >= n.len() && h.subrange(h.len() - n.len(), h.len() as int) == n
}

/// Compares `n` against the characters of `h` starting at `i`.
pub fn match_at_exec(h: &Vec<char>, n: &Vec<char>, i: usize) -> (r: bool)
    requires
        i + n@.len() <= h@.len(),
    ensures
        r == match_at(h@, n@, i as int),
{
    let hlen = h.len();
    let mut k: usize = 0;
    while k < n.len()
        invariant
            i + n@.len() <= h@.len(),
            h@.len() == hlen,
            k <= n@.len(),
            forall|j: int| 0 <= j < k ==> h@[i + j] == n@[j],
        decreases n@.len() - k,
    {
        if h[i + k] != n[k] {
            proof {
                assert(h@.subrange(i as int, i + n@.len()) != n@) by {
                    assert(h@.subrange(i as int, i + n@.len())[k as int] != n@[k as int]);
                }
            }
            return false;
        }
        k = k + 1;
    }
    proof {
        assert(h@.subrange(i as int, i + n@.len()) =~= n@);
    }
    true
}

/// Finds the first occurrence of `n` in `h` at or after position `i`.
pub fn find_from_exec(h: &Vec<char>, n: &Vec<char>, i: usize) -> (r: Option<usize>)
    ensures
        match r {
            Some(j) => find_from(h@, n@, i as int) == Some(j as int),
            None => find_from(h@, n@, i as int) is None,
        },
    decreases h@.len() - i,
{
    if n.len() > h.len() || i > h.len() - n.len() {
        return None;
    }
    if n.len() == 0 {
        proof {
            assert(h@.subrange(i as int, i as int) =~= n@);
        }
        return Some(i);
    }
    if match_at_exec(h, n, i) {
        return Some(i);
    }
    find_from_exec(h, n, i + 1)
}

/// Finds the first occurrence of `n` anywhere in `h`.
pub fn find_sub(h: &Vec<char>, n: &Vec<char>) -> (r: Option<usize>)
    ensures
        match r {
            Some(j) => find_from(h@, n@, 0) == Some(j as int),
            None => !contains_sub(h@, n@),
        },
{
    find_from_exec(h, n, 0)
}

/// Whether `n` occurs anywhere in `h`.
pub fn contains_sub_exec(h: &Vec<char>, n: &Vec<char>) -> (r: bool)
    ensures
        r == contains_sub(h@, n@),
{
    match find_from_exec(h, n, 0) {
        Some(_) => true,
        None => false,
    }
}

/// Whether `h` begins with `n`.
pub fn starts_with_exec(h: &Vec<char>, n: &Vec<char>) -> (r: bool)
    ensures
        r == starts_with(h@, n@),
{
    if n.len() > h.len() {
        return false;
    }
    match_at_exec(h, n, 0)
}

/// Whether `h` ends with `n`.
pub fn ends_with_exec(h: &Vec<char>, n: &Vec<char>) -> (r: bool)
    ensures
        r == ends_with(h@, n@),
{
    if n.len() > h.len() {
        return false;
    }
    let start = h.len() - n.len();
    let r = match_at_exec(h, n, start);
    proof {
        assert(h@.subrange(start as int, start + n@.len()) == h@.subrange(
            h@.len() - n@.len(),
            h@.len() as int,
        ));
    }
    r
}

/// Copies the characters of `v` in positions `from..to` into a new vector.
pub fn subrange_vec(v: &Vec<char>, from: usize, to: usize) -> (r: Vec<char>)
    requires
        from <= to <= v@.len(),
    ensures
        r@ == v@.subrange(from as int, to as int),
{
    let mut r: Vec<char> = Vec::new();
    for i in from..to
        invariant
            from <= i <= to <= v@.len(),
            r@ == v@.subrange(from as int, i as int),
    {
        r.push(v[i]);
        proof {
            assert(r@ =~= v@.subrange(from as int, i + 1));
        }
    }
    r
}

} // verus!
