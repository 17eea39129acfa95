//! String helpers for '/'-separated path strings.
//!
//! The library treats a path as a plain sequence of characters in which `'/'`
//! separates components. The functions here mirror the usual conventions:
//! the base name is everything after the last `'/'`, the extension is what
//! follows the last `'.'` of the base name (none when the base name has no
//! dot, or only a leading one), and joining appends a separator only when one
//! is needed. Paths are not normalized: a path with a trailing `'/'` has an
//! empty base name, and callers hand in paths without one.
use vstd::prelude::*;

verus! {

/// Index of the last occurrence of `c` in `s`, or -1 when `c` does not occur.
pub open spec fn last_index_of(s: Seq<char>, c: char) -> int
    decreases s.len(),
{
    if s.len() == 0 {
        -1
    } else if s[s.len() - 1] == c {
        s.len() - 1
    } else {
        last_index_of(s.drop_last(), c)
    }
}

pub proof fn lemma_last_index_of_bounds(s: Seq<char>, c: char)
    ensures
        -1 <= last_index_of(s, c) < s.len(),
        last_index_of(s, c) >= 0 ==> s[last_index_of(s, c)] == c,
    decreases s.len(),
{
    if s.len() > 0 && s[s.len() - 1] != c {
        lemma_last_index_of_bounds(s.drop_last(), c);
    }
}

/// Everything after the last `'/'`; the whole string when there is none.
pub open spec fn basename_of(p: Seq<char>) -> Seq<char> {
    p.subrange(last_index_of(p, '/') + 1, p.len() as int)
}

/// The directory part of a path: empty when the path has no `'/'`, the root
/// `"/"` when the only separator is the leading one, and the prefix before
/// the last `'/'` otherwise.
pub open spec fn parent_dir_of(p: Seq<char>) -> Seq<char> {
    let li = last_index_of(p, '/');
    if li == -1 {
        Seq::<char>::empty()
    } else if li == 0 {
        p.subrange(0, 1)
    } else {
        p.subrange(0, li)
    }
}

/// The extension of a base name: what follows the last `'.'`, unless the
/// only dot is the leading one (hidden files have no extension).
pub open spec fn ext_of_name(b: Seq<char>) -> Option<Seq<char>> {
    let di = last_index_of(b, '.');
    if di <= 0 {
        None
    } else {
        Some(b.subrange(di + 1, b.len() as int))
    }
}

/// The stem of a base name: what precedes the last `'.'`, or the whole name
/// when it has no extension.
pub open spec fn stem_of_name(b: Seq<char>) -> Seq<char> {
    let di = last_index_of(b, '.');
    if di <= 0 {
        b
    } else {
        b.subrange(0, di)
    }
}

/// The extension of a path, taken from its base name.
pub open spec fn ext_of_path(p: Seq<char>) -> Option<Seq<char>> {
    ext_of_name(basename_of(p))
}

/// Joining a directory and a name with a single separator.
pub open spec fn path_join(dir: Seq<char>, name: Seq<char>) -> Seq<char> {
    if dir.len() == 0 {
        name
    } else if dir[dir.len() - 1] == '/' {
        dir + name
    } else {
        dir + seq!['/'] + name
    }
}

/// ASCII lower-casing of one character.
pub open spec fn lower_char(c: char) -> char {
    if 'A' <= c && c <= 'Z' {
        ((c as u8) + 32) as char
    } else {
        c
    }
}

/// Equality of two character sequences up to ASCII case.
pub open spec fn eq_ignore_case(a: Seq<char>, b: Seq<char>) -> bool {
    a.len() == b.len() && (forall|i: int| 0 <= i < a.len() ==> lower_char(a[i]) == lower_char(b[i]))
}

/// `needle` occurs as a contiguous run inside `hay` starting at `i`.
pub open spec fn match_at(hay: Seq<char>, needle: Seq<char>, i: int) -> bool {
    0 <= i && i + needle.len() <= hay.len() && hay.subrange(i, i + needle.len()) == needle
}

/// `needle` occurs somewhere inside `hay` (every string contains the empty one).
pub open spec fn contains_substring(hay: Seq<char>, needle: Seq<char>) -> bool {
    exists|i: int| match_at(hay, needle, i)
}

/// The decimal digit character for `d` (meaningful for `d < 10`).
pub open spec fn dec_digit(d: nat) -> char {
    if d == 0 {
        '0'
    } else if d == 1 {
        '1'
    } else if d == 2 {
        '2'
    } else if d == 3 {
        '3'
    } else if d == 4 {
        '4'
    } else if d == 5 {
        '5'
    } else if d == 6 {
        '6'
    } else if d == 7 {
        '7'
    } else if d == 8 {
        '8'
    } else {
        '9'
    }
}

/// The decimal representation of `n`, most significant digit first.
pub open spec fn dec_of(n: nat) -> Seq<char>
    decreases n,
{
    if n < 10 {
        seq![dec_digit(n)]
    } else {
        dec_of(n / 10).push(dec_digit(n % 10))
    }
}

/// A run of `k` `'0'` characters.
pub open spec fn zeros(k: nat) -> Seq<char> {
    Seq::new(k, |i: int| '0')
}

/// An owned copy of a string slice.
pub fn str_copy(s: &str) -> (r: String)
    ensures
        r@ == s@,
{
    s.to_owned()
}

/// Exact character-level equality of two string slices.
pub fn str_eq(a: &str, b: &str) -> (r: bool)
    ensures
        r == (a@ == b@),
{
    let alen = a.unicode_len();
    let blen = b.unicode_len();
    if alen != blen {
        assert(a@ != b@);
        return false;
    }
    let mut i: usize = 0;
    while i < alen
        invariant
            alen == a@.len(),
            alen == b@.len(),
            0 <= i <= alen,
            forall|j: int| 0 <= j < i ==> a@[j] == b@[j],
        decreases alen - i,
    {
        if a.get_char(i) != b.get_char(i) {
            assert(a@ != b@);
            return false;
        }
        i = i + 1;
    }
    assert(a@ =~= b@);
    true
}

/// Index of the last occurrence of `c` in `s`, if any.
pub fn find_last(s: &str, c: char) -> (r: Option<usize>)
    ensures
        match r {
            Some(i) => last_index_of(s@, c) == i as int && (i as int) < s@.len(),
            None => last_index_of(s@, c) == -1,
        },
{
    let n = s.unicode_len();
    proof {
        assert(s@.subrange(0, n as int) =~= s@);
    }
    let mut i: usize = n;
    while i > 0
        invariant
            n == s@.len(),
            0 <= i <= n,
            last_index_of(s@, c) == last_index_of(s@.subrange(0, i as int), c),
        decreases i,
    {
        let ch = s.get_char(i - 1);
        proof {
            assert(s@.subrange(0, i as int).drop_last() =~= s@.subrange(0, i - 1));
            assert(s@.subrange(0, i as int)[i - 1] == s@[i - 1]);
        }
        if ch == c {
            proof {
                lemma_last_index_of_bounds(s@, c);
            }
            return Some(i - 1);
        }
        i = i - 1;
    }
    proof {
        assert(s@.subrange(0, 0) =~= Seq::<char>::empty());
    }
    None
}

/// The base name of a path: everything after its last `'/'`.
pub fn basename(p: &str) -> (r: &str)
    ensures
        r@ == basename_of(p@),
{
    let n = p.unicode_len();
    match find_last(p, '/') {
        Some(i) => p.substring_char(i + 1, n),
        None => {
            proof {
                assert(p@.subrange(0, n as int) =~= p@);
            }
            p.substring_char(0, n)
        },
    }
}

/// The directory part of a path (see `parent_dir_of`).
pub fn parent_dir(p: &str) -> (r: &str)
    ensures
        r@ == parent_dir_of(p@),
{
    match find_last(p, '/') {
        Some(i) => {
            if i == 0 {
                p.substring_char(0, 1)
            } else {
                p.substring_char(0, i)
            }
        },
        None => {
            proof {
                assert(p@.subrange(0, 0) =~= Seq::<char>::empty());
            }
            p.substring_char(0, 0)
        },
    }
}

/// The extension of a path's base name, if it has one.
pub fn extension(p: &str) -> (r: Option<&str>)
    ensures
        match r {
            Some(e) => ext_of_path(p@) == Some(e@),
            None => ext_of_path(p@) is None,
        },
{
    let b = basename(p);
    let n = b.unicode_len();
    match find_last(b, '.') {
        Some(i) => {
            if i == 0 {
                None
            } else {
                Some(b.substring_char(i + 1, n))
            }
        },
        None => None,
    }
}

/// The stem of a base name: the part before its last `'.'`, if one counts.
pub fn name_stem(b: &str) -> (r: &str)
    ensures
        r@ == stem_of_name(b@),
{
    let n = b.unicode_len();
    match find_last(b, '.') {
        Some(i) => {
            if i == 0 {
                proof {
                    assert(b@.subrange(0, n as int) =~= b@);
                }
                b.substring_char(0, n)
            } else {
                b.substring_char(0, i)
            }
        },
        None => {
            proof {
                assert(b@.subrange(0, n as int) =~= b@);
            }
            b.substring_char(0, n)
        },
    }
}

/// Joins a directory and a name with exactly one separator.
pub fn join_path(dir: &str, name: &str) -> (r: String)
    ensures
        r@ == path_join(dir@, name@),
{
    let n = dir.unicode_len();
    if n == 0 {
        return name.to_owned();
    }
    let mut r = dir.to_owned();
    if dir.get_char(n - 1) == '/' {
        r.append(name);
        r
    } else {
        proof {
            reveal_strlit("/");
        }
        r.append("/");
        r.append(name);
        proof {
            assert(r@ =~= dir@ + seq!['/'] + name@);
        }
        r
    }
}

/// Whether `a` and `b` are equal up to ASCII case.
pub fn eq_ignore_ascii_case(a: &str, b: &str) -> (r: bool)
    ensures
        r == eq_ignore_case(a@, b@),
{
    let alen = a.unicode_len();
    let blen = b.unicode_len();
    if alen != blen {
        return false;
    }
    let mut i: usize = 0;
    while i < alen
        invariant
            alen == a@.len(),
            alen == b@.len(),
            0 <= i <= alen,
            forall|j: int| 0 <= j < i ==> lower_char(a@[j]) == lower_char(b@[j]),
        decreases alen - i,
    {
        let ca = lower_char_exec(a.get_char(i));
        let cb = lower_char_exec(b.get_char(i));
        if ca != cb {
            return false;
        }
        i = i + 1;
    }
    true
}

/// ASCII lower-casing of one character.
pub fn lower_char_exec(c: char) -> (r: char)
    ensures
        r == lower_char(c),
{
    if 'A' <= c && c <= 'Z' {
        ((c as u8) + 32) as char
    } else {
        c
    }
}

/// Whether `needle` occurs as a substring of `hay`.
pub fn contains_str(hay: &str, needle: &str) -> (r: bool)
    ensures
        r == contains_substring(hay@, needle@),
{
    let hlen = hay.unicode_len();
    let nlen = needle.unicode_len();
    if nlen > hlen {
        assert(!contains_substring(hay@, needle@));
        return false;
    }
    let mut i: usize = 0;
    while i <= hlen - nlen
        invariant
            hlen == hay@.len(),
            nlen == needle@.len(),
            nlen <= hlen,
            0 <= i <= hlen - nlen + 1,
            forall|k: int| 0 <= k < i ==> !match_at(hay@, needle@, k),
        decreases hlen - nlen - i + 1,
    {
        let mut j: usize = 0;
        let mut all_eq: bool = true;
        while all_eq && j < nlen
            invariant
                hlen == hay@.len(),
                nlen == needle@.len(),
                0 <= i <= hlen - nlen,
                0 <= j <= nlen,
                all_eq ==> (forall|t: int| 0 <= t < j ==> hay@[i + t] == needle@[t]),
                !all_eq ==> !match_at(hay@, needle@, i as int),
                !all_eq ==> nlen >= 1,
            decreases nlen - j, (if all_eq { 1int } else { 0int }),
        {
            let ch = hay.get_char(i + j);
            let cn = needle.get_char(j);
            if ch != cn {
                proof {
                    assert(hay@.subrange(i as int, i + nlen as int)[j as int] == hay@[i + j]);
                }
                all_eq = false;
            } else {
                j = j + 1;
            }
        }
        if all_eq {
            proof {
                assert(hay@.subrange(i as int, i + nlen as int) =~= needle@);
                assert(match_at(hay@, needle@, i as int));
            }
            return true;
        }
        i = i + 1;
    }
    proof {
        assert(forall|k: int| match_at(hay@, needle@, k) ==> 0 <= k <= hlen - nlen);
        assert(!contains_substring(hay@, needle@));
    }
    false
}

/// A one-character string slice holding the decimal digit `d`.
pub fn digit_str(d: u64) -> (r: &'static str)
    requires
        d < 10,
    ensures
        r@ =~= seq![dec_digit(d as nat)],
{
    proof {
        reveal_strlit("0");
        reveal_strlit("1");
        reveal_strlit("2");
        reveal_strlit("3");
        reveal_strlit("4");
        reveal_strlit("5");
        reveal_strlit("6");
        reveal_strlit("7");
        reveal_strlit("8");
        reveal_strlit("9");
    }
    if d == 0 {
        "0"
    } else if d == 1 {
        "1"
    } else if d == 2 {
        "2"
    } else if d == 3 {
        "3"
    } else if d == 4 {
        "4"
    } else if d == 5 {
        "5"
    } else if d == 6 {
        "6"
    } else if d == 7 {
        "7"
    } else if d == 8 {
        "8"
    } else {
        "9"
    }
}

/// The decimal representation of `n` as a string.
pub fn u64_to_dec(n: u64) -> (r: String)
    ensures
        r@ == dec_of(n as nat),
    decreases n,
{
    if n < 10 {
        digit_str(n).to_owned()
    } else {
        let mut r = u64_to_dec(n / 10);
        r.append(digit_str(n % 10));
        proof {
            assert(r@ =~= dec_of((n / 10) as nat).push(dec_digit((n % 10) as nat)));
        }
        r
    }
}

} // verus!
