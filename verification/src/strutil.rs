//! Verified building blocks for working with strings as sequences of
//! characters: equality, substring tests, splitting and trimming, and the
//! whitespace and digit character classes they rest on.

use vstd::prelude::*;
use vstd::string::{StrSliceExecFns, StringExecFns};

verus! {

/// A character with the Unicode `White_Space` property, the class that
/// `str::trim` removes.
pub open spec fn spec_is_whitespace(c: char) -> bool {
    let u = c as u32;
    (0x9 <= u && u <= 0xD) || u == 0x20 || u == 0x85 || u == 0xA0 || u == 0x1680 || (0x2000 <= u
        && u <= 0x200A) || u == 0x2028 || u == 0x2029 || u == 0x202F || u == 0x205F || u == 0x3000
}

pub fn is_whitespace_char(c: char) -> (r: bool)
    ensures
        r == spec_is_whitespace(c),
{
    let u = c as u32;
    (0x9 <= u && u <= 0xD) || u == 0x20 || u == 0x85 || u == 0xA0 || u == 0x1680 || (0x2000 <= u
        && u <= 0x200A) || u == 0x2028 || u == 0x2029 || u == 0x202F || u == 0x205F || u == 0x3000
}

/// `needle` occurs in `hay` at position `i`.
pub open spec fn spec_match_at(hay: Seq<char>, needle: Seq<char>, i: int) -> bool {
    0 <= i && i + needle.len() <= hay.len() && hay.subrange(i, i + needle.len() as int) == needle
}

/// `needle` occurs somewhere in `hay` (an empty needle always does).
pub open spec fn spec_contains(hay: Seq<char>, needle: Seq<char>) -> bool {
    exists|i: int| spec_match_at(hay, needle, i)
}

pub open spec fn spec_starts_with(hay: Seq<char>, needle: Seq<char>) -> bool {
    needle.len() <= hay.len() && hay.subrange(0, needle.len() as int) == needle
}

pub open spec fn spec_ends_with(hay: Seq<char>, needle: Seq<char>) -> bool {
    needle.len() <= hay.len() && hay.subrange(
        hay.len() - needle.len(),
        hay.len() as int,
    ) == needle
}

/// Position of the first occurrence of `needle` in `hay` at or after `from`,
/// or `-1` when there is none.
pub open spec fn spec_find(hay: Seq<char>, needle: Seq<char>, from: int) -> int
    recommends
        0 <= from,
    decreases hay.len() + 1 - from,
{
    if from + needle.len() > hay.len() {
        -1
    } else if spec_match_at(hay, needle, from) {
        from
    } else {
        spec_find(hay, needle, from + 1)
    }
}

/// String equality over the character sequences of the two slices.
pub fn str_eq(a: &str, b: &str) -> (r: bool)
    ensures
        r == (a@ == b@),
{
    let n = a.unicode_len();
    let m = b.unicode_len();
    if n != m {
        assert(a@ != b@) by {
            assert(a@.len() != b@.len());
        }
        return false;
    }
    let mut i: usize = 0;
    while i < n
        invariant
            n == a@.len(),
            n == b@.len(),
            i <= n,
            forall|k: int| 0 <= k < i ==> a@[k] == b@[k],
        decreases n - i,
    {
        if a.get_char(i) != b.get_char(i) {
            return false;
        }
        i = i + 1;
    }
    proof {
        assert(a@ =~= b@);
    }
    true
}

/// Whether `needle` occurs in `hay` at character position `i`.
pub fn match_at(hay: &str, needle: &str, i: usize) -> (r: bool)
    requires
        i <= hay@.len(),
    ensures
        r == spec_match_at(hay@, needle@, i as int),
{
    let n = hay.unicode_len();
    let m = needle.unicode_len();
    if m > n - i {
        return false;
    }
    let mut k: usize = 0;
    while k < m
        invariant
            n == hay@.len(),
            m == needle@.len(),
            i + m <= n,
            k <= m,
            forall|j: int| 0 <= j < k ==> hay@[i + j] == needle@[j],
        decreases m - k,
    {
        if hay.get_char(i + k) != needle.get_char(k) {
            assert(hay@.subrange(i as int, i + m) != needle@) by {
                assert(hay@.subrange(i as int, i + m)[k as int] == hay@[i + k]);
            }
            return false;
        }
        k = k + 1;
    }
    proof {
        assert(hay@.subrange(i as int, i + m) =~= needle@);
    }
    true
}

/// Substring test: `needle` occurs somewhere in `hay`.
pub fn contains_str(hay: &str, needle: &str) -> (r: bool)
    ensures
        r == spec_contains(hay@, needle@),
{
    let n = hay.unicode_len();
    let m = needle.unicode_len();
    if m > n {
        assert(!spec_contains(hay@, needle@)) by {
            assert(forall|i: int| !spec_match_at(hay@, needle@, i));
        }
        return false;
    }
    if m == 0 {
        assert(spec_match_at(hay@, needle@, 0)) by {
            assert(hay@.subrange(0, 0) =~= needle@);
        }
        return true;
    }
    let mut i: usize = 0;
    while i <= n - m
        invariant
            n == hay@.len(),
            m == needle@.len(),
            1 <= m <= n,
            i <= n - m + 1,
            forall|j: int| 0 <= j < i ==> !spec_match_at(hay@, needle@, j),
        decreases n - m + 1 - i,
    {
        if match_at(hay, needle, i) {
            return true;
        }
        i = i + 1;
    }
    assert(forall|j: int| !spec_match_at(hay@, needle@, j));
    false
}

pub fn starts_with_str(hay: &str, needle: &str) -> (r: bool)
    ensures
        r == spec_starts_with(hay@, needle@),
{
    let r = match_at(hay, needle, 0);
    r
}

pub fn ends_with_str(hay: &str, needle: &str) -> (r: bool)
    ensures
        r == spec_ends_with(hay@, needle@),
{
    let n = hay.unicode_len();
    let m = needle.unicode_len();
    if m > n {
        return false;
    }
    let r = match_at(hay, needle, n - m);
    r
}

/// First occurrence of `needle` in `hay` at or after `from`, if any.
pub fn find_str(hay: &str, needle: &str, from: usize) -> (r: Option<usize>)
    requires
        from <= hay@.len(),
    ensures
        match r {
            Some(j) => from <= j && j == spec_find(hay@, needle@, from as int) && spec_match_at(
                hay@,
                needle@,
                j as int,
            ),
            None => spec_find(hay@, needle@, from as int) == -1,
        },
{
    let n = hay.unicode_len();
    let m = needle.unicode_len();
    if m > n || from > n - m {
        return None;
    }
    if m == 0 {
        assert(spec_match_at(hay@, needle@, from as int)) by {
            assert(hay@.subrange(from as int, from as int) =~= needle@);
        }
        return Some(from);
    }
    let mut i: usize = from;
    while i <= n - m
        invariant
            n == hay@.len(),
            m == needle@.len(),
            1 <= m <= n,
            from <= i,
            i <= n - m + 1,
            spec_find(hay@, needle@, from as int) == spec_find(hay@, needle@, i as int),
        decreases n - m + 1 - i,
    {
        if match_at(hay, needle, i) {
            return Some(i);
        }
        i = i + 1;
    }
    None
}

/// `s` with leading whitespace removed.
pub open spec fn spec_trim_start(s: Seq<char>) -> Seq<char>
    decreases s.len(),
{
    if s.len() > 0 && spec_is_whitespace(s[0]) {
        spec_trim_start(s.skip(1))
    } else {
        s
    }
}

/// `s` with trailing whitespace removed.
pub open spec fn spec_trim_end(s: Seq<char>) -> Seq<char>
    decreases s.len(),
{
    if s.len() > 0 && spec_is_whitespace(s.last()) {
        spec_trim_end(s.drop_last())
    } else {
        s
    }
}

/// `s` with leading and trailing whitespace removed, as `str::trim` leaves it.
pub open spec fn spec_trim(s: Seq<char>) -> Seq<char> {
    spec_trim_end(spec_trim_start(s))
}

proof fn lemma_trim_start_skip(s: Seq<char>, a: int)
    requires
        0 <= a <= s.len(),
        forall|k: int| 0 <= k < a ==> spec_is_whitespace(s[k]),
        a < s.len() ==> !spec_is_whitespace(s[a]),
    ensures
        spec_trim_start(s) == s.skip(a),
    decreases a,
{
    if a == 0 {
        assert(s.skip(0) =~= s);
    } else {
        lemma_trim_start_skip(s.skip(1), a - 1);
        assert(s.skip(1).skip(a - 1) =~= s.skip(a));
    }
}

proof fn lemma_trim_end_take(s: Seq<char>, b: int)
    requires
        0 <= b <= s.len(),
        forall|k: int| b <= k < s.len() ==> spec_is_whitespace(s[k]),
        b > 0 ==> !spec_is_whitespace(s[b - 1]),
    ensures
        spec_trim_end(s) == s.take(b),
    decreases s.len() - b,
{
    if b == s.len() {
        assert(s.take(b) =~= s);
    } else {
        lemma_trim_end_take(s.drop_last(), b);
        assert(s.drop_last().take(b) =~= s.take(b));
    }
}

/// The slice with surrounding whitespace removed, owned.
pub fn trim_str(s: &str) -> (r: String)
    ensures
        r@ == spec_trim(s@),
{
    let n = s.unicode_len();
    let mut a: usize = 0;
    while a < n && is_whitespace_char(s.get_char(a))
        invariant
            n == s@.len(),
            a <= n,
            forall|k: int| 0 <= k < a ==> spec_is_whitespace(s@[k]),
        decreases n - a,
    {
        a = a + 1;
    }
    let mut b: usize = n;
    while b > a && is_whitespace_char(s.get_char(b - 1))
        invariant
            n == s@.len(),
            a <= b <= n,
            forall|k: int| b <= k < n ==> spec_is_whitespace(s@[k]),
        decreases b,
    {
        b = b - 1;
    }
    proof {
        lemma_trim_start_skip(s@, a as int);
        lemma_trim_end_take(s@.skip(a as int), b - a);
        assert(s@.skip(a as int).take(b - a) =~= s@.subrange(a as int, b as int));
    }
    let piece = s.substring_char(a, b);
    piece.to_owned()
}

/// The pieces of `s` between the occurrences of the (non-empty) separator
/// `d`, from position `i` on.
pub open spec fn spec_split_from(s: Seq<char>, d: Seq<char>, i: int) -> Seq<Seq<char>>
    recommends
        0 <= i <= s.len(),
        d.len() >= 1,
    decreases s.len() - i,
{
    let j = spec_find(s, d, i);
    if d.len() >= 1 && i <= j && j + d.len() <= s.len() {
        seq![s.subrange(i, j)] + spec_split_from(s, d, j + d.len())
    } else {
        seq![s.subrange(i, s.len() as int)]
    }
}

/// The pieces of `s` between the occurrences of `d`, as `str::split` yields
/// them; an empty separator splits between every pair of neighbouring
/// characters, with an empty piece at each end.
pub open spec fn spec_split(s: Seq<char>, d: Seq<char>) -> Seq<Seq<char>> {
    if d.len() == 0 {
        seq![Seq::<char>::empty()] + Seq::new(s.len(), |k: int| seq![s[k]]) + seq![
            Seq::<char>::empty(),
        ]
    } else {
        spec_split_from(s, d, 0)
    }
}

/// Every piece of `spec_split`, trimmed.
pub open spec fn spec_split_trim(s: Seq<char>, d: Seq<char>) -> Seq<Seq<char>> {
    spec_split(s, d).map_values(|p: Seq<char>| spec_trim(p))
}

/// Splits `s` on the separator `d`, as `str::split` does.
pub fn split_str(s: &str, d: &str) -> (r: Vec<String>)
    ensures
        r.deep_view() == spec_split(s@, d@),
{
    let n = s.unicode_len();
    let m = d.unicode_len();
    let mut out: Vec<String> = Vec::new();
    if m == 0 {
        out.push(String::new());
        let mut k: usize = 0;
        while k < n
            invariant
                n == s@.len(),
                k <= n,
                out@.len() == k + 1,
                out@[0]@ =~= Seq::<char>::empty(),
                forall|j: int| 1 <= j <= k ==> out@[j]@ =~= seq![s@[j - 1]],
            decreases n - k,
        {
            let piece = s.substring_char(k, k + 1);
            proof {
                assert(piece@ =~= seq![s@[k as int]]);
            }
            out.push(piece.to_owned());
            k = k + 1;
        }
        out.push(String::new());
        proof {
            assert(out.deep_view() =~= spec_split(s@, d@));
        }
        return out;
    }
    let mut i: usize = 0;
    loop
        invariant
            n == s@.len(),
            m == d@.len(),
            m >= 1,
            i <= n,
            spec_split(s@, d@) == out.deep_view() + spec_split_from(s@, d@, i as int),
        decreases n - i,
    {
        let ghost prev = out.deep_view();
        match find_str(s, d, i) {
            Some(j) => {
                let piece = s.substring_char(i, j);
                out.push(piece.to_owned());
                proof {
                    assert(out.deep_view() =~= prev.push(piece@));
                    assert(spec_split_from(s@, d@, i as int) == seq![s@.subrange(i as int, j as int)]
                        + spec_split_from(s@, d@, j + m));
                    assert(prev + spec_split_from(s@, d@, i as int) =~= out.deep_view()
                        + spec_split_from(s@, d@, j + m));
                }
                i = j + m;
            },
            None => {
                let piece = s.substring_char(i, n);
                out.push(piece.to_owned());
                proof {
                    assert(out.deep_view() =~= prev.push(piece@));
                    assert(spec_split_from(s@, d@, i as int) =~= seq![
                        s@.subrange(i as int, n as int),
                    ]);
                    assert(out.deep_view() =~= spec_split(s@, d@));
                }
                return out;
            },
        }
    }
}

/// Splits `s` on `d` and trims each piece, as the validator and the
/// membership operators read a delimited value.
pub fn split_trim(s: &str, d: &str) -> (r: Vec<String>)
    ensures
        r.deep_view() == spec_split_trim(s@, d@),
{
    let pieces = split_str(s, d);
    let mut out: Vec<String> = Vec::new();
    let mut k: usize = 0;
    while k < pieces.len()
        invariant
            k <= pieces.len(),
            pieces.deep_view() == spec_split(s@, d@),
            out@.len() == k,
            forall|j: int| 0 <= j < k ==> out@[j]@ == spec_trim(pieces.deep_view()[j]),
        decreases pieces.len() - k,
    {
        let t = trim_str(pieces[k].as_str());
        assert(pieces@[k as int]@ == pieces.deep_view()[k as int]);
        out.push(t);
        k = k + 1;
    }
    proof {
        assert(out.deep_view() =~= spec_split_trim(s@, d@));
    }
    out
}

/// What follows element `k` when the elements are joined with `sep`.
pub open spec fn spec_join_from_with(ls: Seq<Seq<char>>, sep: Seq<char>, k: int) -> Seq<char>
    recommends
        0 <= k,
    decreases ls.len() - k,
{
    if k < 0 || k >= ls.len() {
        Seq::empty()
    } else {
        sep + ls[k] + spec_join_from_with(ls, sep, k + 1)
    }
}

/// The elements joined with `sep` between each neighbouring pair.
pub open spec fn spec_join_with(ls: Seq<Seq<char>>, sep: Seq<char>) -> Seq<char> {
    if ls.len() == 0 {
        Seq::empty()
    } else {
        ls[0] + spec_join_from_with(ls, sep, 1)
    }
}

/// Joins the items with `sep` between each neighbouring pair.
pub fn join_with(items: &Vec<String>, sep: &str) -> (r: String)
    ensures
        r@ == spec_join_with(items.deep_view(), sep@),
{
    let mut out = String::new();
    if items.len() == 0 {
        return out;
    }
    out.append(items[0].as_str());
    let mut k: usize = 1;
    while k < items.len()
        invariant
            1 <= k <= items@.len(),
            spec_join_with(items.deep_view(), sep@) == out@ + spec_join_from_with(
                items.deep_view(),
                sep@,
                k as int,
            ),
        decreases items@.len() - k,
    {
        let ghost prev = out@;
        out.append(sep);
        out.append(items[k].as_str());
        proof {
            assert(items@[k as int]@ == items.deep_view()[k as int]);
            assert(spec_join_from_with(items.deep_view(), sep@, k as int) == sep@
                + items.deep_view()[k as int] + spec_join_from_with(
                items.deep_view(),
                sep@,
                k + 1,
            ));
            assert(prev + spec_join_from_with(items.deep_view(), sep@, k as int) =~= out@
                + spec_join_from_with(items.deep_view(), sep@, k + 1));
        }
        k = k + 1;
    }
    out
}

/// Whether some element of `items` equals `x`.
pub fn list_contains(items: &Vec<String>, x: &str) -> (r: bool)
    ensures
        r == items.deep_view().contains(x@),
{
    let mut k: usize = 0;
    while k < items.len()
        invariant
            k <= items.len(),
            forall|j: int| 0 <= j < k ==> items.deep_view()[j] != x@,
        decreases items.len() - k,
    {
        if str_eq(items[k].as_str(), x) {
            assert(items.deep_view()[k as int] == x@);
            return true;
        }
        k = k + 1;
    }
    false
}

} // verus!
