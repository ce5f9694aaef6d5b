//! Character-sequence primitives shared by the two file formats.

use vstd::prelude::*;

verus! {

/// Rust's `char::is_whitespace` (Unicode `White_Space`).
pub open spec fn is_ws(c: char) -> bool {
    ('\u{9}' <= c && c <= '\u{d}') || c == ' ' || c == '\u{85}' || c == '\u{a0}'
        || c == '\u{1680}' || ('\u{2000}' <= c && c <= '\u{200a}') || c == '\u{2028}'
        || c == '\u{2029}' || c == '\u{202f}' || c == '\u{205f}' || c == '\u{3000}'
}

pub fn is_whitespace(c: char) -> (r: bool)
    ensures
        r == is_ws(c),
{
    ('\u{9}' <= c && c <= '\u{d}') || c == ' ' || c == '\u{85}' || c == '\u{a0}'
        || c == '\u{1680}' || ('\u{2000}' <= c && c <= '\u{200a}') || c == '\u{2028}'
        || c == '\u{2029}' || c == '\u{202f}' || c == '\u{205f}' || c == '\u{3000}'
}

/// The characters of `s`, for constant-time indexing.
pub fn to_chars(s: &str) -> (r: Vec<char>)
    ensures
        r@ == s@,
{
    let mut r: Vec<char> = Vec::new();
    for c in it: s.chars()
        invariant
            r@ == it.seq().take(it.index() as int),
    {
        r.push(c);
    }
    r
}

/// `b` without the run of `\n` bytes at its end.
pub open spec fn without_trailing_newlines(b: Seq<u8>) -> Seq<u8>
    decreases b.len(),
{
    if b.len() > 0 && b.last() == 10u8 {
        without_trailing_newlines(b.drop_last())
    } else {
        b
    }
}

/// Removes the newline bytes that end `vec`, as a command's output ends.
pub fn drop_right_whitespace(vec: Vec<u8>) -> (r: Vec<u8>)
    ensures
        r@ == without_trailing_newlines(vec@),
        r@.len() == 0 || r@.last() != 10u8,
{
    let ghost old_vec = vec;
    let mut vec = vec;
    while vec.len() > 0 && vec[vec.len() - 1] == 10u8
        invariant
            without_trailing_newlines(vec@) == without_trailing_newlines(old_vec@),
        decreases vec.len(),
    {
        vec.pop();
    }
    vec
}

/// `pat` stands in `s` at index `i`.
pub open spec fn occurs_at(s: Seq<char>, pat: Seq<char>, i: int) -> bool {
    0 <= i && i + pat.len() <= s.len() && s.subrange(i, i + pat.len()) == pat
}

/// Index of the first occurrence of `pat` in `s` at or after `i`.
pub open spec fn find_from(s: Seq<char>, pat: Seq<char>, i: int) -> Option<int>
    decreases s.len() + 1 - i,
{
    if i < 0 || i + pat.len() > s.len() {
        None
    } else if occurs_at(s, pat, i) {
        Some(i)
    } else {
        find_from(s, pat, i + 1)
    }
}

/// `pat` occurs somewhere in `s`.
pub open spec fn contains(s: Seq<char>, pat: Seq<char>) -> bool {
    find_from(s, pat, 0) is Some
}

/// Index of the first `c` in `s` at or after `i`.
pub open spec fn index_of(s: Seq<char>, c: char, i: int) -> Option<int>
    decreases s.len() - i,
{
    if i < 0 || i >= s.len() {
        None
    } else if s[i] == c {
        Some(i)
    } else {
        index_of(s, c, i + 1)
    }
}

/// The pieces of `s` from index `i` on, between occurrences of `sep`.
pub open spec fn split_from(s: Seq<char>, sep: char, i: int) -> Seq<Seq<char>>
    recommends
        0 <= i <= s.len(),
    decreases s.len() - i,
{
    match index_of(s, sep, i) {
        Some(k) => if i <= k < s.len() {
            seq![s.subrange(i, k)] + split_from(s, sep, k + 1)
        } else {
            seq![]
        },
        None => seq![s.subrange(i, s.len() as int)],
    }
}

/// `s` cut at every `sep`, as `str::split` does: never empty.
pub open spec fn split(s: Seq<char>, sep: char) -> Seq<Seq<char>> {
    split_from(s, sep, 0)
}

/// First index at or after `i` that holds no whitespace (or `s.len()`).
pub open spec fn skip_ws(s: Seq<char>, i: int) -> int
    decreases s.len() - i,
{
    if 0 <= i < s.len() && is_ws(s[i]) {
        skip_ws(s, i + 1)
    } else {
        i
    }
}

/// End of `s.subrange(lo, j)` once the whitespace at its end is dropped.
pub open spec fn back_ws(s: Seq<char>, lo: int, j: int) -> int
    decreases j - lo,
{
    if lo < j && j <= s.len() && is_ws(s[j - 1]) {
        back_ws(s, lo, j - 1)
    } else {
        j
    }
}

/// `s` without whitespace at either end, as `str::trim` gives it.
pub open spec fn trim(s: Seq<char>) -> Seq<char> {
    let a = skip_ws(s, 0);
    s.subrange(a, back_ws(s, a, s.len() as int))
}

/// `s` starts with `p`.
pub open spec fn starts_with(s: Seq<char>, p: Seq<char>) -> bool {
    p.len() <= s.len() && s.take(p.len() as int) == p
}

/// First occurrence of `pat` in `s` at or after `from`.
pub fn find_seq(s: &Vec<char>, pat: &Vec<char>, from: usize) -> (r: Option<usize>)
    requires
        from <= s@.len(),
    ensures
        r matches Some(k) ==> find_from(s@, pat@, from as int) == Some(k as int) && k + pat@.len() <= s@.len(),
        r is None ==> find_from(s@, pat@, from as int) is None,
{
    if pat.len() > s.len() {
        return None;
    }
    let n = s.len();
    let last = n - pat.len();
    let mut i = from;
    while i <= last
        invariant
            from <= i,
            n == s@.len(),
            last + pat@.len() == s@.len(),
            find_from(s@, pat@, from as int) == find_from(s@, pat@, i as int),
        decreases last + 1 - i,
    {
        let mut j: usize = 0;
        while j < pat.len() && s[i + j] == pat[j]
            invariant
                j <= pat@.len(),
                i <= last,
                i + pat@.len() <= s@.len(),
                n == s@.len(),
                last + pat@.len() == s@.len(),
                forall|m: int| 0 <= m < j ==> s@[i + m] == pat@[m],
            decreases pat@.len() - j,
        {
            j = j + 1;
        }
        if j == pat.len() {
            assert(s@.subrange(i as int, i + pat@.len()) =~= pat@);
            return Some(i);
        }
        assert(!occurs_at(s@, pat@, i as int)) by {
            if occurs_at(s@, pat@, i as int) {
                assert(s@.subrange(i as int, i + pat@.len())[j as int] == s@[i + j]);
            }
        }
        if i == last {
            assert(find_from(s@, pat@, i + 1) is None);
            return None;
        }
        i = i + 1;
    }
    None
}

/// First `c` in `s` at or after `from`.
pub fn find_char(s: &Vec<char>, c: char, from: usize) -> (r: Option<usize>)
    requires
        from <= s@.len(),
    ensures
        r matches Some(k) ==> index_of(s@, c, from as int) == Some(k as int) && from <= k < s@.len(),
        r is None ==> index_of(s@, c, from as int) is None,
{
    let mut i = from;
    while i < s.len()
        invariant
            from <= i <= s@.len(),
            index_of(s@, c, from as int) == index_of(s@, c, i as int),
        decreases s@.len() - i,
    {
        if s[i] == c {
            return Some(i);
        }
        i = i + 1;
    }
    None
}

/// Bounds of `s.subrange(lo, hi)` once trimmed: `(a, b)` with
/// `s.subrange(a, b) == trim(s.subrange(lo, hi))`.
pub fn trim_bounds(s: &Vec<char>, lo: usize, hi: usize) -> (r: (usize, usize))
    requires
        lo <= hi <= s@.len(),
    ensures
        lo <= r.0 <= r.1 <= hi,
        s@.subrange(r.0 as int, r.1 as int) == trim(s@.subrange(lo as int, hi as int)),
{
    let ghost t = s@.subrange(lo as int, hi as int);
    let mut a = lo;
    while a < hi && is_whitespace(s[a])
        invariant
            lo <= a <= hi <= s@.len(),
            t == s@.subrange(lo as int, hi as int),
            skip_ws(t, 0) == skip_ws(t, a - lo),
        decreases hi - a,
    {
        assert(t[a - lo] == s@[a as int]);
        a = a + 1;
    }
    assert(skip_ws(t, a - lo) == a - lo);
    let mut b = hi;
    while b > a && is_whitespace(s[b - 1])
        invariant
            lo <= a <= b <= hi <= s@.len(),
            t == s@.subrange(lo as int, hi as int),
            back_ws(t, a - lo, t.len() as int) == back_ws(t, a - lo, b - lo),
        decreases b - a,
    {
        assert(t[b - 1 - lo] == s@[b - 1]);
        b = b - 1;
    }
    assert(back_ws(t, a - lo, b - lo) == b - lo);
    assert(s@.subrange(a as int, b as int) =~= t.subrange(a - lo, b - lo));
    (a, b)
}

/// Relies on `String: FromIterator<char>`: the string holds exactly the
/// characters collected, in order.
#[verifier::external_body]
fn string_from_chars(cs: &[char]) -> (r: String)
    ensures
        r@ == cs@,
{
    cs.iter().collect()
}

/// The characters `s[a..b]` as a string.
pub fn string_of(s: &Vec<char>, a: usize, b: usize) -> (r: String)
    requires
        a <= b <= s@.len(),
    ensures
        r@ == s@.subrange(a as int, b as int),
{
    let mut cs: Vec<char> = Vec::new();
    let mut i = a;
    while i < b
        invariant
            a <= i <= b <= s@.len(),
            cs@ == s@.subrange(a as int, i as int),
        decreases b - i,
    {
        cs.push(s[i]);
        i = i + 1;
    }
    string_from_chars(cs.as_slice())
}

/// The views of a sequence of strings.
pub open spec fn views(v: Seq<String>) -> Seq<Seq<char>> {
    v.map_values(|x: String| x@)
}

pub proof fn lemma_views_push(v: Seq<String>, x: String)
    ensures
        views(v.push(x)) == views(v) + seq![x@],
{
    assert(views(v.push(x)) =~= views(v) + seq![x@]);
}

/// The non-empty pieces of `p`, each trimmed first when `trim_each` holds.
pub open spec fn keep_pieces(p: Seq<Seq<char>>, trim_each: bool) -> Seq<Seq<char>>
    decreases p.len(),
{
    if p.len() == 0 {
        seq![]
    } else {
        let x = if trim_each {
            trim(p.last())
        } else {
            p.last()
        };
        keep_pieces(p.drop_last(), trim_each) + if x.len() > 0 {
            seq![x]
        } else {
            seq![]
        }
    }
}

/// A copy of `s[a..b]`.
pub fn copy_range(s: &Vec<char>, a: usize, b: usize) -> (r: Vec<char>)
    requires
        a <= b <= s@.len(),
    ensures
        r@ == s@.subrange(a as int, b as int),
{
    let mut r: Vec<char> = Vec::new();
    let mut i = a;
    while i < b
        invariant
            a <= i <= b <= s@.len(),
            r@ == s@.subrange(a as int, i as int),
        decreases b - i,
    {
        r.push(s[i]);
        i = i + 1;
    }
    r
}

/// The non-empty pieces of `t` between occurrences of `sep`, left to right,
/// each trimmed first when `trim_each` holds.
pub fn pieces(t: &Vec<char>, sep: char, trim_each: bool) -> (r: Vec<String>)
    ensures
        views(r@) == keep_pieces(split(t@, sep), trim_each),
{
    let mut out: Vec<String> = Vec::new();
    let mut start: usize = 0;
    let mut finished = false;
    let ghost mut done: Seq<Seq<char>> = seq![];
    while !finished
        invariant
            start <= t@.len(),
            finished ==> done == split(t@, sep),
            !finished ==> done + split_from(t@, sep, start as int) == split(t@, sep),
            views(out@) == keep_pieces(done, trim_each),
        decreases 2 * (t@.len() - start) + if finished {
            0int
        } else {
            1int
        },
    {
        let end = match find_char(t, sep, start) {
            Some(k) => k,
            None => t.len(),
        };
        let ghost piece = t@.subrange(start as int, end as int);
        let (a, b) = if trim_each {
            trim_bounds(t, start, end)
        } else {
            (start, end)
        };
        proof {
            assert((done + seq![piece]).drop_last() =~= done);
        }
        if a < b {
            let w = string_of(t, a, b);
            out.push(w);
            proof {
                assert(views(out@) =~= views(out@.drop_last()) + seq![w@]);
            }
        }
        let ghost old_done = done;
        proof {
            done = done + seq![piece];
        }
        if end < t.len() {
            proof {
                assert(split_from(t@, sep, start as int) == seq![piece] + split_from(t@, sep, end + 1));
                assert(done + split_from(t@, sep, end + 1) =~= old_done + split_from(t@, sep, start as int));
            }
            start = end + 1;
        } else {
            proof {
                assert(split_from(t@, sep, start as int) == seq![piece]);
            }
            finished = true;
        }
    }
    out
}

} // verus!
