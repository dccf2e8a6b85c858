//! Character-level helpers on strings, stated over `Seq<char>`.

use vstd::prelude::*;

verus! {

/// `String::push` appends one character.
pub assume_specification[ std::string::String::push ](s: &mut std::string::String, c: char)
    ensures
        final(s)@ == old(s)@.push(c),
;

/// The texts of the strings, in order.
pub open spec fn texts_of(strings: Seq<String>) -> Seq<Seq<char>> {
    strings.map_values(|s: String| s@)
}

/// The characters of `s`, in order.
pub fn chars_of(s: &str) -> (v: Vec<char>)
    ensures
        v@ == s@,
{
    let mut v: Vec<char> = Vec::new();
    for c in it: s.chars()
        invariant
            v@ == it.seq().take(it.index()),
            it.seq() == s@,
    {
        v.push(c);
    }
    v
}

/// The string made of the characters of `v`, in order.
pub fn string_of(v: &Vec<char>) -> (s: String)
    ensures
        s@ == v@,
{
    let mut s = String::new();
    let mut i: usize = 0;
    while i < v.len()
        invariant
            i <= v.len(),
            s@ == v@.take(i as int),
        decreases v.len() - i,
    {
        s.push(v[i]);
        i += 1;
    }
    s
}

/// Appends the characters of `tail` to `out`.
pub fn push_all(out: &mut Vec<char>, tail: &Vec<char>)
    ensures
        final(out)@ == old(out)@ + tail@,
{
    let mut i: usize = 0;
    while i < tail.len()
        invariant
            i <= tail.len(),
            out@ == old(out)@ + tail@.take(i as int),
        decreases tail.len() - i,
    {
        out.push(tail[i]);
        assert(tail@.take(i + 1) == tail@.take(i as int).push(tail@[i as int]));
        i += 1;
    }
    assert(tail@ == tail@.take(tail.len() as int));
}

/// The characters of `s` from `from` up to, not including, `to`.
pub(crate) fn slice_of(s: &Vec<char>, from: usize, to: usize) -> (r: Vec<char>)
    requires
        from <= to <= s.len(),
    ensures
        r@ == s@.subrange(from as int, to as int),
{
    let mut r: Vec<char> = Vec::new();
    let mut i: usize = from;
    while i < to
        invariant
            from <= i <= to <= s.len(),
            r@ == s@.subrange(from as int, i as int),
        decreases to - i,
    {
        r.push(s[i]);
        assert(s@.subrange(from as int, i + 1) == s@.subrange(from as int, i as int).push(
            s@[i as int],
        ));
        i += 1;
    }
    r
}

/// Whether two vectors hold the same characters.
pub fn same_chars(a: &Vec<char>, b: &Vec<char>) -> (r: bool)
    ensures
        r == (a@ == b@),
{
    if a.len() != b.len() {
        return false;
    }
    let mut i: usize = 0;
    while i < a.len()
        invariant
            i <= a.len(),
            a.len() == b.len(),
            a@.take(i as int) == b@.take(i as int),
        decreases a.len() - i,
    {
        if a[i] != b[i] {
            return false;
        }
        assert(a@.take(i + 1) == a@.take(i as int).push(a@[i as int]));
        assert(b@.take(i + 1) == b@.take(i as int).push(b@[i as int]));
        i += 1;
    }
    assert(a@ == a@.take(a.len() as int));
    assert(b@ == b@.take(b.len() as int));
    true
}

/// Whether two strings hold the same characters.
pub fn str_equals(a: &str, b: &str) -> (r: bool)
    ensures
        r == (a@ == b@),
{
    let x = chars_of(a);
    let y = chars_of(b);
    same_chars(&x, &y)
}

/// Whether the characters of `s` at `at` and after spell out `pat`.
pub open spec fn occurs_at(s: Seq<char>, pat: Seq<char>, at: int) -> bool {
    0 <= at && at + pat.len() <= s.len() && s.subrange(at, at + pat.len()) == pat
}

/// The first position at or after `from` where `pat` occurs in `s`; `s.len()` if there is none.
pub open spec fn find_from(s: Seq<char>, pat: Seq<char>, from: int) -> int
    decreases s.len() + 1 - from,
{
    if from < 0 || from + pat.len() > s.len() {
        s.len() as int
    } else if occurs_at(s, pat, from) {
        from
    } else {
        find_from(s, pat, from + 1)
    }
}

/// Whether `pat` occurs somewhere in `s`.
pub open spec fn contains_text(s: Seq<char>, pat: Seq<char>) -> bool {
    exists|at: int| occurs_at(s, pat, at)
}

/// What stands in `s` before the first occurrence of `pat`; all of `s` if `pat` does not occur.
pub open spec fn before_first(s: Seq<char>, pat: Seq<char>) -> Seq<char> {
    s.take(find_from(s, pat, 0))
}

/// A search result lies between its starting point and the end.
pub proof fn lemma_find_bounds(s: Seq<char>, pat: Seq<char>, from: int)
    requires
        0 <= from <= s.len(),
    ensures
        from <= find_from(s, pat, from) <= s.len(),
        find_from(s, pat, from) < s.len() ==> occurs_at(s, pat, find_from(s, pat, from)),
    decreases s.len() - from,
{
    if pat.len() == 0 {
        assert(s.subrange(from, from + pat.len()) =~= pat);
    }
    if from + pat.len() > s.len() {
    } else if occurs_at(s, pat, from) {
    } else {
        lemma_find_bounds(s, pat, from + 1);
    }
}

/// Nothing occurs before the place that a search gives.
pub proof fn lemma_find_is_first(s: Seq<char>, pat: Seq<char>, from: int, j: int)
    requires
        0 <= from <= j < find_from(s, pat, from),
    ensures
        !occurs_at(s, pat, j),
    decreases s.len() + 1 - from,
{
    if from + pat.len() > s.len() {
    } else if occurs_at(s, pat, from) {
    } else if from < j {
        lemma_find_is_first(s, pat, from + 1, j);
    }
}

/// Searching in what is left of `s` after `a` characters is searching `s` from `a` on.
pub proof fn lemma_find_skip(s: Seq<char>, pat: Seq<char>, a: int, from: int)
    requires
        0 <= a <= s.len(),
        0 <= from,
    ensures
        find_from(s.skip(a), pat, from) + a == find_from(s, pat, a + from),
    decreases s.len() + 1 - a - from,
{
    let t = s.skip(a);
    if from + pat.len() > t.len() {
    } else {
        if pat.len() == 0 {
            assert(t.subrange(from, from + pat.len()) =~= pat);
        }
        assert(t.subrange(from, from + pat.len()) == s.subrange(a + from, a + from + pat.len()));
        if !occurs_at(t, pat, from) {
            lemma_find_skip(s, pat, a, from + 1);
        }
    }
}

/// Whether `pat` occurs in `s` at position `at`.
pub fn matches_at(s: &Vec<char>, pat: &Vec<char>, at: usize) -> (r: bool)
    ensures
        r == occurs_at(s@, pat@, at as int),
{
    if pat.len() > s.len() || at > s.len() - pat.len() {
        return false;
    }
    let mut j: usize = 0;
    while j < pat.len()
        invariant
            j <= pat.len(),
            at + pat.len() <= s.len(),
            s@.subrange(at as int, at + j) == pat@.take(j as int),
        decreases pat.len() - j,
    {
        if s[at + j] != pat[j] {
            assert(s@.subrange(at as int, at + pat.len())[j as int] != pat@[j as int]);
            return false;
        }
        assert(s@.subrange(at as int, at + j + 1) == s@.subrange(at as int, at + j).push(
            s@[at + j],
        ));
        assert(pat@.take(j + 1) == pat@.take(j as int).push(pat@[j as int]));
        j += 1;
    }
    assert(pat@ == pat@.take(pat.len() as int));
    true
}

/// Whether `s` begins with `pat`.
pub fn starts_with(s: &str, pat: &str) -> (r: bool)
    ensures
        r == pat@.is_prefix_of(s@),
{
    let x = chars_of(s);
    let y = chars_of(pat);
    matches_at(&x, &y, 0)
}

/// Whether `s` ends with `pat`.
pub fn ends_with(s: &str, pat: &str) -> (r: bool)
    ensures
        r == pat@.is_suffix_of(s@),
{
    let x = chars_of(s);
    let y = chars_of(pat);
    if y.len() > x.len() {
        return false;
    }
    matches_at(&x, &y, x.len() - y.len())
}

/// The first position at or after `from` where `pat` occurs in `s`; `s.len()` if there is none.
pub fn find_in(s: &Vec<char>, pat: &Vec<char>, from: usize) -> (r: usize)
    ensures
        r == find_from(s@, pat@, from as int),
        from <= s.len() ==> from <= r <= s.len(),
{
    if pat.len() > s.len() {
        return s.len();
    }
    let last: usize = s.len() - pat.len();
    let mut i: usize = from;
    while i <= last
        invariant
            from <= i,
            last == s.len() - pat.len(),
            find_from(s@, pat@, from as int) == find_from(s@, pat@, i as int),
        decreases last + 1 - i,
    {
        if matches_at(s, pat, i) {
            return i;
        }
        if i == last {
            assert(find_from(s@, pat@, i + 1) == s.len());
            return s.len();
        }
        i += 1;
    }
    s.len()
}

/// Whether `pat` occurs somewhere in `s`.
pub fn contains(s: &str, pat: &str) -> (r: bool)
    ensures
        r == contains_text(s@, pat@),
{
    let x = chars_of(s);
    let y = chars_of(pat);
    if y.len() == 0 {
        assert(occurs_at(x@, y@, 0)) by {
            assert(x@.subrange(0, 0) == y@);
        }
        return true;
    }
    let at = find_in(&x, &y, 0);
    proof {
        lemma_find_bounds(x@, y@, 0);
        if at == x.len() {
            assert forall|j: int| !occurs_at(x@, y@, j) by {
                if 0 <= j < x.len() {
                    lemma_find_is_first(x@, y@, 0, j);
                }
            }
        }
    }
    at < x.len()
}

/// `s` with every occurrence of `pat` replaced by `with`, found from the left and not
/// overlapping. An empty `pat` leaves `s` as it is.
pub open spec fn replaced(s: Seq<char>, pat: Seq<char>, with: Seq<char>) -> Seq<char>
    decreases s.len(),
{
    if pat.len() == 0 || s.len() < pat.len() {
        s
    } else if occurs_at(s, pat, 0) {
        with + replaced(s.skip(pat.len() as int), pat, with)
    } else {
        seq![s[0]] + replaced(s.skip(1), pat, with)
    }
}

/// `s` with every occurrence of `pat` replaced by `with`.
pub fn replace_all(s: &Vec<char>, pat: &Vec<char>, with: &Vec<char>) -> (r: Vec<char>)
    ensures
        r@ == replaced(s@, pat@, with@),
{
    if pat.len() == 0 {
        let r = slice_of(s, 0, s.len());
        assert(s@.subrange(0, s.len() as int) == s@);
        return r;
    }
    let mut out: Vec<char> = Vec::new();
    let mut i: usize = 0;
    assert(s@.skip(0) == s@);
    assert(out@ + replaced(s@, pat@, with@) == replaced(s@, pat@, with@));
    while i < s.len()
        invariant
            i <= s.len(),
            pat.len() > 0,
            out@ + replaced(s@.skip(i as int), pat@, with@) == replaced(s@, pat@, with@),
        decreases s.len() - i,
    {
        let ghost rest = s@.skip(i as int);
        assert(occurs_at(rest, pat@, 0) == occurs_at(s@, pat@, i as int)) by {
            if i + pat.len() <= s.len() {
                assert(rest.subrange(0, pat.len() as int) == s@.subrange(
                    i as int,
                    i + pat.len(),
                ));
            }
        }
        if matches_at(s, pat, i) {
            assert(rest.skip(pat.len() as int) == s@.skip(i + pat.len()));
            push_all(&mut out, with);
            i += pat.len();
        } else {
            assert(rest.skip(1) == s@.skip(i + 1));
            proof {
                if rest.len() < pat@.len() {
                    assert(rest == seq![rest[0]] + rest.skip(1));
                }
            }
            out.push(s[i]);
            i += 1;
        }
    }
    assert(s@.skip(s.len() as int) == Seq::<char>::empty());
    out
}

/// The piece number `n` (from 0) of `s` cut at every `sep`; `None` if there are fewer pieces.
pub open spec fn segment(s: Seq<char>, sep: char, n: nat) -> Option<Seq<char>>
    decreases n,
{
    let cut = find_from(s, seq![sep], 0);
    if n == 0 {
        Some(s.take(cut))
    } else if cut >= s.len() {
        None
    } else {
        segment(s.skip(cut + 1), sep, (n - 1) as nat)
    }
}

/// The piece number `n` of `s` cut at every `sep`.
pub fn nth_segment(s: &Vec<char>, sep: char, n: usize) -> (r: Option<Vec<char>>)
    ensures
        r is Some <==> segment(s@, sep, n as nat) is Some,
        r is Some ==> r->0@ == segment(s@, sep, n as nat)->0,
{
    let mut pat: Vec<char> = Vec::new();
    pat.push(sep);
    assert(pat@ == seq![sep]);
    let mut start: usize = 0;
    let mut k: usize = 0;
    assert(s@.skip(0) == s@);
    loop
        invariant
            pat@ == seq![sep],
            k <= n,
            start <= s.len(),
            segment(s@, sep, n as nat) == segment(s@.skip(start as int), sep, (n - k) as nat),
        decreases n - k,
    {
        let cut = find_in(s, &pat, start);
        proof {
            lemma_find_skip(s@, pat@, start as int, 0);
            lemma_find_bounds(s@, pat@, start as int);
        }
        if k == n {
            let piece = slice_of(s, start, cut);
            assert(s@.skip(start as int).take(cut - start) == s@.subrange(
                start as int,
                cut as int,
            ));
            return Some(piece);
        }
        if cut >= s.len() {
            return None;
        }
        assert(s@.skip(start as int).skip(cut - start + 1) == s@.skip(cut + 1));
        start = cut + 1;
        k += 1;
    }
}

/// Whether `c` is white space, as Unicode's property White_Space has it.
pub open spec fn is_space(c: char) -> bool {
    let n = c as u32;
    (0x9 <= n <= 0xD) || n == 0x20 || n == 0x85 || n == 0xA0 || n == 0x1680 || (0x2000 <= n
        <= 0x200A) || n == 0x2028 || n == 0x2029 || n == 0x202F || n == 0x205F || n == 0x3000
}

/// `s` without the white space it begins with.
pub open spec fn without_leading_space(s: Seq<char>) -> Seq<char>
    decreases s.len(),
{
    if s.len() > 0 && is_space(s[0]) {
        without_leading_space(s.skip(1))
    } else {
        s
    }
}

/// `s` without the white space it ends with.
pub open spec fn without_trailing_space(s: Seq<char>) -> Seq<char>
    decreases s.len(),
{
    if s.len() > 0 && is_space(s.last()) {
        without_trailing_space(s.drop_last())
    } else {
        s
    }
}

/// `s` without the white space at either end.
pub open spec fn trimmed(s: Seq<char>) -> Seq<char> {
    without_trailing_space(without_leading_space(s))
}

/// Whether `c` is white space.
pub fn is_white_space(c: char) -> (r: bool)
    ensures
        r == is_space(c),
{
    let n: u32 = c as u32;
    (0x9 <= n && n <= 0xD) || n == 0x20 || n == 0x85 || n == 0xA0 || n == 0x1680 || (0x2000 <= n
        && n <= 0x200A) || n == 0x2028 || n == 0x2029 || n == 0x202F || n == 0x205F || n
        == 0x3000
}

/// `s` without the white space at either end.
pub fn trim(s: &str) -> (r: String)
    ensures
        r@ == trimmed(s@),
{
    let v = chars_of(s);
    let mut a: usize = 0;
    assert(v@.skip(0) == v@);
    while a < v.len() && is_white_space(v[a])
        invariant
            a <= v.len(),
            without_leading_space(v@) == without_leading_space(v@.skip(a as int)),
        decreases v.len() - a,
    {
        assert(v@.skip(a as int).skip(1) == v@.skip(a + 1));
        a += 1;
    }
    let mut b: usize = v.len();
    assert(v@.subrange(a as int, b as int) == v@.skip(a as int));
    while b > a && is_white_space(v[b - 1])
        invariant
            a <= b <= v.len(),
            trimmed(v@) == without_trailing_space(v@.subrange(a as int, b as int)),
        decreases b - a,
    {
        assert(v@.subrange(a as int, b as int).drop_last() == v@.subrange(a as int, b - 1));
        b -= 1;
    }
    let piece = slice_of(&v, a, b);
    string_of(&piece)
}

} // verus!
