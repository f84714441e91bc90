//! Character-level helpers on text.
//!
//! Text is modelled as `Seq<char>`. The executable helpers work on a `Vec<char>`
//! and on index ranges into it, so that scanning a text is linear in its length.

use vstd::prelude::*;
use vstd::string::StringExecFns;

verus! {

/// `pat` stands in `s` at index `i`.
pub open spec fn occurs_at(s: Seq<char>, pat: Seq<char>, i: int) -> bool {
    0 <= i && i + pat.len() <= s.len() && s.subrange(i, i + pat.len()) == pat
}

/// `s` begins with `pat`.
pub open spec fn starts_with(s: Seq<char>, pat: Seq<char>) -> bool {
    occurs_at(s, pat, 0)
}

/// `pat` stands somewhere in `s`.
pub open spec fn contains(s: Seq<char>, pat: Seq<char>) -> bool {
    exists|i: int| occurs_at(s, pat, i)
}

/// Index of the first `c` in `s`, or `s.len()` where `s` holds no `c`.
pub open spec fn first_index(s: Seq<char>, c: char) -> nat
    decreases s.len(),
{
    if s.len() == 0 || s[0] == c {
        0
    } else {
        1 + first_index(s.drop_first(), c)
    }
}

/// `first_index` is the least index that holds `c`.
pub proof fn lemma_first_index(s: Seq<char>, c: char)
    ensures
        first_index(s, c) <= s.len(),
        first_index(s, c) < s.len() ==> s[first_index(s, c) as int] == c,
        forall|j: int| 0 <= j < first_index(s, c) ==> s[j] != c,
    decreases s.len(),
{
    if s.len() == 0 || s[0] == c {
    } else {
        let t = s.drop_first();
        lemma_first_index(t, c);
        assert forall|j: int| 0 <= j < first_index(s, c) implies s[j] != c by {
            if j > 0 {
                assert(t[j - 1] == s[j]);
            }
        }
    }
}

/// An index that holds `c`, or the length, with no `c` before it, is `first_index`.
pub proof fn lemma_first_index_unique(s: Seq<char>, c: char, i: int)
    requires
        0 <= i <= s.len(),
        i < s.len() ==> s[i] == c,
        forall|j: int| 0 <= j < i ==> s[j] != c,
    ensures
        first_index(s, c) == i,
{
    lemma_first_index(s, c);
    let f = first_index(s, c) as int;
    if f < i {
        assert(s[f] != c);
    }
}

/// The characters of `s`, in order.
pub fn chars_of(s: &str) -> (v: Vec<char>)
    ensures
        v@ == s@,
{
    broadcast use vstd::string::group_string_axioms;

    let mut v: Vec<char> = Vec::new();
    for c in it: s.chars()
        invariant
            it.seq() == s@,
            v@ == it.seq().subrange(0, it.index() as int),
    {
        v.push(c);
    }
    v
}

/// Whether `pat` stands in `s` at index `i`.
pub fn matches_at(s: &Vec<char>, pat: &Vec<char>, i: usize) -> (r: bool)
    ensures
        r == occurs_at(s@, pat@, i as int),
{
    if i > s.len() || pat.len() > s.len() - i {
        return false;
    }
    let mut k: usize = 0;
    while k < pat.len()
        invariant
            k <= pat.len(),
            i + pat.len() <= s.len(),
            forall|j: int| 0 <= j < k ==> s@[i + j] == pat@[j],
        decreases pat.len() - k,
    {
        if s[i + k] != pat[k] {
            proof {
                let sub = s@.subrange(i as int, i + pat.len());
                assert(sub[k as int] == s@[i + k]);
            }
            return false;
        }
        k += 1;
    }
    assert(s@.subrange(i as int, i + pat.len()) =~= pat@);
    true
}

/// Whether `a` and `b` hold the same characters.
pub fn str_eq(a: &str, b: &str) -> (r: bool)
    ensures
        r == (a@ == b@),
{
    let x = chars_of(a);
    let y = chars_of(b);
    if x.len() != y.len() {
        return false;
    }
    let r = matches_at(&x, &y, 0);
    proof {
        assert(x@.subrange(0, x@.len() as int) =~= x@);
    }
    r
}

/// Whether `pat` stands somewhere in `s`.
pub fn has_substring(s: &Vec<char>, pat: &Vec<char>) -> (r: bool)
    ensures
        r == contains(s@, pat@),
{
    if pat.len() > s.len() {
        return false;
    }
    let last: usize = s.len() - pat.len();
    let mut i: usize = 0;
    while i < last
        invariant
            last == s.len() - pat.len(),
            i <= last,
            forall|j: int| 0 <= j < i ==> !occurs_at(s@, pat@, j),
        decreases last - i,
    {
        if matches_at(s, pat, i) {
            return true;
        }
        i += 1;
    }
    matches_at(s, pat, last)
}

/// Index of the first `c` in `s` at or after `from`, or `s.len()` where there is none.
pub fn find_from(s: &Vec<char>, from: usize, c: char) -> (r: usize)
    requires
        from <= s.len(),
    ensures
        from <= r <= s.len(),
        r == from + first_index(s@.subrange(from as int, s@.len() as int), c),
{
    let mut i: usize = from;
    while i < s.len() && s[i] != c
        invariant
            from <= i <= s.len(),
            forall|j: int| from <= j < i ==> s@[j] != c,
        decreases s.len() - i,
    {
        i += 1;
    }
    proof {
        lemma_first_index_unique(s@.subrange(from as int, s@.len() as int), c, i - from);
    }
    i
}

/// `s` without every leading repetition of `pat`; `s` itself where `pat` is empty.
pub open spec fn strip_prefix_repeated(s: Seq<char>, pat: Seq<char>) -> Seq<char>
    decreases s.len(),
{
    if pat.len() > 0 && starts_with(s, pat) {
        strip_prefix_repeated(s.subrange(pat.len() as int, s.len() as int), pat)
    } else {
        s
    }
}

/// `s` without its leading run of `c`.
pub open spec fn trim_start_char(s: Seq<char>, c: char) -> Seq<char>
    decreases s.len(),
{
    if s.len() > 0 && s[0] == c {
        trim_start_char(s.drop_first(), c)
    } else {
        s
    }
}

/// `s` without its trailing run of `c`.
pub open spec fn trim_end_char(s: Seq<char>, c: char) -> Seq<char>
    decreases s.len(),
{
    if s.len() > 0 && s.last() == c {
        trim_end_char(s.drop_last(), c)
    } else {
        s
    }
}

/// `s` without its leading and its trailing run of `c`.
pub open spec fn trim_char(s: Seq<char>, c: char) -> Seq<char> {
    trim_end_char(trim_start_char(s, c), c)
}

/// `line` without one trailing carriage return.
pub open spec fn strip_cr(line: Seq<char>) -> Seq<char> {
    if line.len() > 0 && line.last() == '\r' {
        line.drop_last()
    } else {
        line
    }
}

/// The lines of `s`. A line ends at a line feed, or at the end of the text;
/// a carriage return just before the line feed belongs to the line ending.
/// A text that ends in a line ending has no empty last line.
pub open spec fn lines(s: Seq<char>) -> Seq<Seq<char>>
    decreases s.len(),
{
    if s.len() == 0 {
        Seq::empty()
    } else {
        let n = first_index(s, '\n');
        if n >= s.len() {
            seq![s]
        } else {
            seq![strip_cr(s.subrange(0, n as int))] + lines(
                s.subrange(n as int + 1, s.len() as int),
            )
        }
    }
}

/// Start of what is left of `s[lo..hi]` once every leading repetition of
/// `pat` is taken off.
pub fn skip_prefix_repeated(s: &Vec<char>, lo: usize, hi: usize, pat: &Vec<char>) -> (r: usize)
    requires
        lo <= hi <= s.len(),
    ensures
        lo <= r <= hi,
        s@.subrange(r as int, hi as int) == strip_prefix_repeated(
            s@.subrange(lo as int, hi as int),
            pat@,
        ),
{
    let mut i: usize = lo;
    if pat.len() == 0 {
        return i;
    }
    while hi - i >= pat.len() && matches_at(s, pat, i)
        invariant
            lo <= i <= hi <= s.len(),
            pat.len() > 0,
            strip_prefix_repeated(s@.subrange(i as int, hi as int), pat@) == strip_prefix_repeated(
                s@.subrange(lo as int, hi as int),
                pat@,
            ),
        decreases hi - i,
    {
        proof {
            let cur = s@.subrange(i as int, hi as int);
            assert(cur.subrange(0, pat@.len() as int) =~= s@.subrange(i as int, i + pat@.len()));
            assert(cur.subrange(pat@.len() as int, cur.len() as int) =~= s@.subrange(
                i + pat@.len(),
                hi as int,
            ));
        }
        i += pat.len();
    }
    proof {
        let cur = s@.subrange(i as int, hi as int);
        if hi - i >= pat.len() {
            assert(cur.subrange(0, pat@.len() as int) =~= s@.subrange(i as int, i + pat@.len()));
        }
    }
    i
}

/// The range that is left of `s[lo..hi]` once its leading and its trailing run
/// of `c` are taken off.
pub fn trim_char_range(s: &Vec<char>, lo: usize, hi: usize, c: char) -> (r: (usize, usize))
    requires
        lo <= hi <= s.len(),
    ensures
        lo <= r.0 <= r.1 <= hi,
        s@.subrange(r.0 as int, r.1 as int) == trim_char(s@.subrange(lo as int, hi as int), c),
{
    let mut i: usize = lo;
    while i < hi && s[i] == c
        invariant
            lo <= i <= hi <= s.len(),
            trim_start_char(s@.subrange(i as int, hi as int), c) == trim_start_char(
                s@.subrange(lo as int, hi as int),
                c,
            ),
        decreases hi - i,
    {
        proof {
            let cur = s@.subrange(i as int, hi as int);
            assert(cur.drop_first() =~= s@.subrange(i + 1, hi as int));
        }
        i += 1;
    }
    let mut j: usize = hi;
    while i < j && s[j - 1] == c
        invariant
            lo <= i <= j <= hi <= s.len(),
            trim_end_char(s@.subrange(i as int, j as int), c) == trim_end_char(
                s@.subrange(i as int, hi as int),
                c,
            ),
        decreases j - i,
    {
        proof {
            let cur = s@.subrange(i as int, j as int);
            assert(cur.drop_last() =~= s@.subrange(i as int, j - 1));
        }
        j -= 1;
    }
    (i, j)
}

/// The first line of `s[pos..]`: it ends before the first index returned, and
/// the rest of the text starts at the second.
pub fn next_line(s: &Vec<char>, pos: usize) -> (r: (usize, usize))
    requires
        pos < s.len(),
    ensures
        pos <= r.0 <= r.1 <= s.len(),
        pos < r.1,
        lines(s@.subrange(pos as int, s@.len() as int)) == seq![
            s@.subrange(pos as int, r.0 as int),
        ] + lines(s@.subrange(r.1 as int, s@.len() as int)),
{
    let ghost rest = s@.subrange(pos as int, s@.len() as int);
    let nl = find_from(s, pos, '\n');
    if nl >= s.len() {
        proof {
            assert(s@.subrange(pos as int, nl as int) =~= rest);
            assert(lines(s@.subrange(nl as int, s@.len() as int)) =~= Seq::empty());
            assert(seq![rest] + Seq::<Seq<char>>::empty() =~= seq![rest]);
        }
        (nl, nl)
    } else {
        let end = if nl > pos && s[nl - 1] == '\r' {
            nl - 1
        } else {
            nl
        };
        proof {
            let n = nl - pos;
            assert(rest.subrange(0, n) =~= s@.subrange(pos as int, nl as int));
            assert(rest.subrange(n + 1, rest.len() as int) =~= s@.subrange(
                nl + 1,
                s@.len() as int,
            ));
            assert(strip_cr(s@.subrange(pos as int, nl as int)) =~= s@.subrange(
                pos as int,
                end as int,
            ));
        }
        (end, nl + 1)
    }
}

/// The characters of each string of `v`.
pub open spec fn texts(v: Seq<String>) -> Seq<Seq<char>> {
    v.map_values(|s: String| s@)
}

/// The parts, in order, with `sep` between each two neighbours.
pub open spec fn joined(parts: Seq<Seq<char>>, sep: Seq<char>) -> Seq<char>
    decreases parts.len(),
{
    if parts.len() == 0 {
        Seq::empty()
    } else if parts.len() == 1 {
        parts[0]
    } else {
        joined(parts.drop_last(), sep) + sep + parts.last()
    }
}

/// The parts, in order, with `sep` between each two neighbours.
pub fn join(parts: &Vec<String>, sep: &str) -> (r: String)
    ensures
        r@ == joined(texts(parts@), sep@),
{
    let mut r = String::new();
    let mut i: usize = 0;
    while i < parts.len()
        invariant
            i <= parts@.len(),
            r@ == joined(texts(parts@).subrange(0, i as int), sep@),
        decreases parts@.len() - i,
    {
        proof {
            let next = texts(parts@).subrange(0, i + 1);
            assert(next.drop_last() =~= texts(parts@).subrange(0, i as int));
            assert(next.last() == parts@[i as int]@);
            if i == 0 {
                assert(Seq::<char>::empty() + parts@[0]@ =~= parts@[0]@);
            }
        }
        if i > 0 {
            r.append(sep);
        }
        r.append(parts[i].as_str());
        i += 1;
    }
    proof {
        assert(texts(parts@).subrange(0, i as int) =~= texts(parts@));
    }
    r
}

/// `a` followed by `b`.
pub fn followed_by(a: &str, b: &str) -> (r: String)
    ensures
        r@ == a@ + b@,
{
    let mut r = a.to_owned();
    r.append(b);
    r
}

/// Index of the first `c` in `s[lo..hi]`, or `hi` where there is none.
pub fn find_in(s: &Vec<char>, lo: usize, hi: usize, c: char) -> (r: usize)
    requires
        lo <= hi <= s.len(),
    ensures
        lo <= r <= hi,
        r == lo + first_index(s@.subrange(lo as int, hi as int), c),
{
    let mut i: usize = lo;
    while i < hi && s[i] != c
        invariant
            lo <= i <= hi <= s.len(),
            forall|j: int| lo <= j < i ==> s@[j] != c,
        decreases hi - i,
    {
        i += 1;
    }
    proof {
        lemma_first_index_unique(s@.subrange(lo as int, hi as int), c, i - lo);
    }
    i
}

/// Whether `c` is white space: one of the characters that Unicode classes
/// as `White_Space`.
pub open spec fn is_space(c: char) -> bool {
    let n = c as u32;
    (0x09 <= n <= 0x0D) || n == 0x20 || n == 0x85 || n == 0xA0 || n == 0x1680 || (0x2000 <= n
        <= 0x200A) || n == 0x2028 || n == 0x2029 || n == 0x202F || n == 0x205F || n == 0x3000
}

/// Whether `c` is white space.
pub fn is_whitespace(c: char) -> (r: bool)
    ensures
        r == is_space(c),
{
    let n = c as u32;
    (0x09 <= n && n <= 0x0D) || n == 0x20 || n == 0x85 || n == 0xA0 || n == 0x1680 || (0x2000 <= n
        && n <= 0x200A) || n == 0x2028 || n == 0x2029 || n == 0x202F || n == 0x205F || n == 0x3000
}

/// `s` without its leading white space.
pub open spec fn trim_start(s: Seq<char>) -> Seq<char>
    decreases s.len(),
{
    if s.len() > 0 && is_space(s[0]) {
        trim_start(s.drop_first())
    } else {
        s
    }
}

/// `s` without its trailing white space.
pub open spec fn trim_end(s: Seq<char>) -> Seq<char>
    decreases s.len(),
{
    if s.len() > 0 && is_space(s.last()) {
        trim_end(s.drop_last())
    } else {
        s
    }
}

/// `s` without its leading and its trailing white space.
pub open spec fn trimmed(s: Seq<char>) -> Seq<char> {
    trim_end(trim_start(s))
}

/// The range that is left of `s[lo..hi]` once its leading and its trailing
/// white space are taken off.
pub fn trim_range(s: &Vec<char>, lo: usize, hi: usize) -> (r: (usize, usize))
    requires
        lo <= hi <= s.len(),
    ensures
        lo <= r.0 <= r.1 <= hi,
        s@.subrange(r.0 as int, r.1 as int) == trimmed(s@.subrange(lo as int, hi as int)),
{
    let mut i: usize = lo;
    while i < hi && is_whitespace(s[i])
        invariant
            lo <= i <= hi <= s.len(),
            trim_start(s@.subrange(i as int, hi as int)) == trim_start(
                s@.subrange(lo as int, hi as int),
            ),
        decreases hi - i,
    {
        proof {
            let cur = s@.subrange(i as int, hi as int);
            assert(cur.drop_first() =~= s@.subrange(i + 1, hi as int));
        }
        i += 1;
    }
    let mut j: usize = hi;
    while i < j && is_whitespace(s[j - 1])
        invariant
            lo <= i <= j <= hi <= s.len(),
            trim_end(s@.subrange(i as int, j as int)) == trim_end(s@.subrange(i as int, hi as int)),
        decreases j - i,
    {
        proof {
            let cur = s@.subrange(i as int, j as int);
            assert(cur.drop_last() =~= s@.subrange(i as int, j - 1));
        }
        j -= 1;
    }
    (i, j)
}

/// The parts of `s` between the occurrences of `c`. A text without `c` is
/// one part, an empty text too.
pub open spec fn split(s: Seq<char>, c: char) -> Seq<Seq<char>>
    decreases s.len(),
{
    let n = first_index(s, c);
    if n >= s.len() {
        seq![s]
    } else {
        seq![s.subrange(0, n as int)] + split(s.subrange(n as int + 1, s.len() as int), c)
    }
}

/// Whether `s[lo..hi]` begins with `pat`.
pub fn range_starts_with(s: &Vec<char>, lo: usize, hi: usize, pat: &Vec<char>) -> (r: bool)
    requires
        lo <= hi <= s.len(),
    ensures
        r == starts_with(s@.subrange(lo as int, hi as int), pat@),
{
    if hi - lo < pat.len() {
        return false;
    }
    proof {
        let line = s@.subrange(lo as int, hi as int);
        assert(line.subrange(0, pat@.len() as int) =~= s@.subrange(lo as int, lo + pat@.len()));
    }
    matches_at(s, pat, lo)
}

/// A copy of the characters `lo..hi` of `text`.
pub fn copy_of(text: &str, lo: usize, hi: usize) -> (r: String)
    requires
        lo <= hi <= text@.len(),
    ensures
        r@ == text@.subrange(lo as int, hi as int),
{
    text.substring_char(lo, hi).to_owned()
}

/// What `trim_end_char` leaves is the front of the text, it does not end in
/// `c`, and all that was taken off is `c`.
pub proof fn lemma_trim_end_char(s: Seq<char>, c: char)
    ensures
        trim_end_char(s, c).len() <= s.len(),
        trim_end_char(s, c) == s.subrange(0, trim_end_char(s, c).len() as int),
        trim_end_char(s, c).len() > 0 ==> trim_end_char(s, c).last() != c,
        forall|i: int| trim_end_char(s, c).len() <= i < s.len() ==> s[i] == c,
    decreases s.len(),
{
    if s.len() > 0 && s.last() == c {
        let front = s.drop_last();
        lemma_trim_end_char(front, c);
        let kept = trim_end_char(front, c);
        assert(kept =~= s.subrange(0, kept.len() as int));
        assert forall|i: int| kept.len() <= i < s.len() implies s[i] == c by {
            if i < front.len() {
                assert(front[i] == s[i]);
            }
        }
    } else {
        assert(s =~= s.subrange(0, s.len() as int));
    }
}

/// The length of what is left of `s` once its trailing run of `c` is taken
/// off.
pub fn trim_end_char_len(s: &Vec<char>, c: char) -> (r: usize)
    ensures
        r <= s.len(),
        s@.subrange(0, r as int) == trim_end_char(s@, c),
{
    let mut j: usize = s.len();
    proof {
        assert(s@.subrange(0, j as int) =~= s@);
    }
    while j > 0 && s[j - 1] == c
        invariant
            j <= s.len(),
            trim_end_char(s@.subrange(0, j as int), c) == trim_end_char(s@, c),
        decreases j,
    {
        proof {
            let cur = s@.subrange(0, j as int);
            assert(cur.drop_last() =~= s@.subrange(0, j - 1));
        }
        j -= 1;
    }
    j
}

} // verus!
