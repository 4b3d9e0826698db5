//! Text as sequences of characters: trimming, splitting and lines with the
//! meaning that `str::trim`, `str::split` and `str::lines` give them.

use vstd::prelude::*;

verus! {

broadcast use vstd::string::group_string_axioms;

/// Unicode `White_Space`: the characters that `char::is_whitespace` accepts
/// and that `str::trim` removes.
pub open spec fn is_white_space(c: char) -> bool {
    let v = c as u32;
    ||| 0x09 <= v <= 0x0d
    ||| v == 0x20
    ||| v == 0x85
    ||| v == 0xa0
    ||| v == 0x1680
    ||| 0x2000 <= v <= 0x200a
    ||| v == 0x2028
    ||| v == 0x2029
    ||| v == 0x202f
    ||| v == 0x205f
    ||| v == 0x3000
}

/// `s` without its leading white space.
pub open spec fn trim_start(s: Seq<char>) -> Seq<char>
    decreases s.len(),
{
    if s.len() > 0 && is_white_space(s[0]) {
        trim_start(s.drop_first())
    } else {
        s
    }
}

/// `s` without its trailing white space.
pub open spec fn trim_end(s: Seq<char>) -> Seq<char>
    decreases s.len(),
{
    if s.len() > 0 && is_white_space(s.last()) {
        trim_end(s.drop_last())
    } else {
        s
    }
}

/// `s` without leading and trailing white space, as `str::trim` gives it.
pub open spec fn trim(s: Seq<char>) -> Seq<char> {
    trim_end(trim_start(s))
}

/// Index of the first `c` in `s`, or `s.len()` when there is none.
pub open spec fn find_char(s: Seq<char>, c: char) -> nat
    decreases s.len(),
{
    if s.len() == 0 {
        0
    } else if s[0] == c {
        0
    } else {
        1 + find_char(s.drop_first(), c)
    }
}

/// The pieces of `s` between occurrences of `sep`, as `str::split` gives them
/// (always at least one piece).
pub open spec fn split_on(s: Seq<char>, sep: char) -> Seq<Seq<char>>
    decreases s.len(),
{
    let p = find_char(s, sep);
    if p < s.len() {
        seq![s.take(p as int)] + split_on(s.skip(p + 1 as int), sep)
    } else {
        seq![s]
    }
}

/// `s` without one final carriage return.
pub open spec fn strip_cr(s: Seq<char>) -> Seq<char> {
    if s.len() > 0 && s.last() == '\r' {
        s.drop_last()
    } else {
        s
    }
}

/// The lines of `s`, as `str::lines` gives them: split at `\n`, a `\r` right
/// before a `\n` dropped, no final empty line after a trailing `\n`.
pub open spec fn text_lines(s: Seq<char>) -> Seq<Seq<char>>
    decreases s.len(),
{
    if s.len() == 0 {
        seq![]
    } else {
        let p = find_char(s, '\n');
        if p < s.len() {
            seq![strip_cr(s.take(p as int))] + text_lines(s.skip(p + 1 as int))
        } else {
            seq![s]
        }
    }
}

/// `s` begins with `prefix`.
pub open spec fn starts_with(s: Seq<char>, prefix: Seq<char>) -> bool {
    prefix.len() <= s.len() && s.take(prefix.len() as int) == prefix
}

pub proof fn lemma_find_char_bound(s: Seq<char>, c: char)
    ensures
        find_char(s, c) <= s.len(),
        find_char(s, c) < s.len() ==> s[find_char(s, c) as int] == c,
        forall|k: int| 0 <= k < find_char(s, c) ==> s[k] != c,
    decreases s.len(),
{
    if s.len() > 0 && s[0] != c {
        lemma_find_char_bound(s.drop_first(), c);
        assert forall|k: int| 0 <= k < find_char(s, c) implies s[k] != c by {
            if k > 0 {
                assert(s[k] == s.drop_first()[k - 1]);
            }
        }
    }
}

/// Characterises `find_char` by the position it returns.
pub proof fn lemma_find_char_at(s: Seq<char>, c: char, j: int)
    requires
        0 <= j <= s.len(),
        forall|k: int| 0 <= k < j ==> s[k] != c,
        j == s.len() || s[j] == c,
    ensures
        find_char(s, c) == j,
    decreases j,
{
    if j > 0 {
        assert forall|k: int| 0 <= k < j - 1 implies s.drop_first()[k] != c by {
            assert(s.drop_first()[k] == s[k + 1]);
        }
        lemma_find_char_at(s.drop_first(), c, j - 1);
    }
}

/// Unicode `White_Space` test, as `char::is_whitespace` does it.
pub fn is_white_space_char(c: char) -> (r: bool)
    ensures
        r == is_white_space(c),
{
    let v = c as u32;
    (0x09 <= v && v <= 0x0d) || v == 0x20 || v == 0x85 || v == 0xa0 || v == 0x1680 || (0x2000
        <= v && v <= 0x200a) || v == 0x2028 || v == 0x2029 || v == 0x202f || v == 0x205f || v
        == 0x3000
}

/// The characters of a string, in order.
pub fn chars_of(s: &str) -> (v: Vec<char>)
    ensures
        v@ == s@,
{
    let mut v: Vec<char> = Vec::new();
    for c in it: s.chars()
        invariant
            v@ == it.seq().take(it.index()),
    {
        v.push(c);
    }
    v
}

/// A copy of `s[start..end]`.
pub fn copy_range(s: &Vec<char>, start: usize, end: usize) -> (r: Vec<char>)
    requires
        start <= end <= s.len(),
    ensures
        r@ == s@.subrange(start as int, end as int),
{
    let mut r: Vec<char> = Vec::new();
    let mut i = start;
    while i < end
        invariant
            start <= i <= end <= s.len(),
            r@ == s@.subrange(start as int, i as int),
        decreases end - i,
    {
        r.push(s[i]);
        i = i + 1;
    }
    r
}

/// Index of the first `c` at or after `from` in `s`, or `s.len()`.
pub fn find_char_from(s: &Vec<char>, from: usize, c: char) -> (r: usize)
    requires
        from <= s.len(),
    ensures
        r == from + find_char(s@.skip(from as int), c),
        from <= r <= s.len(),
{
    let mut i = from;
    while i < s.len() && s[i] != c
        invariant
            from <= i <= s.len(),
            forall|k: int| from <= k < i ==> s@[k] != c,
        decreases s.len() - i,
    {
        i = i + 1;
    }
    proof {
        let t = s@.skip(from as int);
        assert forall|k: int| 0 <= k < i - from implies t[k] != c by {
            assert(t[k] == s@[k + from]);
        }
        lemma_find_char_at(t, c, i - from);
    }
    i
}

/// `s[start..end]` without leading and trailing white space.
pub fn trim_range(s: &Vec<char>, start: usize, end: usize) -> (r: Vec<char>)
    requires
        start <= end <= s.len(),
    ensures
        r@ == trim(s@.subrange(start as int, end as int)),
{
    let mut lo = start;
    while lo < end && is_white_space_char(s[lo])
        invariant
            start <= lo <= end <= s.len(),
            trim_start(s@.subrange(start as int, end as int)) == trim_start(
                s@.subrange(lo as int, end as int),
            ),
        decreases end - lo,
    {
        assert(s@.subrange(lo as int, end as int).drop_first() =~= s@.subrange(
            lo + 1,
            end as int,
        ));
        lo = lo + 1;
    }
    let mut hi = end;
    while hi > lo && is_white_space_char(s[hi - 1])
        invariant
            start <= lo <= hi <= end <= s.len(),
            trim(s@.subrange(start as int, end as int)) == trim_end(
                s@.subrange(lo as int, hi as int),
            ),
        decreases hi - lo,
    {
        assert(s@.subrange(lo as int, hi as int).drop_last() =~= s@.subrange(
            lo as int,
            hi - 1,
        ));
        hi = hi - 1;
    }
    copy_range(s, lo, hi)
}

/// `s` without leading and trailing white space, as `str::trim` gives it.
pub fn trim_chars(s: &Vec<char>) -> (r: Vec<char>)
    ensures
        r@ == trim(s@),
{
    proof {
        assert(s@.subrange(0, s@.len() as int) =~= s@);
    }
    trim_range(s, 0, s.len())
}


/// The sequences held by a vector of character vectors.
pub open spec fn char_rows(v: Seq<Vec<char>>) -> Seq<Seq<char>> {
    v.map_values(|x: Vec<char>| x@)
}

pub proof fn lemma_char_rows_push(v: Seq<Vec<char>>, x: Vec<char>)
    ensures
        char_rows(v.push(x)) == char_rows(v).push(x@),
{
    assert(char_rows(v.push(x)) =~= char_rows(v).push(x@));
}

/// `a` and `b` hold the same characters.
pub fn equal_chars(a: &Vec<char>, b: &Vec<char>) -> (r: bool)
    ensures
        r == (a@ == b@),
{
    if a.len() != b.len() {
        return false;
    }
    let mut i: usize = 0;
    while i < a.len()
        invariant
            a.len() == b.len(),
            i <= a.len(),
            forall|k: int| 0 <= k < i ==> a@[k] == b@[k],
        decreases a.len() - i,
    {
        if a[i] != b[i] {
            return false;
        }
        i = i + 1;
    }
    assert(a@ =~= b@);
    true
}

/// Splits `s` at every `sep`, as `str::split` does.
pub fn split_chars(s: &Vec<char>, sep: char) -> (r: Vec<Vec<char>>)
    ensures
        char_rows(r@) == split_on(s@, sep),
        r.len() >= 1,
{
    let mut cells: Vec<Vec<char>> = Vec::new();
    let mut cell_start: usize = 0;
    let mut i: usize = 0;
    proof {
        assert(s@.skip(0) =~= s@);
        assert(char_rows(cells@) =~= Seq::<Seq<char>>::empty());
        assert(split_on(s@, sep) =~= char_rows(cells@) + split_on(s@.skip(0), sep));
    }
    while i < s.len()
        invariant
            cell_start <= i <= s.len(),
            forall|k: int| cell_start <= k < i ==> s@[k] != sep,
            split_on(s@, sep) == char_rows(cells@) + split_on(s@.skip(cell_start as int), sep),
        decreases s.len() - i,
    {
        if s[i] == sep {
            let cell = copy_range(s, cell_start, i);
            proof {
                let t = s@.skip(cell_start as int);
                assert forall|k: int| 0 <= k < i - cell_start implies t[k] != sep by {
                    assert(t[k] == s@[k + cell_start]);
                }
                lemma_find_char_at(t, sep, i - cell_start);
                assert(t.take(i - cell_start) =~= s@.subrange(cell_start as int, i as int));
                assert(t.skip(i - cell_start + 1) =~= s@.skip(i + 1));
                assert(split_on(t, sep) == seq![t.take(i - cell_start)] + split_on(
                    t.skip(i - cell_start + 1),
                    sep,
                ));
                assert(char_rows(cells@.push(cell)) =~= char_rows(cells@).push(cell@));
                assert(char_rows(cells@).push(cell@) + split_on(s@.skip(i + 1), sep)
                    =~= char_rows(cells@) + (seq![cell@] + split_on(s@.skip(i + 1), sep)));
            }
            cells.push(cell);
            cell_start = i + 1;
        }
        i = i + 1;
    }
    let last = copy_range(s, cell_start, s.len());
    proof {
        let t = s@.skip(cell_start as int);
        assert forall|k: int| 0 <= k < t.len() implies t[k] != sep by {
            assert(t[k] == s@[k + cell_start]);
        }
        lemma_find_char_at(t, sep, t.len() as int);
        assert(t =~= s@.subrange(cell_start as int, s@.len() as int));
        assert(char_rows(cells@.push(last)) =~= char_rows(cells@).push(last@));
        assert(char_rows(cells@) + seq![t] =~= char_rows(cells@).push(last@));
    }
    cells.push(last);
    cells
}

/// A copy of `s[start..end]` without one final carriage return.
fn copy_strip_cr(s: &Vec<char>, start: usize, end: usize) -> (r: Vec<char>)
    requires
        start <= end <= s.len(),
    ensures
        r@ == strip_cr(s@.subrange(start as int, end as int)),
{
    if end > start && s[end - 1] == '\r' {
        let r = copy_range(s, start, end - 1);
        assert(s@.subrange(start as int, end as int).drop_last() =~= r@);
        r
    } else {
        copy_range(s, start, end)
    }
}

/// The first two lines of `s`, as `str::lines` gives them, or `None` when `s`
/// has fewer than two lines.
pub fn first_two_lines(s: &Vec<char>) -> (r: Option<(Vec<char>, Vec<char>)>)
    ensures
        r is Some <==> text_lines(s@).len() >= 2,
        r matches Some((a, b)) ==> a@ == text_lines(s@)[0] && b@ == text_lines(s@)[1],
{
    let p1 = find_char_from(s, 0, '\n');
    proof {
        assert(s@.skip(0) =~= s@);
        lemma_find_char_bound(s@, '\n');
    }
    if s.len() == 0 || p1 >= s.len() - 1 {
        proof {
            if s@.len() > 0 && p1 < s@.len() {
                assert(s@.skip(p1 + 1) =~= Seq::<char>::empty());
                assert(text_lines(s@.skip(p1 + 1)) =~= Seq::<Seq<char>>::empty());
            }
        }
        return None;
    }
    let first = copy_strip_cr(s, 0, p1);
    let p2 = find_char_from(s, p1 + 1, '\n');
    let second = if p2 < s.len() {
        copy_strip_cr(s, p1 + 1, p2)
    } else {
        copy_range(s, p1 + 1, s.len())
    };
    proof {
        let rest = s@.skip(p1 + 1);
        assert(s@.take(p1 as int) =~= s@.subrange(0, p1 as int));
        assert(rest.take(p2 - p1 - 1) =~= s@.subrange(p1 + 1, p2 as int));
        assert(rest =~= s@.subrange(p1 + 1, s@.len() as int));
        assert(text_lines(s@) == seq![strip_cr(s@.take(p1 as int))] + text_lines(rest));
        assert(text_lines(s@)[1] == text_lines(rest)[0]);
    }
    Some((first, second))
}

/// `s` begins with `prefix`.
pub fn starts_with_chars(s: &Vec<char>, prefix: &Vec<char>) -> (r: bool)
    ensures
        r == starts_with(s@, prefix@),
{
    if prefix.len() > s.len() {
        return false;
    }
    let mut i: usize = 0;
    while i < prefix.len()
        invariant
            prefix.len() <= s.len(),
            i <= prefix.len(),
            forall|k: int| 0 <= k < i ==> s@[k] == prefix@[k],
        decreases prefix.len() - i,
    {
        if s[i] != prefix[i] {
            assert(s@.take(prefix.len() as int)[i as int] != prefix@[i as int]);
            return false;
        }
        i = i + 1;
    }
    assert(s@.take(prefix.len() as int) =~= prefix@);
    true
}

} // verus!
