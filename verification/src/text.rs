//! Character-level helpers on text: comparison, splitting and trimming.
//!
//! Every contract here is stated over `Seq<char>`, the view of `str`.

use vstd::prelude::*;
use vstd::utf8::*;

verus! {

/// `String::push` appends one character to the end of the string.
pub assume_specification[ String::push ](s: &mut String, c: char)
    ensures
        final(s)@ == old(s)@.push(c),
;

/// The views of a sequence of string slices, in order.
pub open spec fn views_of(cells: Seq<&str>) -> Seq<Seq<char>> {
    Seq::new(cells.len(), |i: int| cells[i]@)
}

/// The pieces of `s` that lie between occurrences of `sep`.
///
/// There is always one piece more than there are separators: the empty text
/// has the single piece `""`, and a trailing separator is followed by an
/// empty piece.
pub open spec fn split_spec(s: Seq<char>, sep: char) -> Seq<Seq<char>>
    decreases s.len(),
{
    if s.len() == 0 {
        seq![Seq::<char>::empty()]
    } else {
        let before = split_spec(s.drop_last(), sep);
        if s.last() == sep {
            before.push(Seq::<char>::empty())
        } else {
            before.drop_last().push(before.last().push(s.last()))
        }
    }
}

/// `s` without its leading run of `c`.
pub open spec fn trim_start_spec(s: Seq<char>, c: char) -> Seq<char>
    decreases s.len(),
{
    if s.len() > 0 && s.first() == c {
        trim_start_spec(s.drop_first(), c)
    } else {
        s
    }
}

/// `s` without its trailing run of `c`.
pub open spec fn trim_end_spec(s: Seq<char>, c: char) -> Seq<char>
    decreases s.len(),
{
    if s.len() > 0 && s.last() == c {
        trim_end_spec(s.drop_last(), c)
    } else {
        s
    }
}

/// `s` without the runs of `c` at either end.
pub open spec fn trim_spec(s: Seq<char>, c: char) -> Seq<char> {
    trim_end_spec(trim_start_spec(s, c), c)
}

/// What is left of `s` when an optional trim character is applied.
pub open spec fn trim_opt_spec(s: Seq<char>, trim: Option<char>) -> Seq<char> {
    match trim {
        Some(c) => trim_spec(s, c),
        None => s,
    }
}

/// Trimming a leading run that is known to span exactly `a` characters.
pub proof fn lemma_trim_start(s: Seq<char>, c: char, a: int)
    requires
        0 <= a <= s.len(),
        forall|j: int| 0 <= j < a ==> s[j] == c,
        a == s.len() || s[a] != c,
    ensures
        trim_start_spec(s, c) == s.subrange(a, s.len() as int),
    decreases a,
{
    if a == 0 {
        assert(s.subrange(0, s.len() as int) =~= s);
    } else {
        let t = s.drop_first();
        lemma_trim_start(t, c, a - 1);
        assert(t.subrange(a - 1, t.len() as int) =~= s.subrange(a, s.len() as int));
    }
}

/// Trimming a trailing run that is known to start at `b`.
pub proof fn lemma_trim_end(s: Seq<char>, c: char, b: int)
    requires
        0 <= b <= s.len(),
        forall|j: int| b <= j < s.len() ==> s[j] == c,
        b == 0 || s[b - 1] != c,
    ensures
        trim_end_spec(s, c) == s.subrange(0, b),
    decreases s.len() - b,
{
    if b == s.len() {
        assert(s.subrange(0, b) =~= s);
    } else {
        let t = s.drop_last();
        lemma_trim_end(t, c, b);
        assert(t.subrange(0, b) =~= s.subrange(0, b));
    }
}

/// The characters of `s`, in order.
pub fn chars_of(s: &str) -> (v: Vec<char>)
    ensures
        v@ == s@,
{
    let mut v: Vec<char> = Vec::new();
    for c in it: s.chars()
        invariant
            v@ == it.seq().take(it.index() as int),
            it.seq() == s@,
    {
        v.push(c);
    }
    v
}

/// The character at position `i`.
///
/// A character that comes back from this function is known to the verifier as
/// a character in its own right, which one read by indexing is not.
pub fn char_at(v: &Vec<char>, i: usize) -> (c: char)
    requires
        i < v@.len(),
    ensures
        c == v@[i as int],
{
    v[i]
}

/// Whether two texts hold the same characters.
pub fn text_eq(a: &str, b: &str) -> (r: bool)
    ensures
        r == (a@ == b@),
{
    broadcast use encode_utf8_decode_utf8;

    let x = a.as_bytes();
    let y = b.as_bytes();
    if x.len() != y.len() {
        return false;
    }
    let mut i: usize = 0;
    while i < x.len()
        invariant
            x@.len() == y@.len(),
            i <= x@.len(),
            forall|j: int| 0 <= j < i ==> x@[j] == y@[j],
            x@ == encode_utf8(a@),
            y@ == encode_utf8(b@),
        decreases x@.len() - i,
    {
        if x[i] != y[i] {
            return false;
        }
        i += 1;
    }
    assert(x@ =~= y@);
    assert(decode_utf8(encode_utf8(a@)) == a@);
    assert(decode_utf8(encode_utf8(b@)) == b@);
    true
}

/// Splits `line` at every occurrence of `sep`.
pub fn split<'a>(line: &'a str, sep: char) -> (cells: Vec<&'a str>)
    ensures
        views_of(cells@) == split_spec(line@, sep),
{
    let chars = chars_of(line);
    let n = chars.len();
    let mut cells: Vec<&'a str> = Vec::new();
    let mut start: usize = 0;
    let mut i: usize = 0;
    assert(line@.take(0) =~= Seq::<char>::empty());
    assert(views_of(cells@).push(line@.subrange(0, 0)) =~= seq![Seq::<char>::empty()]);
    while i < n
        invariant
            chars@ == line@,
            n == chars@.len(),
            start <= i <= n,
            split_spec(line@.take(i as int), sep) == views_of(cells@).push(
                line@.subrange(start as int, i as int),
            ),
        decreases n - i,
    {
        let ghost done = line@.take(i as int);
        let ghost next = line@.take(i + 1);
        assert(next.drop_last() =~= done);
        assert(next.last() == line@[i as int]);
        if chars[i] == sep {
            let piece = line.substring_char(start, i);
            let ghost before = views_of(cells@);
            cells.push(piece);
            assert(views_of(cells@) =~= before.push(piece@));
            start = i + 1;
            assert(line@.subrange(start as int, i + 1) =~= Seq::<char>::empty());
        } else {
            let ghost before = views_of(cells@).push(line@.subrange(start as int, i as int));
            assert(before.drop_last() =~= views_of(cells@));
            assert(line@.subrange(start as int, i as int).push(line@[i as int])
                =~= line@.subrange(start as int, i + 1));
        }
        i += 1;
    }
    assert(line@.take(n as int) =~= line@);
    let piece = line.substring_char(start, n);
    let ghost before = views_of(cells@);
    cells.push(piece);
    assert(views_of(cells@) =~= before.push(piece@));
    cells
}

/// `s` without the runs of `c` at its ends.
pub fn trim_matches<'a>(s: &'a str, c: char) -> (r: &'a str)
    ensures
        r@ == trim_spec(s@, c),
{
    let chars = chars_of(s);
    let n = chars.len();
    let mut a: usize = 0;
    while a < n && chars[a] == c
        invariant
            a <= n,
            n == chars@.len(),
            forall|j: int| 0 <= j < a ==> chars@[j] == c,
        decreases n - a,
    {
        a += 1;
    }
    let mut b: usize = n;
    while b > a && chars[b - 1] == c
        invariant
            a <= b <= n,
            n == chars@.len(),
            forall|j: int| b <= j < n ==> chars@[j] == c,
        decreases b,
    {
        b -= 1;
    }
    proof {
        lemma_trim_start(s@, c, a as int);
        let t = s@.subrange(a as int, n as int);
        lemma_trim_end(t, c, b - a);
        assert(t.subrange(0, b - a) =~= s@.subrange(a as int, b as int));
    }
    s.substring_char(a, b)
}

} // verus!
