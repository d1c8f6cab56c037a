//! Wildcard patterns: `*` stands for any run of characters, `?` for any one.

use vstd::prelude::*;
use crate::text::chars_of;

verus! {

/// Whether the pattern `p` matches the whole of the text `t`.
///
/// `*` matches any run of characters, the empty one too; `?` matches exactly
/// one character; every other character matches itself.
pub open spec fn glob_match(p: Seq<char>, t: Seq<char>) -> bool
    decreases p.len(), t.len(),
{
    if p.len() == 0 {
        t.len() == 0
    } else if p[0] == '*' {
        glob_match(p.drop_first(), t) || (t.len() > 0 && glob_match(p, t.drop_first()))
    } else if t.len() == 0 {
        false
    } else if p[0] == '?' || p[0] == t[0] {
        glob_match(p.drop_first(), t.drop_first())
    } else {
        false
    }
}

/// The entries of `names` that `p` matches, in their order.
pub open spec fn matching(p: Seq<char>, names: Seq<Seq<char>>) -> Seq<Seq<char>>
    decreases names.len(),
{
    if names.len() == 0 {
        Seq::empty()
    } else {
        let earlier = matching(p, names.drop_last());
        if glob_match(p, names.last()) {
            earlier.push(names.last())
        } else {
            earlier
        }
    }
}

/// A compiled wildcard pattern.
#[derive(Debug, PartialEq, Eq)]
pub struct Glob {
    pub pattern: String,
}

impl View for Glob {
    type V = Seq<char>;

    open spec fn view(&self) -> Seq<char> {
        self.pattern@
    }
}

/// Whether `p` from position `i` on matches `t` from position `j` on.
spec fn tail_match(p: Seq<char>, t: Seq<char>, i: int, j: int) -> bool {
    glob_match(p.subrange(i, p.len() as int), t.subrange(j, t.len() as int))
}

proof fn lemma_tail_match(p: Seq<char>, t: Seq<char>, i: int, j: int)
    requires
        0 <= i <= p.len(),
        0 <= j <= t.len(),
    ensures
        i == p.len() ==> tail_match(p, t, i, j) == (j == t.len()),
        i < p.len() && p[i] == '*' ==> tail_match(p, t, i, j) == (tail_match(p, t, i + 1, j) || (j
            < t.len() && tail_match(p, t, i, j + 1))),
        i < p.len() && p[i] != '*' ==> tail_match(p, t, i, j) == (j < t.len() && (p[i] == '?'
            || p[i] == t[j]) && tail_match(p, t, i + 1, j + 1)),
{
    let ps = p.subrange(i, p.len() as int);
    let ts = t.subrange(j, t.len() as int);
    if i < p.len() {
        assert(ps.drop_first() =~= p.subrange(i + 1, p.len() as int));
        assert(ps[0] == p[i]);
    }
    if j < t.len() {
        assert(ts.drop_first() =~= t.subrange(j + 1, t.len() as int));
        assert(ts[0] == t[j]);
    }
}

impl Glob {
    /// The pattern written as `def`.
    pub fn new(def: &str) -> (g: Glob)
        ensures
            g@ == def@,
    {
        Glob { pattern: def.to_owned() }
    }

    /// A copy of this pattern.
    pub fn duplicate(&self) -> (g: Glob)
        ensures
            g@ == self@,
    {
        Glob { pattern: self.pattern.clone() }
    }

    /// The pattern as text.
    pub fn to_text(&self) -> (s: String)
        ensures
            s@ == self@,
    {
        self.pattern.clone()
    }

    /// Whether the pattern matches the whole of `v`.
    pub fn matches(&self, v: &str) -> (r: bool)
        ensures
            r == glob_match(self@, v@),
    {
        let p = chars_of(self.pattern.as_str());
        let t = chars_of(v);
        let n = p.len();
        let m = t.len();
        // `row[j]` says whether the pattern from `i` on matches the text from `j` on.
        let mut row: Vec<bool> = Vec::new();
        let mut j: usize = 0;
        while j < m
            invariant
                p@ == self@,
                t@ == v@,
                n == p@.len(),
                m == t@.len(),
                j <= m,
                row@.len() == j,
                forall|k: int| 0 <= k < j ==> row@[k] == tail_match(p@, t@, n as int, k),
            decreases m - j,
        {
            proof {
                lemma_tail_match(p@, t@, n as int, j as int);
            }
            row.push(false);
            j += 1;
        }
        proof {
            lemma_tail_match(p@, t@, n as int, m as int);
        }
        row.push(true);
        let mut i: usize = n;
        while i > 0
            invariant
                p@ == self@,
                t@ == v@,
                n == p@.len(),
                m == t@.len(),
                i <= n,
                row@.len() == m + 1,
                forall|k: int| 0 <= k <= m ==> #[trigger] row@[k] == tail_match(p@, t@, i as int, k),
            decreases i,
        {
            i -= 1;
            let star = p[i] == '*';
            let any = p[i] == '?';
            let ghost below = row@;
            // The last cell has no text left to look at.
            proof {
                lemma_tail_match(p@, t@, i as int, m as int);
            }
            let mut carry: bool = star && row[m];
            let mut j: usize = m;
            // `carry` holds the new value of cell `j`; cells above `j` are new,
            // cells up to `j` are still those of the row below.
            while j > 0
                invariant
                    p@ == self@,
                    t@ == v@,
                    n == p@.len(),
                    m == t@.len(),
                    i < n,
                    j <= m,
                    star == (p@[i as int] == '*'),
                    any == (p@[i as int] == '?'),
                    below.len() == m + 1,
                    row@.len() == m + 1,
                    forall|k: int| 0 <= k <= m ==> #[trigger] below[k] == tail_match(p@, t@, i + 1, k),
                    forall|k: int| 0 <= k <= j ==> #[trigger] row@[k] == below[k],
                    forall|k: int| j < k <= m ==> #[trigger] row@[k] == tail_match(p@, t@, i as int, k),
                    carry == tail_match(p@, t@, i as int, j as int),
                decreases j,
            {
                let old_here = row[j];
                row.set(j, carry);
                j -= 1;
                proof {
                    lemma_tail_match(p@, t@, i as int, j as int);
                }
                carry = if star {
                    row[j] || carry
                } else {
                    (any || p[i] == t[j]) && old_here
                };
            }
            row.set(0, carry);
        }
        proof {
            assert(p@.subrange(0, n as int) =~= p@);
            assert(t@.subrange(0, m as int) =~= t@);
        }
        row[0]
    }
}

} // verus!
