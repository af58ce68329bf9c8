//! The edit-distance specification shared by every candidate variant, and the
//! verified dynamic-programming implementations the variants are built from.

use vstd::prelude::*;
use vstd::string::StringSliceAdditionalSpecFns;

verus! {

broadcast use vstd::string::group_string_axioms, vstd::string::is_ascii_spec_bytes;

/// The least of three naturals.
pub open spec fn min3(a: nat, b: nat, c: nat) -> nat {
    if a <= b && a <= c {
        a
    } else if b <= c {
        b
    } else {
        c
    }
}

/// The Levenshtein distance between two character sequences: the least number
/// of single-character insertions, deletions and substitutions that turn one
/// into the other, defined by the textbook recurrence on final characters.
pub open spec fn lev(s: Seq<char>, t: Seq<char>) -> nat
    decreases s.len(), t.len(),
{
    if s.len() == 0 {
        t.len()
    } else if t.len() == 0 {
        s.len()
    } else {
        let cost: nat = if s.last() == t.last() {
            0
        } else {
            1
        };
        min3(
            lev(s.drop_last(), t) + 1,
            lev(s, t.drop_last()) + 1,
            lev(s.drop_last(), t.drop_last()) + cost,
        )
    }
}

/// The distance never exceeds the combined length of the inputs.
pub proof fn lemma_lev_le(s: Seq<char>, t: Seq<char>)
    ensures
        lev(s, t) <= s.len() + t.len(),
    decreases s.len(), t.len(),
{
    if s.len() == 0 || t.len() == 0 {
    } else {
        lemma_lev_le(s.drop_last(), t);
        lemma_lev_le(s, t.drop_last());
        lemma_lev_le(s.drop_last(), t.drop_last());
    }
}

/// The distance is symmetric in its arguments.
pub proof fn lemma_lev_sym(s: Seq<char>, t: Seq<char>)
    ensures
        lev(s, t) == lev(t, s),
    decreases s.len(), t.len(),
{
    if s.len() == 0 || t.len() == 0 {
    } else {
        lemma_lev_sym(s.drop_last(), t);
        lemma_lev_sym(s, t.drop_last());
        lemma_lev_sym(s.drop_last(), t.drop_last());
    }
}

/// The recurrence restated over prefixes, in the shape the row-by-row
/// dynamic programs fill their tables.
pub proof fn lemma_lev_step(s: Seq<char>, t: Seq<char>, i: int, j: int)
    requires
        1 <= i <= s.len(),
        1 <= j <= t.len(),
    ensures
        lev(s.take(i), t.take(j)) == min3(
            lev(s.take(i - 1), t.take(j)) + 1,
            lev(s.take(i), t.take(j - 1)) + 1,
            lev(s.take(i - 1), t.take(j - 1)) + if s[i - 1] == t[j - 1] {
                0nat
            } else {
                1nat
            },
        ),
{
    let a = s.take(i);
    let b = t.take(j);
    assert(a.drop_last() =~= s.take(i - 1));
    assert(b.drop_last() =~= t.take(j - 1));
    assert(a.last() == s[i - 1]);
    assert(b.last() == t[j - 1]);
}

/// A prefix measured against the empty sequence: the distance is the prefix's
/// own length, in both argument orders.
pub proof fn lemma_lev_empty(s: Seq<char>, i: int)
    requires
        0 <= i <= s.len(),
    ensures
        lev(s.take(i), Seq::<char>::empty()) == i,
        lev(Seq::<char>::empty(), s.take(i)) == i,
{
    assert(s.take(i).len() == i);
}

/// Two ASCII characters are equal exactly when their byte encodings are.
pub proof fn lemma_ascii_char_eq(c: char, d: char)
    requires
        c <= '\u{7f}',
        d <= '\u{7f}',
    ensures
        (c as u8 == d as u8) <==> (c == d),
{
    assert(c as u8 == c as int);
    assert(d as u8 == d as int);
}

/// Levenshtein distance by the two-row dynamic program: only the previous and
/// the current row of the distance table are kept.
pub fn lev_two_rows(s: &str, t: &str) -> (r: usize)
    requires
        s.is_ascii(),
        t.is_ascii(),
        s@.len() + t@.len() < usize::MAX,
    ensures
        r == lev(s@, t@),
{
    let m = s.len();
    let n = t.len();
    if m == 0 {
        proof {
            assert(s@.take(0int) =~= s@);
            assert(t@.take(t@.len() as int) =~= t@);
            lemma_lev_empty(t@, t@.len() as int);
        }
        return n;
    }
    if n == 0 {
        proof {
            assert(t@.take(0int) =~= t@);
            assert(s@.take(s@.len() as int) =~= s@);
            lemma_lev_empty(s@, s@.len() as int);
        }
        return m;
    }
    let sb = s.as_bytes();
    let tb = t.as_bytes();
    let mut prev: Vec<usize> = Vec::new();
    let mut j: usize = 0;
    while j <= n
        invariant
            j <= n + 1,
            n < usize::MAX,
            n == t@.len(),
            prev@.len() == j,
            forall|k: int| 0 <= k < j ==> prev@[k] == k,
        decreases n - j + 1,
    {
        prev.push(j);
        j += 1;
    }
    let mut curr: Vec<usize> = Vec::new();
    let mut i: usize = 1;
    while i <= m
        invariant
            1 <= i <= m + 1,
            m == s@.len(),
            n == t@.len(),
            s.is_ascii(),
            t.is_ascii(),
            m + n < usize::MAX,
            sb@ == s.spec_bytes(),
            tb@ == t.spec_bytes(),
            prev@.len() == n + 1,
            forall|k: int| 0 <= k <= n ==> prev@[k] == lev(s@.take(i - 1), t@.take(k)),
        decreases m - i + 1,
    {
        curr = Vec::new();
        curr.push(i);
        proof {
            lemma_lev_empty(s@, i as int);
            assert(t@.take(0int) =~= Seq::<char>::empty());
        }
        let mut j: usize = 1;
        while j <= n
            invariant
                1 <= i <= m,
                1 <= j <= n + 1,
                m == s@.len(),
                n == t@.len(),
                s.is_ascii(),
                t.is_ascii(),
                m + n < usize::MAX,
                sb@ == s.spec_bytes(),
                tb@ == t.spec_bytes(),
                prev@.len() == n + 1,
                forall|k: int| 0 <= k <= n ==> prev@[k] == lev(s@.take(i - 1), t@.take(k)),
                curr@.len() == j,
                forall|k: int| 0 <= k < j ==> curr@[k] == lev(s@.take(i as int), t@.take(k)),
            decreases n - j + 1,
        {
            let cost: usize = if sb[i - 1] == tb[j - 1] {
                0
            } else {
                1
            };
            proof {
                lemma_ascii_char_eq(s@[i - 1], t@[j - 1]);
                lemma_lev_le(s@.take(i - 1), t@.take(j as int));
                lemma_lev_le(s@.take(i as int), t@.take(j - 1));
                lemma_lev_le(s@.take(i - 1), t@.take(j - 1));
                lemma_lev_step(s@, t@, i as int, j as int);
            }
            let del = prev[j] + 1;
            let ins = curr[j - 1] + 1;
            let sub = prev[j - 1] + cost;
            let best = if del <= ins && del <= sub {
                del
            } else if ins <= sub {
                ins
            } else {
                sub
            };
            curr.push(best);
            j += 1;
        }
        let tmp = prev;
        prev = curr;
        curr = tmp;
        i += 1;
    }
    proof {
        assert(s@.take(m as int) =~= s@);
        assert(t@.take(n as int) =~= t@);
    }
    prev[n]
}

/// Levenshtein distance by the full-table dynamic program: every row of the
/// distance table is kept, as the matrix-based variants do.
pub fn lev_matrix(s: &str, t: &str) -> (r: usize)
    requires
        s.is_ascii(),
        t.is_ascii(),
        s@.len() + t@.len() < usize::MAX,
    ensures
        r == lev(s@, t@),
{
    let m = s.len();
    let n = t.len();
    let sb = s.as_bytes();
    let tb = t.as_bytes();
    let mut matrix: Vec<Vec<usize>> = Vec::new();
    let mut first: Vec<usize> = Vec::new();
    let mut j: usize = 0;
    while j <= n
        invariant
            j <= n + 1,
            n <= t@.len(),
            n == t@.len(),
            m + n < usize::MAX,
            first@.len() == j,
            forall|k: int| 0 <= k < j ==> first@[k] == k,
        decreases n - j + 1,
    {
        first.push(j);
        j += 1;
    }
    proof {
        assert forall|k: int| 0 <= k <= n implies first@[k] == lev(s@.take(0int), t@.take(k)) by {
            lemma_lev_empty(t@, k);
            assert(s@.take(0int) =~= Seq::<char>::empty());
        }
    }
    matrix.push(first);
    let mut i: usize = 1;
    while i <= m
        invariant
            1 <= i <= m + 1,
            m == s@.len(),
            n == t@.len(),
            s.is_ascii(),
            t.is_ascii(),
            m + n < usize::MAX,
            sb@ == s.spec_bytes(),
            tb@ == t.spec_bytes(),
            matrix@.len() == i,
            forall|r: int| 0 <= r < i ==> (#[trigger] matrix@[r])@.len() == n + 1,
            forall|r: int, k: int|
                0 <= r < i && 0 <= k <= n ==> #[trigger] (matrix@[r])@[k] == lev(
                    s@.take(r),
                    t@.take(k),
                ),
        decreases m - i + 1,
    {
        let mut row: Vec<usize> = Vec::new();
        row.push(i);
        proof {
            lemma_lev_empty(s@, i as int);
            assert(t@.take(0int) =~= Seq::<char>::empty());
        }
        let mut j: usize = 1;
        while j <= n
            invariant
                1 <= i <= m,
                1 <= j <= n + 1,
                m == s@.len(),
                n == t@.len(),
                s.is_ascii(),
                t.is_ascii(),
                m + n < usize::MAX,
                sb@ == s.spec_bytes(),
                tb@ == t.spec_bytes(),
                matrix@.len() == i,
                forall|r: int| 0 <= r < i ==> (#[trigger] matrix@[r])@.len() == n + 1,
                forall|r: int, k: int|
                    0 <= r < i && 0 <= k <= n ==> #[trigger] (matrix@[r])@[k] == lev(
                        s@.take(r),
                        t@.take(k),
                    ),
                row@.len() == j,
                forall|k: int| 0 <= k < j ==> row@[k] == lev(s@.take(i as int), t@.take(k)),
            decreases n - j + 1,
        {
            let cost: usize = if sb[i - 1] == tb[j - 1] {
                0
            } else {
                1
            };
            proof {
                lemma_ascii_char_eq(s@[i - 1], t@[j - 1]);
                lemma_lev_le(s@.take(i - 1), t@.take(j as int));
                lemma_lev_le(s@.take(i as int), t@.take(j - 1));
                lemma_lev_le(s@.take(i - 1), t@.take(j - 1));
                lemma_lev_step(s@, t@, i as int, j as int);
            }
            let above = matrix[i - 1][j] + 1;
            let left = row[j - 1] + 1;
            let diag = matrix[i - 1][j - 1] + cost;
            let best = if above <= left && above <= diag {
                above
            } else if left <= diag {
                left
            } else {
                diag
            };
            row.push(best);
            j += 1;
        }
        matrix.push(row);
        i += 1;
    }
    proof {
        assert(s@.take(m as int) =~= s@);
        assert(t@.take(n as int) =~= t@);
    }
    matrix[m][n]
}

/// Levenshtein distance keeping a single row of the table and carrying the
/// diagonal entry in a scalar, as the in-place variants do.
pub fn lev_single_row(s: &str, t: &str) -> (r: usize)
    requires
        s.is_ascii(),
        t.is_ascii(),
        s@.len() + t@.len() < usize::MAX,
    ensures
        r == lev(s@, t@),
{
    let m = s.len();
    let n = t.len();
    let sb = s.as_bytes();
    let tb = t.as_bytes();
    let mut row: Vec<usize> = Vec::new();
    let mut j: usize = 0;
    while j <= n
        invariant
            j <= n + 1,
            n < usize::MAX,
            n == t@.len(),
            row@.len() == j,
            forall|k: int| 0 <= k < j ==> row@[k] == k,
        decreases n - j + 1,
    {
        row.push(j);
        j += 1;
    }
    proof {
        assert forall|k: int| 0 <= k <= n implies row@[k] == lev(s@.take(0int), t@.take(k)) by {
            lemma_lev_empty(t@, k);
            assert(s@.take(0int) =~= Seq::<char>::empty());
        }
    }
    let mut i: usize = 1;
    while i <= m
        invariant
            1 <= i <= m + 1,
            m == s@.len(),
            n == t@.len(),
            s.is_ascii(),
            t.is_ascii(),
            m + n < usize::MAX,
            sb@ == s.spec_bytes(),
            tb@ == t.spec_bytes(),
            row@.len() == n + 1,
            forall|k: int| 0 <= k <= n ==> row@[k] == lev(s@.take(i - 1), t@.take(k)),
        decreases m - i + 1,
    {
        let mut diagonal: usize = row[0];
        row.set(0, i);
        proof {
            lemma_lev_empty(s@, i as int);
            lemma_lev_empty(s@, i - 1);
            assert(t@.take(0int) =~= Seq::<char>::empty());
        }
        let mut j: usize = 1;
        while j <= n
            invariant
                1 <= i <= m,
                1 <= j <= n + 1,
                m == s@.len(),
                n == t@.len(),
                s.is_ascii(),
                t.is_ascii(),
                m + n < usize::MAX,
                sb@ == s.spec_bytes(),
                tb@ == t.spec_bytes(),
                row@.len() == n + 1,
                diagonal == lev(s@.take(i - 1), t@.take(j - 1)),
                forall|k: int| 0 <= k < j ==> row@[k] == lev(s@.take(i as int), t@.take(k)),
                forall|k: int| j <= k <= n ==> row@[k] == lev(s@.take(i - 1), t@.take(k)),
            decreases n - j + 1,
        {
            let cost: usize = if sb[i - 1] == tb[j - 1] {
                0
            } else {
                1
            };
            proof {
                lemma_ascii_char_eq(s@[i - 1], t@[j - 1]);
                lemma_lev_le(s@.take(i - 1), t@.take(j as int));
                lemma_lev_le(s@.take(i as int), t@.take(j - 1));
                lemma_lev_le(s@.take(i - 1), t@.take(j - 1));
                lemma_lev_step(s@, t@, i as int, j as int);
            }
            let old_diagonal = diagonal;
            diagonal = row[j];
            let deletion = diagonal + 1;
            let insertion = row[j - 1] + 1;
            let substitution = old_diagonal + cost;
            let best = if deletion <= insertion && deletion <= substitution {
                deletion
            } else if insertion <= substitution {
                insertion
            } else {
                substitution
            };
            row.set(j, best);
            j += 1;
        }
        i += 1;
    }
    proof {
        assert(s@.take(m as int) =~= s@);
        assert(t@.take(n as int) =~= t@);
    }
    row[n]
}

} // verus!
