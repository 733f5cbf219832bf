//! The edit distance of two strings.

use vstd::prelude::*;
use crate::text::chars_of;

verus! {

/// The least of three numbers.
pub open spec fn min3(a: nat, b: nat, c: nat) -> nat {
    if a <= b && a <= c {
        a
    } else if b <= c {
        b
    } else {
        c
    }
}

/// The edit distance of `a` and `b`: the least number of characters to
/// insert, delete or replace that turns one into the other.
pub open spec fn edit_distance(a: Seq<char>, b: Seq<char>) -> nat
    decreases a.len() + b.len(),
{
    if a.len() == 0 {
        b.len()
    } else if b.len() == 0 {
        a.len()
    } else {
        let replace: nat = if a.last() == b.last() {
            0
        } else {
            1
        };
        min3(
            edit_distance(a.drop_last(), b) + 1,
            edit_distance(a, b.drop_last()) + 1,
            edit_distance(a.drop_last(), b.drop_last()) + replace,
        )
    }
}

/// The distance is at most the length of the longer string.
pub proof fn lemma_distance_at_most(a: Seq<char>, b: Seq<char>)
    ensures
        edit_distance(a, b) <= a.len() || edit_distance(a, b) <= b.len(),
    decreases a.len() + b.len(),
{
    if a.len() > 0 && b.len() > 0 {
        lemma_distance_at_most(a.drop_last(), b.drop_last());
    }
}

/// The distance is at least the difference of the lengths.
pub proof fn lemma_distance_at_least(a: Seq<char>, b: Seq<char>)
    ensures
        edit_distance(a, b) >= a.len() - b.len(),
        edit_distance(a, b) >= b.len() - a.len(),
    decreases a.len() + b.len(),
{
    if a.len() > 0 && b.len() > 0 {
        lemma_distance_at_least(a.drop_last(), b);
        lemma_distance_at_least(a, b.drop_last());
        lemma_distance_at_least(a.drop_last(), b.drop_last());
    }
}

/// The distance of a string from itself is nothing, and only from itself.
pub proof fn lemma_distance_zero(a: Seq<char>, b: Seq<char>)
    ensures
        edit_distance(a, b) == 0 <==> a == b,
    decreases a.len() + b.len(),
{
    if a.len() == 0 || b.len() == 0 {
        if a.len() == 0 && b.len() == 0 {
            assert(a =~= b);
        }
    } else {
        lemma_distance_zero(a.drop_last(), b.drop_last());
        if a.last() == b.last() && a.drop_last() == b.drop_last() {
            assert(a =~= a.drop_last().push(a.last()));
            assert(b =~= b.drop_last().push(b.last()));
        }
    }
}

/// The edit distance of two sequences of characters.
pub fn distance(a: &Vec<char>, b: &Vec<char>) -> (d: usize)
    ensures
        d == edit_distance(a@, b@),
{
    let n: usize = a.len();
    let m: usize = b.len();
    let mut prev: Vec<usize> = Vec::new();
    let mut j: usize = 0;
    assert(a@.take(0) =~= Seq::<char>::empty());
    while j < m
        invariant
            j <= m,
            m == b.len(),
            prev.len() == j,
            forall|k: int| 0 <= k < j ==> prev@[k] == edit_distance(a@.take(0), b@.take(k)),
        decreases m - j,
    {
        prev.push(j);
        j += 1;
    }
    prev.push(m);
    let mut i: usize = 0;
    while i < n
        invariant
            i <= n,
            n == a.len(),
            m == b.len(),
            prev.len() == m + 1,
            forall|k: int|
                0 <= k <= m ==> prev@[k] == edit_distance(a@.take(i as int), b@.take(k)),
        decreases n - i,
    {
        let ghost row = a@.take(i + 1);
        let ghost above = a@.take(i as int);
        assert(row.drop_last() =~= above);
        assert(row.last() == a@[i as int]);
        let mut cur: Vec<usize> = Vec::new();
        assert(b@.take(0) =~= Seq::<char>::empty());
        cur.push(i + 1);
        let mut j: usize = 1;
        while j <= m
            invariant
                1 <= j <= m + 1,
                i < n,
                n == a.len(),
                m == b.len(),
                prev.len() == m + 1,
                cur.len() == j,
                row == a@.take(i + 1),
                above == a@.take(i as int),
                row.drop_last() == above,
                row.last() == a@[i as int],
                forall|k: int| 0 <= k <= m ==> prev@[k] == edit_distance(above, b@.take(k)),
                forall|k: int| 0 <= k < j ==> cur@[k] == edit_distance(row, b@.take(k)),
            decreases m + 1 - j,
        {
            let ghost col = b@.take(j as int);
            let ghost left = b@.take(j - 1);
            assert(col.drop_last() =~= left);
            assert(col.last() == b@[j - 1]);
            proof {
                lemma_distance_at_most(above, left);
            }
            let diagonal: usize = if a[i] == b[j - 1] {
                prev[j - 1]
            } else {
                prev[j - 1] + 1
            };
            let side: usize = if prev[j] < cur[j - 1] {
                prev[j]
            } else {
                cur[j - 1]
            };
            let best: usize = if side < diagonal {
                side + 1
            } else {
                diagonal
            };
            cur.push(best);
            j += 1;
        }
        prev = cur;
        i += 1;
    }
    assert(a@.take(n as int) =~= a@);
    assert(b@.take(m as int) =~= b@);
    prev[m]
}

/// The edit distance of two strings.
pub fn levenshtein_distance(a: &str, b: &str) -> (d: usize)
    ensures
        d == edit_distance(a@, b@),
{
    let x = chars_of(a);
    let y = chars_of(b);
    distance(&x, &y)
}

} // verus!
