//! The order of strings, and sequences of strings kept in that order without
//! repeats.

use vstd::prelude::*;
use crate::text::{lex_less, less, same, views};

verus! {

/// No string comes before itself.
pub proof fn lemma_lex_irreflexive(a: Seq<char>)
    ensures
        !lex_less(a, a),
    decreases a.len(),
{
    if a.len() > 0 {
        lemma_lex_irreflexive(a.drop_first());
    }
}

/// Of two different strings one comes before the other.
pub proof fn lemma_lex_total(a: Seq<char>, b: Seq<char>)
    ensures
        a == b || lex_less(a, b) || lex_less(b, a),
    decreases a.len(),
{
    if a.len() == 0 || b.len() == 0 {
        if a.len() == 0 && b.len() == 0 {
            assert(a =~= b);
        }
    } else if a[0] == b[0] {
        lemma_lex_total(a.drop_first(), b.drop_first());
        if a.drop_first() == b.drop_first() {
            assert(a =~= seq![a[0]] + a.drop_first());
            assert(b =~= seq![b[0]] + b.drop_first());
        }
    } else {
        vstd::utf8::char_u32_cast(a[0], a[0] as u32);
        vstd::utf8::char_u32_cast(b[0], b[0] as u32);
    }
}

/// The order of strings is transitive.
pub proof fn lemma_lex_transitive(a: Seq<char>, b: Seq<char>, c: Seq<char>)
    requires
        lex_less(a, b),
        lex_less(b, c),
    ensures
        lex_less(a, c),
    decreases a.len(),
{
    if a.len() > 0 && a[0] == b[0] && b[0] == c[0] {
        lemma_lex_transitive(a.drop_first(), b.drop_first(), c.drop_first());
    }
}

/// No two strings come before each other.
pub proof fn lemma_lex_asymmetric(a: Seq<char>, b: Seq<char>)
    ensures
        !(lex_less(a, b) && lex_less(b, a)),
{
    if lex_less(a, b) && lex_less(b, a) {
        lemma_lex_transitive(a, b, a);
        lemma_lex_irreflexive(a);
    }
}

/// Each string comes before every later one.
pub open spec fn strictly_sorted(rows: Seq<Seq<char>>) -> bool {
    forall|i: int, j: int| 0 <= i < j < rows.len() ==> lex_less(#[trigger] rows[i], #[trigger] rows[j])
}

/// A sequence in strict order is fixed by the strings it holds.
pub proof fn lemma_sorted_unique(a: Seq<Seq<char>>, b: Seq<Seq<char>>)
    requires
        strictly_sorted(a),
        strictly_sorted(b),
        forall|x: Seq<char>| a.contains(x) <==> b.contains(x),
    ensures
        a == b,
    decreases a.len(),
{
    if a.len() == 0 {
        if b.len() > 0 {
            assert(b.contains(b[0]));
        }
        assert(a =~= b);
    } else if b.len() == 0 {
        assert(a.contains(a[0]));
    } else {
        // The first of each is the least string held, so they agree.
        assert(a.contains(a[0]));
        assert(b.contains(b[0]));
        let i = choose|i: int| 0 <= i < b.len() && b[i] == a[0];
        let j = choose|j: int| 0 <= j < a.len() && a[j] == b[0];
        if i > 0 && j > 0 {
            assert(lex_less(b[0], b[i]));
            assert(lex_less(a[0], a[j]));
            lemma_lex_asymmetric(a[0], b[0]);
        } else if i > 0 {
            assert(lex_less(b[0], b[i]));
            lemma_lex_irreflexive(a[0]);
        } else if j > 0 {
            assert(lex_less(a[0], a[j]));
            lemma_lex_irreflexive(b[0]);
        }
        assert(a[0] == b[0]);
        let ta = a.drop_first();
        let tb = b.drop_first();
        assert forall|x: Seq<char>| ta.contains(x) <==> tb.contains(x) by {
            if ta.contains(x) {
                let k = choose|k: int| 0 <= k < ta.len() && ta[k] == x;
                assert(a[k + 1] == x);
                assert(lex_less(a[0], a[k + 1]));
                assert(a.contains(x));
                let m = choose|m: int| 0 <= m < b.len() && b[m] == x;
                if m == 0 {
                    lemma_lex_irreflexive(x);
                }
                assert(tb[m - 1] == x);
            }
            if tb.contains(x) {
                let k = choose|k: int| 0 <= k < tb.len() && tb[k] == x;
                assert(b[k + 1] == x);
                assert(lex_less(b[0], b[k + 1]));
                assert(b.contains(x));
                let m = choose|m: int| 0 <= m < a.len() && a[m] == x;
                if m == 0 {
                    lemma_lex_irreflexive(x);
                }
                assert(ta[m - 1] == x);
            }
        }
        assert forall|p: int, q: int| 0 <= p < q < ta.len() implies lex_less(
            #[trigger] ta[p],
            #[trigger] ta[q],
        ) by {
            assert(lex_less(a[p + 1], a[q + 1]));
        }
        assert forall|p: int, q: int| 0 <= p < q < tb.len() implies lex_less(
            #[trigger] tb[p],
            #[trigger] tb[q],
        ) by {
            assert(lex_less(b[p + 1], b[q + 1]));
        }
        lemma_sorted_unique(ta, tb);
        assert(a =~= seq![a[0]] + ta);
        assert(b =~= seq![b[0]] + tb);
    }
}

/// Where `key` stands among sorted `keys`, or would stand: the index of the
/// first string that does not come before it, and whether that string is `key`.
pub fn slot(keys: &Vec<Vec<char>>, key: &Vec<char>) -> (r: (usize, bool))
    requires
        strictly_sorted(views(keys@)),
    ensures
        r.0 <= keys.len(),
        forall|j: int| 0 <= j < r.0 ==> lex_less(#[trigger] views(keys@)[j], key@),
        r.1 ==> r.0 < keys.len() && keys@[r.0 as int]@ == key@,
        !r.1 ==> forall|j: int| r.0 <= j < keys.len() ==> lex_less(key@, #[trigger] views(keys@)[j]),
        r.1 == views(keys@).contains(key@),
{
    let mut i: usize = 0;
    while i < keys.len() && less(&keys[i], key)
        invariant
            i <= keys.len(),
            forall|j: int| 0 <= j < i ==> lex_less(#[trigger] views(keys@)[j], key@),
        decreases keys.len() - i,
    {
        assert(views(keys@)[i as int] == keys@[i as int]@);
        i += 1;
    }
    let found = i < keys.len() && same(&keys[i], key);
    proof {
        let rows = views(keys@);
        if i < keys.len() {
            assert(rows[i as int] == keys@[i as int]@);
            lemma_lex_total(rows[i as int], key@);
        }
        if !found {
            assert forall|j: int| i <= j < keys.len() implies lex_less(key@, #[trigger] rows[j]) by {
                if j > i {
                    assert(lex_less(rows[i as int], rows[j]));
                    lemma_lex_transitive(key@, rows[i as int], rows[j]);
                }
            }
            assert forall|j: int| 0 <= j < rows.len() implies rows[j] != key@ by {
                if j < i {
                    assert(lex_less(rows[j], key@));
                } else {
                    assert(lex_less(key@, rows[j]));
                }
                lemma_lex_irreflexive(key@);
            }
        } else {
            assert(rows[i as int] == key@);
        }
    }
    (i, found)
}

/// Adds `key` to sorted `keys`, unless they hold it already.
pub fn insert_sorted(keys: &mut Vec<Vec<char>>, key: Vec<char>)
    requires
        strictly_sorted(views(old(keys)@)),
    ensures
        strictly_sorted(views(final(keys)@)),
        forall|x: Seq<char>|
            views(final(keys)@).contains(x) <==> (views(old(keys)@).contains(x) || x == key@),
        final(keys).len() == old(keys).len() + (if views(old(keys)@).contains(key@) {
            0int
        } else {
            1int
        }),
{
    let (i, found) = slot(keys, &key);
    if !found {
        let ghost before = views(keys@);
        let ghost k = key@;
        keys.insert(i, key);
        proof {
            let after = views(keys@);
            assert(after =~= before.insert(i as int, k));
            assert forall|p: int, q: int| 0 <= p < q < after.len() implies lex_less(
                #[trigger] after[p],
                #[trigger] after[q],
            ) by {
                if q < i {
                    assert(lex_less(before[p], before[q]));
                } else if q == i {
                    assert(lex_less(before[p], k));
                } else if p < i {
                    assert(lex_less(before[p], before[q - 1]));
                } else if p == i {
                    assert(lex_less(k, before[q - 1]));
                } else {
                    assert(lex_less(before[p - 1], before[q - 1]));
                }
            }
            assert forall|x: Seq<char>| after.contains(x) <==> (before.contains(x) || x == k) by {
                if after.contains(x) {
                    let m = choose|m: int| 0 <= m < after.len() && after[m] == x;
                    if m < i {
                        assert(before[m] == x);
                    } else if m > i {
                        assert(before[m - 1] == x);
                    }
                }
                if before.contains(x) {
                    let m = choose|m: int| 0 <= m < before.len() && before[m] == x;
                    if m < i {
                        assert(after[m] == x);
                    } else {
                        assert(after[m + 1] == x);
                    }
                }
                if x == k {
                    assert(after[i as int] == x);
                }
            }
        }
    }
}

/// The strings of `rows` in order, each once.
pub fn sorted_unique(rows: &Vec<Vec<char>>) -> (r: Vec<Vec<char>>)
    ensures
        strictly_sorted(views(r@)),
        forall|x: Seq<char>| views(r@).contains(x) <==> views(rows@).contains(x),
        r.len() <= rows.len(),
{
    let mut r: Vec<Vec<char>> = Vec::new();
    let mut i: usize = 0;
    while i < rows.len()
        invariant
            i <= rows.len(),
            r.len() <= i,
            strictly_sorted(views(r@)),
            forall|x: Seq<char>| views(r@).contains(x) <==> views(rows@).take(i as int).contains(x),
        decreases rows.len() - i,
    {
        let ghost before = views(r@);
        let ghost seen = views(rows@).take(i as int);
        let ghost next = views(rows@).take(i + 1);
        let row = crate::text::slice(&rows[i], 0, rows[i].len());
        assert(row@ =~= rows@[i as int]@);
        insert_sorted(&mut r, row);
        proof {
            assert(next =~= seen.push(rows@[i as int]@));
            assert forall|x: Seq<char>| views(r@).contains(x) <==> next.contains(x) by {
                if next.contains(x) {
                    let m = choose|m: int| 0 <= m < next.len() && next[m] == x;
                    if m < i {
                        assert(seen[m] == x);
                    }
                }
                if seen.contains(x) {
                    let m = choose|m: int| 0 <= m < seen.len() && seen[m] == x;
                    assert(next[m] == x);
                }
                if x == rows@[i as int]@ {
                    assert(next[i as int] == x);
                }
            }
        }
        i += 1;
    }
    assert(views(rows@).take(rows.len() as int) =~= views(rows@));
    r
}

} // verus!
