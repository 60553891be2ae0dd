//! Dictionary order of texts: the order itself, that it is a strict total
//! order, and sorting by it.

use vstd::prelude::*;
use crate::text::{same_chars, slice_of, texts};

verus! {

/// Dictionary order of texts by their characters' code points.
pub open spec fn text_lt(a: Seq<char>, b: Seq<char>) -> bool
    decreases a.len(),
{
    if b.len() == 0 {
        false
    } else if a.len() == 0 {
        true
    } else if a[0] != b[0] {
        a[0] < b[0]
    } else {
        text_lt(a.skip(1), b.skip(1))
    }
}

/// Whether the text of `a` comes before that of `b` in dictionary order.
pub fn chars_lt(a: &Vec<char>, b: &Vec<char>) -> (r: bool)
    ensures
        r == text_lt(a@, b@),
{
    let mut i: usize = 0;
    proof {
        assert(a@.skip(0) == a@);
        assert(b@.skip(0) == b@);
    }
    while i < a.len() && i < b.len()
        invariant
            i <= a.len(),
            i <= b.len(),
            text_lt(a@, b@) == text_lt(a@.skip(i as int), b@.skip(i as int)),
        decreases a.len() - i,
    {
        if a[i] != b[i] {
            proof {
                assert(a@.skip(i as int)[0] == a@[i as int]);
                assert(b@.skip(i as int)[0] == b@[i as int]);
            }
            return a[i] < b[i];
        }
        proof {
            assert(a@.skip(i as int).skip(1) == a@.skip(i + 1));
            assert(b@.skip(i as int).skip(1) == b@.skip(i + 1));
        }
        i += 1;
    }
    i < b.len()
}

/// No text comes before itself.
pub proof fn lemma_text_lt_irreflexive(a: Seq<char>)
    ensures
        !text_lt(a, a),
    decreases a.len(),
{
    if a.len() > 0 {
        lemma_text_lt_irreflexive(a.skip(1));
    }
}

/// Of two texts at most one comes before the other.
pub proof fn lemma_text_lt_asymmetric(a: Seq<char>, b: Seq<char>)
    ensures
        !(text_lt(a, b) && text_lt(b, a)),
    decreases a.len(),
{
    if a.len() > 0 && b.len() > 0 && a[0] == b[0] {
        lemma_text_lt_asymmetric(a.skip(1), b.skip(1));
    }
}

/// Of two different texts one comes before the other.
pub proof fn lemma_text_lt_total(a: Seq<char>, b: Seq<char>)
    ensures
        a == b || text_lt(a, b) || text_lt(b, a),
    decreases a.len(),
{
    if a.len() > 0 && b.len() > 0 && a[0] == b[0] {
        lemma_text_lt_total(a.skip(1), b.skip(1));
        if a.skip(1) == b.skip(1) {
            assert(a =~= seq![a[0]] + a.skip(1));
            assert(b =~= seq![b[0]] + b.skip(1));
        }
    } else if a.len() == 0 && b.len() == 0 {
        assert(a =~= b);
    }
}

/// The dictionary order is transitive.
pub proof fn lemma_text_lt_transitive(a: Seq<char>, b: Seq<char>, c: Seq<char>)
    requires
        text_lt(a, b),
        text_lt(b, c),
    ensures
        text_lt(a, c),
    decreases a.len(),
{
    if a.len() > 0 && b.len() > 0 && c.len() > 0 && a[0] == b[0] && b[0] == c[0] {
        lemma_text_lt_transitive(a.skip(1), b.skip(1), c.skip(1));
    }
}

/// Each text comes before the next in dictionary order: the texts are in
/// order and no text occurs twice.
pub open spec fn strictly_sorted(s: Seq<Seq<char>>) -> bool {
    forall|i: int, j: int| 0 <= i < j < s.len() ==> text_lt(#[trigger] s[i], #[trigger] s[j])
}

/// The texts of `items` in dictionary order, each once.
pub fn sorted_unique(items: &Vec<Vec<char>>) -> (r: Vec<Vec<char>>)
    ensures
        strictly_sorted(texts(r@)),
        forall|x: Seq<char>| texts(r@).contains(x) <==> texts(items@).contains(x),
{
    let ghost all = texts(items@);
    let mut r: Vec<Vec<char>> = Vec::new();
    let mut i: usize = 0;
    while i < items.len()
        invariant
            i <= items.len(),
            all == texts(items@),
            strictly_sorted(texts(r@)),
            forall|x: Seq<char>| texts(r@).contains(x) <==> all.take(i as int).contains(x),
        decreases items.len() - i,
    {
        let item = &items[i];
        let ghost before = texts(r@);
        let mut pos: usize = 0;
        while pos < r.len() && chars_lt(&r[pos], item)
            invariant
                pos <= r.len(),
                before == texts(r@),
                forall|k: int| 0 <= k < pos ==> text_lt(#[trigger] before[k], item@),
            decreases r.len() - pos,
        {
            pos += 1;
        }
        let fresh = pos >= r.len() || !same_chars(&r[pos], item);
        if fresh {
            r.insert(pos, slice_of(item, 0, item.len()));
            proof {
                assert(item@.subrange(0, item@.len() as int) == item@);
                let after = texts(r@);
                assert(after =~= before.insert(pos as int, item@));
                assert forall|a: int, b: int| 0 <= a < b < after.len() implies text_lt(
                    #[trigger] after[a],
                    #[trigger] after[b],
                ) by {
                    if b < pos {
                        assert(after[a] == before[a] && after[b] == before[b]);
                    } else if b == pos {
                        assert(after[a] == before[a]);
                    } else if a < pos {
                        assert(after[a] == before[a] && after[b] == before[b - 1]);
                    } else if a == pos {
                        assert(after[b] == before[b - 1]);
                        lemma_text_lt_total(before[pos as int], item@);
                        if b - 1 > pos {
                            assert(text_lt(before[pos as int], before[b - 1]));
                            lemma_text_lt_transitive(item@, before[pos as int], before[b - 1]);
                        }
                    } else {
                        assert(after[a] == before[a - 1] && after[b] == before[b - 1]);
                    }
                }
                assert forall|x: Seq<char>| after.contains(x) <==> all.take(i + 1).contains(
                    x,
                ) by {
                    let t0 = all.take(i as int);
                    let t1 = all.take(i + 1);
                    if after.contains(x) {
                        let w = choose|w: int| 0 <= w < after.len() && after[w] == x;
                        if w == pos {
                            assert(t1[i as int] == x);
                        } else {
                            let u = if w < pos {
                                w
                            } else {
                                w - 1
                            };
                            assert(before[u] == x);
                            assert(before.contains(x));
                            assert(t0.contains(x));
                            let z = choose|z: int| 0 <= z < t0.len() && t0[z] == x;
                            assert(t1[z] == x);
                        }
                    }
                    if t1.contains(x) {
                        let z = choose|z: int| 0 <= z < t1.len() && t1[z] == x;
                        if z == i {
                            assert(after[pos as int] == x);
                        } else {
                            assert(t0[z] == x);
                            assert(before.contains(x));
                            let w = choose|w: int| 0 <= w < before.len() && before[w] == x;
                            if w < pos {
                                assert(after[w] == x);
                            } else {
                                assert(after[w + 1] == x);
                            }
                        }
                    }
                }
            }
        } else {
            proof {
                assert forall|x: Seq<char>| before.contains(x) <==> all.take(i + 1).contains(
                    x,
                ) by {
                    let t0 = all.take(i as int);
                    let t1 = all.take(i + 1);
                    if before.contains(x) {
                        assert(t0.contains(x));
                        let z = choose|z: int| 0 <= z < t0.len() && t0[z] == x;
                        assert(t1[z] == x);
                    }
                    if t1.contains(x) {
                        let z = choose|z: int| 0 <= z < t1.len() && t1[z] == x;
                        if z == i {
                            assert(before[pos as int] == x);
                        } else {
                            assert(t0[z] == x);
                        }
                    }
                }
            }
        }
        i += 1;
    }
    proof {
        assert(all.take(items.len() as int) == all);
    }
    r
}

/// Texts in strict order that have the same members are the same texts:
/// what is in order and without repetition is determined by its members.
pub proof fn lemma_strictly_sorted_is_determined(a: Seq<Seq<char>>, b: Seq<Seq<char>>)
    requires
        strictly_sorted(a),
        strictly_sorted(b),
        forall|x: Seq<char>| a.contains(x) <==> b.contains(x),
    ensures
        a == b,
    decreases a.len(),
{
    if a.len() == 0 {
        if b.len() > 0 {
            assert(b.contains(b[0]));
        }
        assert(a =~= b);
    } else if b.len() == 0 {
        assert(a.contains(a[0]));
    } else {
        // The greatest member stands last in both.
        let x = a.last();
        let y = b.last();
        assert(a.contains(x));
        assert(b.contains(y));
        let i = choose|i: int| 0 <= i < b.len() && b[i] == x;
        let j = choose|j: int| 0 <= j < a.len() && a[j] == y;
        if x != y {
            lemma_text_lt_total(x, y);
            lemma_text_lt_asymmetric(x, y);
            lemma_text_lt_irreflexive(x);
            lemma_text_lt_irreflexive(y);
            if i < b.len() - 1 {
                assert(text_lt(b[i], b[b.len() - 1]));
            }
            if j < a.len() - 1 {
                assert(text_lt(a[j], a[a.len() - 1]));
            }
            assert(false);
        }
        let a0 = a.drop_last();
        let b0 = b.drop_last();
        assert forall|z: Seq<char>| a0.contains(z) <==> b0.contains(z) by {
            lemma_text_lt_irreflexive(x);
            if a0.contains(z) {
                let k = choose|k: int| 0 <= k < a0.len() && a0[k] == z;
                assert(a[k] == z);
                assert(text_lt(a[k], a[a.len() - 1]));
                assert(a.contains(z));
                let w = choose|w: int| 0 <= w < b.len() && b[w] == z;
                assert(w < b.len() - 1);
                assert(b0[w] == z);
            }
            if b0.contains(z) {
                let k = choose|k: int| 0 <= k < b0.len() && b0[k] == z;
                assert(b[k] == z);
                assert(text_lt(b[k], b[b.len() - 1]));
                assert(b.contains(z));
                let w = choose|w: int| 0 <= w < a.len() && a[w] == z;
                assert(w < a.len() - 1);
                assert(a0[w] == z);
            }
        }
        assert(strictly_sorted(a0)) by {
            assert forall|p: int, q: int| 0 <= p < q < a0.len() implies text_lt(
                #[trigger] a0[p],
                #[trigger] a0[q],
            ) by {
                assert(a0[p] == a[p] && a0[q] == a[q]);
            }
        }
        assert(strictly_sorted(b0)) by {
            assert forall|p: int, q: int| 0 <= p < q < b0.len() implies text_lt(
                #[trigger] b0[p],
                #[trigger] b0[q],
            ) by {
                assert(b0[p] == b[p] && b0[q] == b[q]);
            }
        }
        lemma_strictly_sorted_is_determined(a0, b0);
        assert(a =~= a0.push(x));
        assert(b =~= b0.push(y));
    }
}

} // verus!
