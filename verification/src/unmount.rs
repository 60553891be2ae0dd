//! Unmounting at shutdown: which mount points are unmounted, and in which
//! order.

use vstd::prelude::*;
use crate::mount::{
    boot_action, fstab_action, parse_fstab_line, table_line, FstabAction, FstabLine, TableLine,
};
use crate::text::{byte_len, chars_of, lines_of, lines_of_chars, string_of, strings, texts};

verus! {

/// The mount points of the lines that are mounted at boot, in the order of
/// the lines.
pub open spec fn mounted_points(lines: Seq<Seq<char>>) -> Seq<Seq<char>>
    decreases lines.len(),
{
    if lines.len() == 0 {
        Seq::empty()
    } else {
        let so_far = mounted_points(lines.drop_last());
        match table_line(lines.last()) {
            TableLine::Entry { source, target, fstype, options } => if boot_action(target, options)
                == FstabAction::Mount {
                so_far.push(target)
            } else {
                so_far
            },
            _ => so_far,
        }
    }
}

/// The mount points that the file system table has mounted at boot.
pub fn unmount_targets(fstab: &str) -> (r: Vec<String>)
    ensures
        strings(r@) == mounted_points(lines_of(fstab@)),
{
    let lines = lines_of_chars(&chars_of(fstab));
    let ghost all = texts(lines@);
    let mut r: Vec<String> = Vec::new();
    let mut i: usize = 0;
    proof {
        assert(all.take(0) =~= Seq::<Seq<char>>::empty());
        assert(strings(r@) =~= Seq::<Seq<char>>::empty());
    }
    while i < lines.len()
        invariant
            i <= lines.len(),
            all == texts(lines@),
            strings(r@) == mounted_points(all.take(i as int)),
        decreases lines.len() - i,
    {
        proof {
            assert(all.take(i + 1).drop_last() == all.take(i as int));
            assert(all.take(i + 1).last() == lines@[i as int]@);
        }
        let line = string_of(&lines[i]);
        match parse_fstab_line(line.as_str()) {
            FstabLine::Entry(e) => {
                if fstab_action(&e) == FstabAction::Mount {
                    let ghost before = strings(r@);
                    r.push(e.target);
                    proof {
                        assert(strings(r@) =~= before.push(e.target@));
                    }
                }
            },
            _ => {},
        }
        i += 1;
    }
    proof {
        assert(all.take(lines.len() as int) == all);
    }
    r
}

/// The place at which a path of `n` bytes goes into `sorted`: before the
/// first path that is shorter.
pub open spec fn place_for(sorted: Seq<Seq<char>>, n: nat) -> int
    decreases sorted.len(),
{
    if sorted.len() == 0 {
        0
    } else if byte_len(sorted[0]) < n {
        0
    } else {
        1 + place_for(sorted.skip(1), n)
    }
}

/// `place_for` is the place with no shorter path before it and a shorter
/// one at it.
pub proof fn lemma_place_for(sorted: Seq<Seq<char>>, n: nat, p: int)
    requires
        0 <= p <= sorted.len(),
        forall|k: int| 0 <= k < p ==> byte_len(#[trigger] sorted[k]) >= n,
        p < sorted.len() ==> byte_len(sorted[p]) < n,
    ensures
        place_for(sorted, n) == p,
    decreases sorted.len(),
{
    if p > 0 {
        let t = sorted.skip(1);
        assert forall|k: int| 0 <= k < p - 1 implies byte_len(#[trigger] t[k]) >= n by {
            assert(t[k] == sorted[k + 1]);
        }
        lemma_place_for(t, n, p - 1);
    }
}

/// The paths with the longest first; paths of the same length keep their
/// order.
pub open spec fn deepest_first(paths: Seq<Seq<char>>) -> Seq<Seq<char>>
    decreases paths.len(),
{
    if paths.len() == 0 {
        Seq::empty()
    } else {
        let sorted = deepest_first(paths.drop_last());
        sorted.insert(place_for(sorted, byte_len(paths.last())), paths.last())
    }
}

/// No path is longer than one before it.
pub open spec fn by_depth(s: Seq<Seq<char>>) -> bool {
    forall|i: int, j: int|
        0 <= i < j < s.len() ==> byte_len(#[trigger] s[i]) >= byte_len(#[trigger] s[j])
}

/// `place_for` stays within the paths, has no shorter path before it and
/// only shorter paths from it on, in paths that are in order.
pub proof fn lemma_place_for_bounds(sorted: Seq<Seq<char>>, n: nat)
    requires
        by_depth(sorted),
    ensures
        0 <= place_for(sorted, n) <= sorted.len(),
        forall|k: int| 0 <= k < place_for(sorted, n) ==> byte_len(#[trigger] sorted[k]) >= n,
        forall|k: int|
            place_for(sorted, n) <= k < sorted.len() ==> byte_len(#[trigger] sorted[k]) < n,
    decreases sorted.len(),
{
    if sorted.len() > 0 {
        let t = sorted.skip(1);
        assert forall|i: int, j: int| 0 <= i < j < t.len() implies byte_len(#[trigger] t[i])
            >= byte_len(#[trigger] t[j]) by {
            assert(t[i] == sorted[i + 1] && t[j] == sorted[j + 1]);
        }
        if byte_len(sorted[0]) < n {
            assert forall|k: int| 0 <= k < sorted.len() implies byte_len(#[trigger] sorted[k])
                < n by {
                if k > 0 {
                    assert(byte_len(sorted[0]) >= byte_len(sorted[k]));
                }
            }
        } else {
            lemma_place_for_bounds(t, n);
            assert forall|k: int| 0 <= k < place_for(sorted, n) implies byte_len(
                #[trigger] sorted[k],
            ) >= n by {
                if k > 0 {
                    assert(t[k - 1] == sorted[k]);
                }
            }
            assert forall|k: int| place_for(sorted, n) <= k < sorted.len() implies byte_len(
                #[trigger] sorted[k],
            ) < n by {
                assert(t[k - 1] == sorted[k]);
            }
        }
    }
}

/// The order of unmounting puts deeper mount points first and leaves none
/// out.
pub proof fn lemma_deepest_first(paths: Seq<Seq<char>>)
    ensures
        by_depth(deepest_first(paths)),
        deepest_first(paths).len() == paths.len(),
    decreases paths.len(),
{
    if paths.len() > 0 {
        lemma_deepest_first(paths.drop_last());
        let sorted = deepest_first(paths.drop_last());
        let x = paths.last();
        let p = place_for(sorted, byte_len(x));
        lemma_place_for_bounds(sorted, byte_len(x));
        let out = sorted.insert(p, x);
        assert forall|i: int, j: int| 0 <= i < j < out.len() implies byte_len(#[trigger] out[i])
            >= byte_len(#[trigger] out[j]) by {
            if j < p {
                assert(out[i] == sorted[i] && out[j] == sorted[j]);
            } else if j == p {
                assert(out[i] == sorted[i]);
            } else if i < p {
                assert(out[i] == sorted[i] && out[j] == sorted[j - 1]);
            } else if i == p {
                assert(out[j] == sorted[j - 1]);
            } else {
                assert(out[i] == sorted[i - 1] && out[j] == sorted[j - 1]);
            }
        }
    }
}

/// The order of unmounting holds the same mount points, each as often as
/// it was given.
pub proof fn lemma_deepest_first_keeps_all(paths: Seq<Seq<char>>)
    ensures
        deepest_first(paths).to_multiset() == paths.to_multiset(),
    decreases paths.len(),
{
    broadcast use vstd::multiset::group_multiset_axioms;

    if paths.len() > 0 {
        let init = paths.drop_last();
        let x = paths.last();
        lemma_deepest_first_keeps_all(init);
        lemma_deepest_first(init);
        let sorted = deepest_first(init);
        let p = place_for(sorted, byte_len(x));
        lemma_place_for_bounds(sorted, byte_len(x));
        let out = sorted.insert(p, x);
        assert(out.remove(p) =~= sorted);
        assert(out[p] == x);
        vstd::seq_lib::to_multiset_remove(out, p);
        out.to_multiset_ensures();
        assert(out.contains(x));
        assert(out.to_multiset() =~= sorted.to_multiset().insert(x));
        assert(paths =~= init.push(x));
        vstd::seq_lib::to_multiset_build(init, x);
    } else {
        assert(deepest_first(paths) =~= paths);
    }
}

/// The mount points in the order in which they are unmounted: the longest
/// path first, so that what is mounted below a mount point goes before it.
pub fn unmount_order(points: &Vec<String>) -> (r: Vec<String>)
    ensures
        strings(r@) == deepest_first(strings(points@)),
        by_depth(strings(r@)),
        r@.len() == points@.len(),
        strings(r@).to_multiset() == strings(points@).to_multiset(),
{
    let ghost all = strings(points@);
    let mut r: Vec<String> = Vec::new();
    let mut i: usize = 0;
    proof {
        assert(all.take(0) =~= Seq::<Seq<char>>::empty());
        assert(strings(r@) =~= Seq::<Seq<char>>::empty());
    }
    while i < points.len()
        invariant
            i <= points.len(),
            all == strings(points@),
            strings(r@) == deepest_first(all.take(i as int)),
        decreases points.len() - i,
    {
        proof {
            assert(all.take(i + 1).drop_last() == all.take(i as int));
            assert(all.take(i + 1).last() == points@[i as int]@);
        }
        let n = points[i].as_str().as_bytes().len();
        let ghost sorted = strings(r@);
        let mut p: usize = 0;
        while p < r.len() && r[p].as_str().as_bytes().len() >= n
            invariant
                p <= r.len(),
                sorted == strings(r@),
                n == byte_len(points@[i as int]@),
                forall|k: int| 0 <= k < p ==> byte_len(#[trigger] sorted[k]) >= n,
            decreases r.len() - p,
        {
            p += 1;
        }
        proof {
            lemma_place_for(sorted, n as nat, p as int);
        }
        r.insert(p, points[i].clone());
        proof {
            assert(strings(r@) =~= sorted.insert(p as int, points@[i as int]@));
        }
        i += 1;
    }
    proof {
        assert(all.take(points.len() as int) == all);
        lemma_deepest_first(all);
        lemma_deepest_first_keeps_all(all);
    }
    r
}

} // verus!
