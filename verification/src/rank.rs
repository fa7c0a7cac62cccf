//! Picking the first few rows of a table in descending order of a key.

use vstd::prelude::*;

verus! {

/// Row `i` stands before row `j` in descending order of the keys: its key is
/// the larger one, or the keys are equal and it was inserted first. A key is
/// a pair, compared part by part.
pub open spec fn outranks(keys: Seq<(i64, i64)>, i: int, j: int) -> bool {
    let a = keys[i];
    let b = keys[j];
    a.0 > b.0 || (a.0 == b.0 && (a.1 > b.1 || (a.1 == b.1 && i < j)))
}

/// `picks` lists the places of the first `limit` rows in descending order of
/// the keys, or of all rows where there are fewer: each pick stands before
/// the next, and before every row that is not picked.
pub open spec fn is_top(keys: Seq<(i64, i64)>, picks: Seq<usize>, limit: int) -> bool {
    &&& picks.len() == if limit < keys.len() {
        limit
    } else {
        keys.len() as int
    }
    &&& forall|k: int| 0 <= k < picks.len() ==> (#[trigger] picks[k]) < keys.len()
    &&& forall|k: int, l: int|
        0 <= k < l < picks.len() ==> outranks(keys, #[trigger] picks[k] as int, #[trigger] picks[l] as int)
    &&& forall|k: int, j: usize|
        0 <= k < picks.len() && j < keys.len() && !#[trigger] picks.contains(j) ==> outranks(
            keys,
            #[trigger] picks[k] as int,
            j as int,
        )
}

/// The places of the first `limit` rows in descending order of the keys.
pub open spec fn top(keys: Seq<(i64, i64)>, limit: int) -> Seq<usize> {
    choose|picks: Seq<usize>| is_top(keys, picks, limit)
}

/// Only one list of picks is the top of a table.
pub proof fn lemma_top_is_unique(keys: Seq<(i64, i64)>, a: Seq<usize>, b: Seq<usize>, limit: int)
    requires
        is_top(keys, a, limit),
        is_top(keys, b, limit),
    ensures
        a == b,
{
    assert(a.len() == b.len());
    lemma_tops_agree(keys, a, b, limit, a.len() as int);
    assert(a =~= b);
}

/// Two tops of one table agree on their first `n` picks.
proof fn lemma_tops_agree(keys: Seq<(i64, i64)>, a: Seq<usize>, b: Seq<usize>, limit: int, n: int)
    requires
        is_top(keys, a, limit),
        is_top(keys, b, limit),
        0 <= n <= a.len(),
    ensures
        forall|k: int| 0 <= k < n ==> a[k] == b[k],
    decreases n,
{
    if n > 0 {
        lemma_tops_agree(keys, a, b, limit, n - 1);
        let k = n - 1;
        if a[k] != b[k] {
            lemma_not_before(keys, a, b, limit, k);
            lemma_not_before(keys, b, a, limit, k);
            assert(outranks(keys, a[k] as int, b[k] as int) || outranks(
                keys,
                b[k] as int,
                a[k] as int,
            ));
        }
    }
}

/// Where two tops agree before place `k`, the pick of the second at `k` does
/// not stand after that of the first.
proof fn lemma_not_before(keys: Seq<(i64, i64)>, a: Seq<usize>, b: Seq<usize>, limit: int, k: int)
    requires
        is_top(keys, a, limit),
        is_top(keys, b, limit),
        0 <= k < a.len(),
        forall|i: int| 0 <= i < k ==> a[i] == b[i],
        a[k] != b[k],
    ensures
        outranks(keys, b[k] as int, a[k] as int),
{
    let x = a[k];
    if b.contains(x) {
        let l = choose|l: int| 0 <= l < b.len() && b[l] == x;
        if l < k {
            assert(a[l] == x);
            assert(outranks(keys, a[l] as int, a[k] as int));
        } else {
            assert(l > k);
            assert(outranks(keys, b[k] as int, b[l] as int));
        }
    } else {
        assert(outranks(keys, b[k] as int, x as int));
    }
}

/// The places of the first `limit` rows in descending order of the keys,
/// rows with equal keys in the order of their insertion.
pub fn top_ranked(keys: &Vec<(i64, i64)>, limit: usize) -> (picks: Vec<usize>)
    ensures
        is_top(keys@, picks@, limit as int),
        picks@ == top(keys@, limit as int),
{
    let mut picks: Vec<usize> = Vec::new();
    let mut j: usize = 0;
    while j < keys.len()
        invariant
            j <= keys.len(),
            picks@.len() == if limit < j {
                limit
            } else {
                j
            },
            forall|k: int| 0 <= k < picks@.len() ==> (#[trigger] picks@[k]) < j,
            forall|k: int, l: int|
                0 <= k < l < picks@.len() ==> outranks(
                    keys@,
                    #[trigger] picks@[k] as int,
                    #[trigger] picks@[l] as int,
                ),
            forall|k: int, m: usize|
                0 <= k < picks@.len() && m < j && !#[trigger] picks@.contains(m) ==> outranks(
                    keys@,
                    #[trigger] picks@[k] as int,
                    m as int,
                ),
            forall|m: usize| m < j && picks@.len() < limit ==> #[trigger] picks@.contains(m),
        decreases keys.len() - j,
    {
        let key = keys[j];
        // The new row goes behind every pick whose key is not smaller.
        let mut pos: usize = 0;
        while pos < picks.len() && !(key.0 > keys[picks[pos]].0 || (key.0 == keys[picks[pos]].0
            && key.1 > keys[picks[pos]].1))
            invariant
                pos <= picks@.len(),
                j < keys.len(),
                key == keys@[j as int],
                forall|k: int| 0 <= k < picks@.len() ==> (#[trigger] picks@[k]) < j,
                forall|k: int| 0 <= k < pos ==> outranks(keys@, #[trigger] picks@[k] as int, j as int),
            decreases picks@.len() - pos,
        {
            pos += 1;
        }
        let ghost before = picks@;
        if pos < limit {
            if picks.len() == limit {
                picks.pop();
            }
            let ghost kept = picks@;
            picks.insert(pos, j);
            proof {
                let after = picks@;
                assert(forall|k: int| 0 <= k < pos ==> after[k] == kept[k]);
                assert(after[pos as int] == j);
                assert(forall|k: int| pos < k < after.len() ==> after[k] == kept[k - 1]);
                assert(forall|k: int| 0 <= k < kept.len() ==> kept[k] == before[k]);
                assert(pos < before.len() ==> outranks(keys@, j as int, before[pos as int] as int));
                assert forall|k: int, l: int| 0 <= k < l < after.len() implies outranks(
                    keys@,
                    #[trigger] after[k] as int,
                    #[trigger] after[l] as int,
                ) by {
                    if l < pos {
                        assert(after[k] == before[k] && after[l] == before[l]);
                    } else if l == pos {
                        assert(after[k] == before[k]);
                    } else if k == pos {
                        assert(after[l] == before[l - 1]);
                        if l - 1 > pos {
                            assert(outranks(keys@, before[pos as int] as int, before[l - 1] as int));
                        }
                    } else if k < pos {
                        assert(after[k] == before[k] && after[l] == before[l - 1]);
                    } else {
                        assert(after[k] == before[k - 1] && after[l] == before[l - 1]);
                    }
                }
                assert forall|m: usize| m < j + 1 && !after.contains(m) implies (forall|k: int|
                    0 <= k < after.len() ==> outranks(keys@, #[trigger] after[k] as int, m as int)) by {
                    assert(after[pos as int] == j);
                    assert(m != j);
                    // Every pick that was kept is still a pick.
                    assert forall|i: int| 0 <= i < kept.len() implies m != kept[i] by {
                        if i < pos {
                            assert(after[i] == kept[i]);
                        } else {
                            assert(after[i + 1] == kept[i]);
                        }
                    }
                    assert(before.len() < limit ==> before.contains(m));
                    if before.contains(m) {
                        // Only the pick that was dropped can be missing now.
                        let i = choose|i: int| 0 <= i < before.len() && before[i] == m;
                        assert(i == before.len() - 1 && kept.len() == before.len() - 1);
                        assert forall|k: int| 0 <= k < after.len() implies outranks(
                            keys@,
                            #[trigger] after[k] as int,
                            m as int,
                        ) by {
                            if k < pos {
                                assert(after[k] == before[k]);
                            } else if k == pos {
                                if pos < i {
                                    assert(outranks(keys@, before[pos as int] as int, before[i] as int));
                                }
                            } else {
                                assert(after[k] == before[k - 1]);
                            }
                        }
                    } else {
                        assert forall|k: int| 0 <= k < after.len() implies outranks(
                            keys@,
                            #[trigger] after[k] as int,
                            m as int,
                        ) by {
                            if k < pos {
                                assert(after[k] == before[k]);
                            } else if k == pos {
                                assert(outranks(keys@, before[pos as int] as int, m as int));
                            } else {
                                assert(after[k] == before[k - 1]);
                            }
                        }
                    }
                }
                assert forall|m: usize| m < j + 1 && after.len() < limit implies #[trigger] after.contains(
                    m,
                ) by {
                    if m == j {
                        assert(after[pos as int] == m);
                    } else {
                        assert(before.contains(m));
                        let i = choose|i: int| 0 <= i < before.len() && before[i] == m;
                        if i < pos {
                            assert(after[i] == m);
                        } else {
                            assert(after[i + 1] == m);
                        }
                    }
                }
            }
        } else {
            proof {
                assert(pos == before.len());
                assert forall|m: usize| m < j + 1 && !before.contains(m) implies (forall|k: int|
                    0 <= k < before.len() ==> outranks(keys@, #[trigger] before[k] as int, m as int)) by {
                    if m == j {
                    }
                }
            }
        }
        j += 1;
    }
    proof {
        let found = picks@;
        assert forall|k: int, m: usize|
            0 <= k < found.len() && m < keys@.len() && !#[trigger] found.contains(m) implies outranks(
            keys@,
            #[trigger] found[k] as int,
            m as int,
        ) by {}
        assert(is_top(keys@, found, limit as int));
        lemma_top_is_unique(keys@, found, top(keys@, limit as int), limit as int);
    }
    picks
}

} // verus!
