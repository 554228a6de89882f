//! Stable sorting by a rank.
//!
//! Items are moved, never copied, so the sort works on items of any type
//! that says which of two items comes first.

use vstd::prelude::*;

verus! {

/// Items that can be put in order.  `precedes` is a strict order in which
/// any two items that do not precede one another rank the same.
pub trait Ranked: Sized {
    /// `self` has to come before `other`.
    spec fn precedes(&self, other: &Self) -> bool;

    /// Whether `self` has to come before `other`.
    fn goes_before(&self, other: &Self) -> (r: bool)
        ensures
            r == self.precedes(other),
    ;

    /// Of two items at most one has to come before the other.
    proof fn lemma_asym(a: &Self, b: &Self)
        requires
            a.precedes(b),
        ensures
            !b.precedes(a),
    ;

    /// Where `a` need not come behind `b`, nor `b` behind `c`, `a` need not
    /// come behind `c`.
    proof fn lemma_order(a: &Self, b: &Self, c: &Self)
        requires
            !b.precedes(a),
            !c.precedes(b),
        ensures
            !c.precedes(a),
    ;
}

/// No item stands before one that has to come before it.
pub open spec fn in_order<T: Ranked>(s: Seq<T>) -> bool {
    forall|i: int, j: int| #![trigger s[i], s[j]] 0 <= i < j < s.len() ==> !s[j].precedes(&s[i])
}

/// `from` lists, for each place of `sorted`, the place that its item had in
/// `items`: every place once.
pub open spec fn rearranges<T>(items: Seq<T>, sorted: Seq<T>, from: Seq<int>) -> bool {
    &&& sorted.len() == items.len()
    &&& from.len() == items.len()
    &&& forall|k: int| 0 <= k < from.len() ==> 0 <= #[trigger] from[k] < items.len()
    &&& forall|k: int| 0 <= k < from.len() ==> sorted[k] == items[#[trigger] from[k]]
    &&& forall|k: int, l: int|
        0 <= k < l < from.len() ==> #[trigger] from[k] != #[trigger] from[l]
}

/// Items of one rank keep the order that they had.
pub open spec fn keeps_ties<T: Ranked>(sorted: Seq<T>, from: Seq<int>) -> bool {
    forall|k: int, l: int|
        #![trigger sorted[k], sorted[l]]
        0 <= k < l < sorted.len() && !sorted[k].precedes(&sorted[l]) ==> from[k] < from[l]
}

/// `sorted` holds the items of `items` in order, those of one rank as they
/// stood.
pub open spec fn sorted_from<T: Ranked>(items: Seq<T>, sorted: Seq<T>) -> bool {
    in_order(sorted) && exists|from: Seq<int>|
        #![trigger rearranges(items, sorted, from)]
        rearranges(items, sorted, from) && keeps_ties(sorted, from)
}

/// Sorts the items by rank.  Items of one rank keep their order.
pub fn stable_sort<T: Ranked>(items: Vec<T>) -> (sorted: Vec<T>)
    ensures
        sorted_from(items@, sorted@),
        sorted@.len() == items@.len(),
{
    let ghost all = items@;
    let mut rest = items;
    let mut sorted: Vec<T> = Vec::new();
    // The places in `all` of the items of `sorted`.
    let ghost mut from: Seq<int> = Seq::empty();
    // Items are taken from the end of `rest`, so each new item stood before
    // all that are sorted already and goes before those of its rank.
    while rest.len() > 0
        invariant
            rest@ == all.take(rest@.len() as int),
            rest@.len() <= all.len(),
            sorted@.len() + rest@.len() == all.len(),
            from.len() == sorted@.len(),
            in_order(sorted@),
            forall|k: int| 0 <= k < from.len() ==> rest@.len() <= #[trigger] from[k] < all.len(),
            forall|k: int| 0 <= k < from.len() ==> sorted@[k] == all[#[trigger] from[k]],
            forall|k: int, l: int|
                0 <= k < l < from.len() ==> #[trigger] from[k] != #[trigger] from[l],
            keeps_ties(sorted@, from),
        decreases rest@.len(),
    {
        let ghost place = rest@.len() - 1;
        let item = rest.pop().unwrap();
        assert(item == all[place]);
        assert(rest@ =~= all.take(place));
        // The first item that does not have to come before the new one.
        let mut at: usize = 0;
        while at < sorted.len() && sorted[at].goes_before(&item)
            invariant
                at <= sorted@.len(),
                forall|k: int| 0 <= k < at ==> (#[trigger] sorted@[k]).precedes(&item),
            decreases sorted@.len() - at,
        {
            at += 1;
        }
        let ghost before = sorted@;
        let ghost before_from = from;
        sorted.insert(at, item);
        proof {
            from = from.insert(at as int, place);
            let after = sorted@;
            assert(after == before.insert(at as int, item));
            assert forall|i: int, j: int|
                #![trigger after[i], after[j]]
                0 <= i < j < after.len() implies !after[j].precedes(&after[i]) by {
                if j == at {
                    // after[i] precedes item, so item does not precede it
                    assert(before[i].precedes(&item));
                    T::lemma_asym(&before[i], &item);
                } else if i == at {
                    // item does not come behind before[at]; the rest is
                    // in order behind that
                    let first = before[at as int];
                    assert(after[j] == before[j - 1]);
                    if j - 1 > at {
                        T::lemma_order(&item, &first, &before[j - 1]);
                    }
                } else {
                    let bi = if i < at {
                        i
                    } else {
                        i - 1
                    };
                    let bj = if j < at {
                        j
                    } else {
                        j - 1
                    };
                    assert(after[i] == before[bi]);
                    assert(after[j] == before[bj]);
                }
            }
            assert forall|k: int, l: int|
                #![trigger after[k], after[l]]
                0 <= k < l < after.len() && !after[k].precedes(&after[l]) implies from[k]
                < from[l] by {
                if k == at {
                    let bl = l - 1;
                    assert(from[l] == before_from[bl]);
                } else if l == at {
                    assert(before[k].precedes(&item));
                } else {
                    let bk = if k < at {
                        k
                    } else {
                        k - 1
                    };
                    let bl = if l < at {
                        l
                    } else {
                        l - 1
                    };
                    assert(after[k] == before[bk]);
                    assert(after[l] == before[bl]);
                    assert(from[k] == before_from[bk]);
                    assert(from[l] == before_from[bl]);
                }
            }
            assert forall|k: int| 0 <= k < from.len() implies sorted@[k] == all[#[trigger] from[k]] by {
                if k < at {
                    assert(from[k] == before_from[k]);
                } else if k > at {
                    assert(from[k] == before_from[k - 1]);
                }
            }
            assert forall|k: int, l: int| 0 <= k < l < from.len() implies #[trigger] from[k]
                != #[trigger] from[l] by {
                let bk = if k < at {
                    k
                } else {
                    k - 1
                };
                let bl = if l < at {
                    l
                } else {
                    l - 1
                };
                if k != at && l != at {
                    assert(from[k] == before_from[bk]);
                    assert(from[l] == before_from[bl]);
                } else if k == at {
                    assert(from[l] == before_from[bl]);
                } else {
                    assert(from[k] == before_from[bk]);
                }
            }
            assert forall|k: int| 0 <= k < from.len() implies rest@.len() <= #[trigger] from[k]
                < all.len() by {
                if k < at {
                    assert(from[k] == before_from[k]);
                } else if k > at {
                    assert(from[k] == before_from[k - 1]);
                }
            }
        }
    }
    proof {
        assert(rearranges(all, sorted@, from));
    }
    sorted
}

} // verus!
