//! One side of a limit-order book: a map from price to the quantity resting
//! there.
//!
//! The model of a side is the sequence of its levels, strictly ascending by
//! price, every quantity positive. Such a sequence is determined by the
//! quantity it holds at each price (`qty_at`), so updates are stated both ways.

use std::collections::BTreeMap;
use vstd::prelude::*;
use vstd::std_specs::btree::*;
use vstd::std_specs::cmp::OrdSpec;
use vstd::std_specs::iter::IteratorSpec;

verus! {

/// A price and the quantity resting at it, both in fixed-point units.
#[derive(Debug, Clone, Copy, PartialEq, Eq, Structural)]
pub struct Level {
    pub price: i64,
    pub qty: i64,
}

/// Prices strictly increase along the sequence.
pub open spec fn ascending(s: Seq<Level>) -> bool {
    forall|i: int, j: int| 0 <= i < j < s.len() ==> s[i].price < s[j].price
}

/// What a side may hold: ascending prices, positive quantities.
pub open spec fn side_wf(s: Seq<Level>) -> bool {
    &&& ascending(s)
    &&& forall|i: int| 0 <= i < s.len() ==> s[i].qty > 0
}

/// The quantity resting at `price`; zero where the side has no such level.
pub open spec fn qty_at(s: Seq<Level>, price: int) -> int
    decreases s.len(),
{
    if s.len() == 0 {
        0
    } else if s.last().price == price {
        s.last().qty as int
    } else {
        qty_at(s.drop_last(), price)
    }
}

/// How many levels are priced below `price`.
pub open spec fn rank(s: Seq<Level>, price: int) -> int
    decreases s.len(),
{
    if s.len() == 0 {
        0
    } else {
        rank(s.drop_last(), price) + if s.last().price < price {
            1int
        } else {
            0int
        }
    }
}

/// The side after one update: a positive quantity replaces whatever rests at
/// the price, any other quantity removes the level.
pub open spec fn with_level(s: Seq<Level>, l: Level) -> Seq<Level> {
    let i = rank(s, l.price as int);
    let j = if i < s.len() && s[i].price == l.price {
        i + 1
    } else {
        i
    };
    if l.qty > 0 {
        s.subrange(0, i).push(l) + s.subrange(j, s.len() as int)
    } else {
        s.subrange(0, i) + s.subrange(j, s.len() as int)
    }
}

/// The side after a list of updates, applied in order.
pub open spec fn with_levels(s: Seq<Level>, updates: Seq<Level>) -> Seq<Level>
    decreases updates.len(),
{
    if updates.len() == 0 {
        s
    } else {
        with_level(with_levels(s, updates.drop_last()), updates.last())
    }
}

/// Sum of the quantities of a sequence of levels.
pub open spec fn sum_qty(s: Seq<Level>) -> int
    decreases s.len(),
{
    if s.len() == 0 {
        0
    } else {
        sum_qty(s.drop_last()) + s.last().qty
    }
}

/// `min(n, len)`.
pub open spec fn depth(n: int, len: int) -> int {
    if n < len {
        n
    } else {
        len
    }
}

/// Total quantity of the `n` lowest-priced levels (of all, if there are fewer).
pub open spec fn lowest_sum(s: Seq<Level>, n: int) -> int {
    sum_qty(s.subrange(0, depth(n, s.len() as int)))
}

/// Total quantity of the `n` highest-priced levels (of all, if there are fewer).
pub open spec fn highest_sum(s: Seq<Level>, n: int) -> int {
    sum_qty(s.subrange(s.len() - depth(n, s.len() as int), s.len() as int))
}

/// In an ascending sequence the index that splits prices below `price` from
/// the rest is the rank of `price`.
pub proof fn lemma_rank_is(s: Seq<Level>, price: int, i: int)
    requires
        ascending(s),
        0 <= i <= s.len(),
        forall|k: int| 0 <= k < i ==> s[k].price < price,
        forall|k: int| i <= k < s.len() ==> s[k].price >= price,
    ensures
        rank(s, price) == i,
    decreases s.len(),
{
    if s.len() > 0 {
        let t = s.drop_last();
        if i == s.len() {
            lemma_rank_is(t, price, i - 1);
        } else {
            lemma_rank_is(t, price, i);
        }
    }
}

/// The rank of a price in an ascending sequence splits the levels priced
/// below it from the rest.
pub proof fn lemma_rank_bounds(s: Seq<Level>, price: int)
    requires
        ascending(s),
    ensures
        0 <= rank(s, price) <= s.len(),
        forall|k: int| 0 <= k < rank(s, price) ==> s[k].price < price,
        forall|k: int| rank(s, price) <= k < s.len() ==> s[k].price >= price,
    decreases s.len(),
{
    if s.len() > 0 {
        let t = s.drop_last();
        lemma_rank_bounds(t, price);
        if s.last().price < price {
            assert forall|k: int| 0 <= k < s.len() implies s[k].price < price by {
                if k < s.len() - 1 {
                    assert(s[k].price < s[s.len() - 1].price);
                }
            }
            assert forall|k: int| 0 <= k < t.len() implies t[k].price < price by {
                assert(t[k] == s[k]);
            }
            lemma_rank_is(t, price, t.len() as int);
        } else {
            let r = rank(t, price);
            assert forall|k: int| 0 <= k < r implies s[k].price < price by {
                assert(t[k] == s[k]);
            }
            assert forall|k: int| r <= k < s.len() implies s[k].price >= price by {
                if k < t.len() {
                    assert(t[k] == s[k]);
                }
            }
        }
    }
}

/// A level of an ascending sequence is what rests at its price.
pub proof fn lemma_qty_at_index(s: Seq<Level>, i: int)
    requires
        ascending(s),
        0 <= i < s.len(),
    ensures
        qty_at(s, s[i].price as int) == s[i].qty,
    decreases s.len(),
{
    if i < s.len() - 1 {
        assert(s[i].price < s[s.len() - 1].price);
        lemma_qty_at_index(s.drop_last(), i);
    }
}

/// Nothing rests at a price that no level has.
pub proof fn lemma_qty_at_absent(s: Seq<Level>, price: int)
    requires
        forall|i: int| 0 <= i < s.len() ==> s[i].price != price,
    ensures
        qty_at(s, price) == 0,
    decreases s.len(),
{
    if s.len() > 0 {
        lemma_qty_at_absent(s.drop_last(), price);
    }
}

/// Where something rests, a level has that price.
pub proof fn lemma_qty_at_present(s: Seq<Level>, price: int) -> (i: int)
    requires
        qty_at(s, price) != 0,
    ensures
        0 <= i < s.len(),
        s[i].price == price,
        s[i].qty == qty_at(s, price),
    decreases s.len(),
{
    if s.last().price == price {
        s.len() - 1
    } else {
        lemma_qty_at_present(s.drop_last(), price)
    }
}

/// An update leaves a side well formed.
pub proof fn lemma_with_level_wf(s: Seq<Level>, l: Level)
    requires
        side_wf(s),
    ensures
        side_wf(with_level(s, l)),
{
    lemma_rank_bounds(s, l.price as int);
    let i = rank(s, l.price as int);
    let j = if i < s.len() && s[i].price == l.price {
        i + 1
    } else {
        i
    };
    let r = with_level(s, l);
    assert forall|k: int| j <= k < s.len() implies s[k].price > l.price by {
        if j == i + 1 && k > i {
            assert(s[i].price < s[k].price);
        }
    }
    if l.qty > 0 {
        assert forall|a: int, b: int| 0 <= a < b < r.len() implies r[a].price < r[b].price by {
            if b < i {
            } else if b == i {
            } else if a < i {
                assert(r[b] == s[b - (i + 1) + j]);
            } else if a == i {
                assert(r[b] == s[b - (i + 1) + j]);
            } else {
                assert(r[a] == s[a - (i + 1) + j]);
                assert(r[b] == s[b - (i + 1) + j]);
            }
        }
        assert forall|k: int| 0 <= k < r.len() implies r[k].qty > 0 by {
            if k > i {
                assert(r[k] == s[k - (i + 1) + j]);
            }
        }
    } else {
        assert forall|a: int, b: int| 0 <= a < b < r.len() implies r[a].price < r[b].price by {
            if b < i {
            } else if a < i {
                assert(r[b] == s[b - i + j]);
            } else {
                assert(r[a] == s[a - i + j]);
                assert(r[b] == s[b - i + j]);
            }
        }
        assert forall|k: int| 0 <= k < r.len() implies r[k].qty > 0 by {
            if k >= i {
                assert(r[k] == s[k - i + j]);
            }
        }
    }
}

/// How the levels of an updated side stand to the levels before: the levels
/// below the price stay where they are, the levels above it follow the new
/// level, or close the gap where there is none.
proof fn lemma_with_level_members(s: Seq<Level>, l: Level)
    requires
        side_wf(s),
    ensures
        ({
            let i = rank(s, l.price as int);
            let j = if i < s.len() && s[i].price == l.price {
                i + 1
            } else {
                i
            };
            let r = with_level(s, l);
            let shift = if l.qty > 0 {
                i + 1 - j
            } else {
                i - j
            };
            &&& 0 <= i <= j <= s.len()
            &&& r.len() == s.len() + shift
            &&& forall|k: int| 0 <= k < i ==> r[k] == s[k] && s[k].price < l.price
            &&& forall|k: int| j <= k < s.len() ==> r[k + shift] == s[k] && s[k].price > l.price
            &&& l.qty > 0 ==> r[i] == l
        }),
{
    lemma_rank_bounds(s, l.price as int);
    let i = rank(s, l.price as int);
    let j = if i < s.len() && s[i].price == l.price {
        i + 1
    } else {
        i
    };
    assert forall|k: int| j <= k < s.len() implies s[k].price > l.price by {
        if j == i + 1 && k > i {
            assert(s[i].price < s[k].price);
        }
    }
}

/// Every level of an updated side is the new level or a level from before
/// with another price.
proof fn lemma_with_level_origin(s: Seq<Level>, l: Level, k: int) -> (m: int)
    requires
        side_wf(s),
        0 <= k < with_level(s, l).len(),
    ensures
        (m == -1 && l.qty > 0 && with_level(s, l)[k] == l) || (0 <= m < s.len() && with_level(
            s,
            l,
        )[k] == s[m] && s[m].price != l.price),
{
    lemma_with_level_members(s, l);
    let i = rank(s, l.price as int);
    let j = if i < s.len() && s[i].price == l.price {
        i + 1
    } else {
        i
    };
    let shift = if l.qty > 0 {
        i + 1 - j
    } else {
        i - j
    };
    if k < i {
        k
    } else if l.qty > 0 && k == i {
        -1
    } else {
        let m = k - shift;
        assert(j <= m < s.len());
        m
    }
}

/// An update changes what rests at its own price and nothing else.
pub proof fn lemma_with_level_qty(s: Seq<Level>, l: Level, price: int)
    requires
        side_wf(s),
    ensures
        qty_at(with_level(s, l), price) == if price == l.price {
            if l.qty > 0 {
                l.qty as int
            } else {
                0
            }
        } else {
            qty_at(s, price)
        },
{
    lemma_with_level_wf(s, l);
    lemma_with_level_members(s, l);
    let r = with_level(s, l);
    let i = rank(s, l.price as int);
    if price == l.price && l.qty > 0 {
        lemma_qty_at_index(r, i);
    } else if qty_at(s, price) != 0 && price != l.price {
        let k = lemma_qty_at_present(s, price);
        let j = if i < s.len() && s[i].price == l.price {
            i + 1
        } else {
            i
        };
        let shift = if l.qty > 0 {
            i + 1 - j
        } else {
            i - j
        };
        if k < i {
            lemma_qty_at_index(r, k);
        } else {
            assert(k >= j);
            lemma_qty_at_index(r, k + shift);
        }
    } else {
        // nothing rests at `price` afterwards: no level of the result has it
        assert forall|k: int| 0 <= k < r.len() implies r[k].price != price by {
            let m = lemma_with_level_origin(s, l, k);
            if m >= 0 && s[m].price == price {
                lemma_qty_at_index(s, m);
            }
        }
        lemma_qty_at_absent(r, price);
    }
}

/// Two well-formed sides that hold the same quantity at every price are equal.
pub proof fn lemma_side_determined(a: Seq<Level>, b: Seq<Level>)
    requires
        side_wf(a),
        side_wf(b),
        forall|p: int| qty_at(a, p) == qty_at(b, p),
    ensures
        a == b,
    decreases a.len() + b.len(),
{
    if a.len() == 0 {
        if b.len() > 0 {
            lemma_qty_at_index(b, 0);
            lemma_qty_at_absent(a, b[0].price as int);
        }
        assert(a =~= b);
    } else if b.len() == 0 {
        lemma_qty_at_index(a, 0);
        lemma_qty_at_absent(b, a[0].price as int);
    } else {
        let la = a.last();
        let lb = b.last();
        lemma_qty_at_index(a, a.len() - 1);
        lemma_qty_at_index(b, b.len() - 1);
        let ka = lemma_qty_at_present(b, la.price as int);
        let kb = lemma_qty_at_present(a, lb.price as int);
        // the last level of each is the highest price of both
        if ka < b.len() - 1 {
            assert(b[ka].price < lb.price);
        }
        if kb < a.len() - 1 {
            assert(a[kb].price < la.price);
        }
        assert(la.price == lb.price);
        assert(la == lb);
        let a0 = a.drop_last();
        let b0 = b.drop_last();
        assert forall|p: int| qty_at(a0, p) == qty_at(b0, p) by {
            if p == la.price {
                assert forall|i: int| 0 <= i < a0.len() implies a0[i].price != p by {
                    assert(a[i].price < a[a.len() - 1].price);
                }
                assert forall|i: int| 0 <= i < b0.len() implies b0[i].price != p by {
                    assert(b[i].price < b[b.len() - 1].price);
                }
                lemma_qty_at_absent(a0, p);
                lemma_qty_at_absent(b0, p);
            } else {
                assert(qty_at(a, p) == qty_at(a0, p));
                assert(qty_at(b, p) == qty_at(b0, p));
            }
        }
        lemma_side_determined(a0, b0);
        assert(a =~= a0.push(la));
        assert(b =~= b0.push(lb));
    }
}

/// A list of updates leaves a side well formed.
pub proof fn lemma_with_levels_wf(s: Seq<Level>, updates: Seq<Level>)
    requires
        side_wf(s),
    ensures
        side_wf(with_levels(s, updates)),
    decreases updates.len(),
{
    if updates.len() > 0 {
        lemma_with_levels_wf(s, updates.drop_last());
        lemma_with_level_wf(with_levels(s, updates.drop_last()), updates.last());
    }
}

/// What a list of updates leaves at `price`, given what was there before: the
/// last update at that price decides.
pub open spec fn qty_after(before: int, updates: Seq<Level>, price: int) -> int
    decreases updates.len(),
{
    if updates.len() == 0 {
        before
    } else if updates.last().price == price {
        if updates.last().qty > 0 {
            updates.last().qty as int
        } else {
            0
        }
    } else {
        qty_after(before, updates.drop_last(), price)
    }
}

/// At each price, the last update at that price decides what rests there.
pub proof fn lemma_with_levels_qty(s: Seq<Level>, updates: Seq<Level>, price: int)
    requires
        side_wf(s),
    ensures
        qty_at(with_levels(s, updates), price) == qty_after(qty_at(s, price), updates, price),
    decreases updates.len(),
{
    if updates.len() > 0 {
        lemma_with_levels_wf(s, updates.drop_last());
        lemma_with_levels_qty(s, updates.drop_last(), price);
        lemma_with_level_qty(with_levels(s, updates.drop_last()), updates.last(), price);
    }
}

proof fn lemma_qty_after_inner(x: int, before: int, updates: Seq<Level>, price: int)
    requires
        x == qty_after(before, updates, price),
    ensures
        qty_after(x, updates, price) == x,
    decreases updates.len(),
{
    if updates.len() > 0 && updates.last().price != price {
        lemma_qty_after_inner(x, before, updates.drop_last(), price);
    }
}

/// Applying the same list of updates a second time changes nothing.
pub proof fn lemma_with_levels_idempotent(s: Seq<Level>, updates: Seq<Level>)
    requires
        side_wf(s),
    ensures
        with_levels(with_levels(s, updates), updates) == with_levels(s, updates),
{
    let once = with_levels(s, updates);
    lemma_with_levels_wf(s, updates);
    let twice = with_levels(once, updates);
    lemma_with_levels_wf(once, updates);
    assert forall|p: int| qty_at(twice, p) == qty_at(once, p) by {
        lemma_with_levels_qty(s, updates, p);
        lemma_with_levels_qty(once, updates, p);
        lemma_qty_after_inner(qty_at(once, p), qty_at(s, p), updates, p);
    }
    lemma_side_determined(twice, once);
}

/// The quantity that a map from price to quantity holds at a price; zero
/// where it has no such price.
pub open spec fn held(m: Map<i64, i64>, price: int) -> int {
    if i64::MIN <= price <= i64::MAX && m.contains_key(price as i64) {
        m[price as i64] as int
    } else {
        0
    }
}

/// A sequence of levels lists a map: it is a side, and holds at every price
/// what the map holds there.
pub open spec fn lists(s: Seq<Level>, m: Map<i64, i64>) -> bool {
    &&& side_wf(s)
    &&& forall|p: int| #[trigger] qty_at(s, p) == held(m, p)
}

/// Every quantity in the map is positive.
pub open spec fn all_positive(m: Map<i64, i64>) -> bool {
    forall|k: i64| m.contains_key(k) ==> #[trigger] m[k] > 0
}

/// The entries that a walk over a map gives, as levels.
pub open spec fn levels_of(entries: Seq<(&i64, &i64)>) -> Seq<Level> {
    Seq::new(entries.len(), |i: int| Level { price: *entries[i].0, qty: *entries[i].1 })
}

/// The keys that a walk over a map gives.
pub open spec fn keys_of(entries: Seq<(&i64, &i64)>) -> Seq<i64> {
    entries.map_values(|kv: (&i64, &i64)| *kv.0)
}

/// Integer prices are ordered as a map needs its keys to be.
pub proof fn lemma_prices_ordered()
    ensures
        vstd::laws_cmp::obeys_cmp::<i64>(),
        key_obeys_cmp_spec::<i64>(),
{
    broadcast use group_btree_axioms;
    broadcast use vstd::laws_cmp::group_laws_cmp;

}

/// Keys that come in increasing order are strictly ascending integers.
pub proof fn lemma_increasing_keys(keys: Seq<i64>)
    requires
        increasing_seq(keys),
    ensures
        forall|i: int, j: int| 0 <= i < j < keys.len() ==> keys[i] < keys[j],
{
    broadcast use group_btree_axioms;
    broadcast use vstd::laws_cmp::group_laws_cmp;

    assert forall|i: int, j: int| 0 <= i < j < keys.len() implies keys[i] < keys[j] by {
        assert(keys[i].cmp_spec(&keys[j]) is Less);
    }
}

/// A walk over a map of positive quantities gives the side that lists it.
pub proof fn lemma_walk(m: &BTreeMap<i64, i64>, s: Seq<Level>)
    requires
        increasing_seq(keys_of(m.iter().remaining())),
        all_positive(m@),
        lists(s, m@),
    ensures
        s == levels_of(m.iter().remaining()),
        s.len() == m@.len(),
{
    broadcast use group_btree_axioms;

    let all = m.iter().remaining();
    let walked = levels_of(all);
    lemma_increasing_keys(keys_of(all));
    assert forall|i: int, j: int| 0 <= i < j < walked.len() implies walked[i].price
        < walked[j].price by {
        assert(keys_of(all)[i] == walked[i].price);
        assert(keys_of(all)[j] == walked[j].price);
    }
    assert forall|i: int| 0 <= i < walked.len() implies m@.contains_key(
        #[trigger] walked[i].price,
    ) && m@[walked[i].price] == walked[i].qty && walked[i].qty > 0 by {
        assert(m@.contains_key(*all[i].0) && m@[*all[i].0] == *all[i].1);
        assert(m@[*all[i].0] > 0);
    }
    assert forall|i: int| 0 <= i < walked.len() implies (#[trigger] walked[i]).qty > 0 by {
        assert(m@.contains_key(walked[i].price));
    }
    assert(side_wf(walked));
    assert forall|p: int| #[trigger] qty_at(walked, p) == held(m@, p) by {
        if i64::MIN <= p <= i64::MAX && m@.contains_key(p as i64) {
            let k = p as i64;
            assert(all.contains((&k, &m@[k])));
            let i = choose|i: int| 0 <= i < all.len() && all[i] == (&k, &m@[k]);
            assert(walked[i] == Level { price: k, qty: m@[k] });
            lemma_qty_at_index(walked, i);
        } else {
            lemma_qty_at_absent(walked, p);
        }
    }
    lemma_side_determined(walked, s);
}

/// The entry of a map with the greatest price is the last level of the side
/// that lists it.
pub proof fn lemma_greatest_is_last(m: Map<i64, i64>, s: Seq<Level>, k: i64)
    requires
        all_positive(m),
        lists(s, m),
        m.contains_key(k),
        forall|j: i64| m.contains_key(j) ==> j <= k,
    ensures
        s.len() > 0,
        s.last() == (Level { price: k, qty: m[k] }),
{
    assert(qty_at(s, k as int) == held(m, k as int));
    let i = lemma_qty_at_present(s, k as int);
    let top = s.last();
    lemma_qty_at_index(s, s.len() - 1);
    assert(qty_at(s, top.price as int) == held(m, top.price as int));
    assert(m.contains_key(top.price));
    if i < s.len() - 1 {
        assert(s[i].price < s[s.len() - 1].price);
    }
}

/// The entry of a map with the least price is the first level of the side
/// that lists it.
pub proof fn lemma_least_is_first(m: Map<i64, i64>, s: Seq<Level>, k: i64)
    requires
        all_positive(m),
        lists(s, m),
        m.contains_key(k),
        forall|j: i64| m.contains_key(j) ==> k <= j,
    ensures
        s.len() > 0,
        s.first() == (Level { price: k, qty: m[k] }),
{
    assert(qty_at(s, k as int) == held(m, k as int));
    let i = lemma_qty_at_present(s, k as int);
    let bottom = s.first();
    lemma_qty_at_index(s, 0);
    assert(qty_at(s, bottom.price as int) == held(m, bottom.price as int));
    assert(m.contains_key(bottom.price));
    if 0 < i {
        assert(s[0].price < s[i].price);
    }
}

/// A map without entries is listed by the side without levels only.
pub proof fn lemma_empty_listing(m: Map<i64, i64>, s: Seq<Level>)
    requires
        lists(s, m),
        forall|j: i64| !m.contains_key(j),
    ensures
        s.len() == 0,
{
    if s.len() > 0 {
        lemma_qty_at_index(s, 0);
        assert(qty_at(s, s[0].price as int) == held(m, s[0].price as int));
    }
}

/// A side has as many levels as the map that it lists has entries.
pub proof fn lemma_listing_len(s: Seq<Level>, m: Map<i64, i64>)
    requires
        lists(s, m),
        all_positive(m),
        m.dom().finite(),
    ensures
        s.len() == m.len(),
    decreases s.len(),
{
    if s.len() == 0 {
        assert forall|k: i64| !m.contains_key(k) by {
            if m.contains_key(k) {
                assert(qty_at(s, k as int) == held(m, k as int));
                assert(m[k] > 0);
            }
        }
        assert(m.dom() =~= Set::<i64>::empty());
    } else {
        let top = s.last();
        let rest = s.drop_last();
        lemma_qty_at_index(s, s.len() - 1);
        assert(qty_at(s, top.price as int) == held(m, top.price as int));
        assert(m.contains_key(top.price));
        let less = m.remove(top.price);
        assert forall|p: int| #[trigger] qty_at(rest, p) == held(less, p) by {
            if p == top.price {
                assert forall|i: int| 0 <= i < rest.len() implies rest[i].price != p by {
                    assert(s[i].price < s[s.len() - 1].price);
                }
                lemma_qty_at_absent(rest, p);
            } else {
                assert(qty_at(s, p) == qty_at(rest, p));
                assert(qty_at(s, p) == held(m, p));
            }
        }
        assert forall|i: int, j: int| 0 <= i < j < rest.len() implies rest[i].price
            < rest[j].price by {
            assert(s[i].price < s[j].price);
        }
        assert forall|i: int| 0 <= i < rest.len() implies (#[trigger] rest[i]).qty > 0 by {
            assert(s[i].qty > 0);
        }
        lemma_listing_len(rest, less);
        assert(less.dom() =~= m.dom().remove(top.price));
    }
}

/// `BTreeMap::first_key_value`: the entry with the least key, or None where
/// the map has no entry.
#[verifier::external_body]
fn first_entry(m: &BTreeMap<i64, i64>) -> (e: Option<(i64, i64)>)
    ensures
        e is None ==> forall|j: i64| !m@.contains_key(j),
        e matches Some((k, v)) ==> m@.contains_key(k) && m@[k] == v && forall|j: i64|
            m@.contains_key(j) ==> k <= j,
{
    match m.first_key_value() {
        Some((k, v)) => Some((*k, *v)),
        None => None,
    }
}

/// `BTreeMap::last_key_value`: the entry with the greatest key, or None where
/// the map has no entry.
#[verifier::external_body]
fn last_entry(m: &BTreeMap<i64, i64>) -> (e: Option<(i64, i64)>)
    ensures
        e is None ==> forall|j: i64| !m@.contains_key(j),
        e matches Some((k, v)) ==> m@.contains_key(k) && m@[k] == v && forall|j: i64|
            m@.contains_key(j) ==> j <= k,
{
    match m.last_key_value() {
        Some((k, v)) => Some((*k, *v)),
        None => None,
    }
}

/// One side of a book.
pub struct BookSide {
    levels: BTreeMap<i64, i64>,
}

impl View for BookSide {
    type V = Seq<Level>;

    /// The side that lists the map: its levels in ascending price order.
    closed spec fn view(&self) -> Seq<Level> {
        choose|s: Seq<Level>| lists(s, self.levels@)
    }
}

impl BookSide {
    /// The map holds positive quantities only, and a side lists it.
    #[verifier::type_invariant]
    spec fn listed(&self) -> bool {
        &&& all_positive(self.levels@)
        &&& exists|s: Seq<Level>| lists(s, self.levels@)
    }

    /// Ascending prices, positive quantities.
    pub open spec fn wf(&self) -> bool {
        side_wf(self@)
    }

    /// A side without levels.
    pub fn new() -> (side: Self)
        ensures
            side@ == Seq::<Level>::empty(),
            side.wf(),
    {
        let levels: BTreeMap<i64, i64> = BTreeMap::new();
        proof {
            assert(lists(Seq::<Level>::empty(), levels@));
        }
        let side = BookSide { levels };
        proof {
            lemma_side_determined(side@, Seq::<Level>::empty());
        }
        side
    }

    /// Number of levels.
    pub fn len(&self) -> (n: usize)
        ensures
            n == self@.len(),
    {
        proof {
            use_type_invariant(self);
            broadcast use group_btree_axioms;

            lemma_prices_ordered();
            lemma_listing_len(self@, self.levels@);
        }
        self.levels.len()
    }

    /// Applies one update: a positive quantity replaces whatever rests at the
    /// price, any other quantity removes the level.
    pub fn set_level(&mut self, level: Level)
        ensures
            final(self)@ == with_level(old(self)@, level),
            final(self).wf(),
            forall|p: int|
                #[trigger] qty_at(final(self)@, p) == if p == level.price {
                    if level.qty > 0 {
                        level.qty as int
                    } else {
                        0
                    }
                } else {
                    qty_at(old(self)@, p)
                },
    {
        let ghost before = self@;
        let ghost after = with_level(before, level);
        proof {
            use_type_invariant(&*self);
            broadcast use group_btree_axioms;

            lemma_prices_ordered();
            lemma_with_level_wf(before, level);
            assert forall|p: int|
                #[trigger] qty_at(after, p) == if p == level.price {
                    if level.qty > 0 {
                        level.qty as int
                    } else {
                        0
                    }
                } else {
                    qty_at(before, p)
                } by {
                lemma_with_level_qty(before, level, p);
            }
            assert(lists(Seq::<Level>::empty(), Map::<i64, i64>::empty()));
        }
        let mut levels: BTreeMap<i64, i64> = BTreeMap::new();
        std::mem::swap(&mut levels, &mut self.levels);
        let ghost held_before = levels@;
        if level.qty > 0 {
            levels.insert(level.price, level.qty);
        } else {
            levels.remove(&level.price);
        }
        proof {
            assert(lists(after, levels@));
            assert forall|k: i64| levels@.contains_key(k) implies #[trigger] levels@[k] > 0 by {
                if k != level.price {
                    assert(held_before.contains_key(k) && held_before[k] == levels@[k]);
                }
            }
        }
        self.levels = levels;
        proof {
            lemma_side_determined(self@, after);
        }
    }

    /// The lowest-priced level.
    pub fn lowest(&self) -> (l: Option<Level>)
        ensures
            self@.len() == 0 ==> l is None,
            self@.len() > 0 ==> l == Some(self@.first()),
    {
        proof {
            use_type_invariant(self);
        }
        match first_entry(&self.levels) {
            Some((price, qty)) => {
                proof {
                    lemma_least_is_first(self.levels@, self@, price);
                }
                Some(Level { price, qty })
            },
            None => {
                proof {
                    lemma_empty_listing(self.levels@, self@);
                }
                None
            },
        }
    }

    /// The highest-priced level.
    pub fn highest(&self) -> (l: Option<Level>)
        ensures
            self@.len() == 0 ==> l is None,
            self@.len() > 0 ==> l == Some(self@.last()),
    {
        proof {
            use_type_invariant(self);
            lemma_prices_ordered();
        }
        match last_entry(&self.levels) {
            Some((price, qty)) => {
                proof {
                    lemma_greatest_is_last(self.levels@, self@, price);
                }
                Some(Level { price, qty })
            },
            None => {
                proof {
                    lemma_empty_listing(self.levels@, self@);
                }
                None
            },
        }
    }

    /// Total quantity of the `n` lowest-priced levels.
    pub fn sum_lowest(&self, n: usize) -> (total: i128)
        ensures
            total == lowest_sum(self@, n as int),
            total >= 0,
    {
        proof {
            use_type_invariant(self);
            lemma_prices_ordered();
        }
        let ghost all = self.levels.iter().remaining();
        let mut total: i128 = 0;
        let mut i: usize = 0;
        for entry in walk: self.levels.iter()
            invariant_except_break
                i == walk.index(),
            invariant
                walk.seq() == all,
                all == self.levels.iter().remaining(),
                increasing_seq(keys_of(all)),
                lists(self@, self.levels@),
                all_positive(self.levels@),
                i <= n,
                i <= self@.len(),
                total == sum_qty(self@.subrange(0, i as int)),
                0 <= total <= i * 0x7fff_ffff_ffff_ffff,
            ensures
                i == n || i == all.len(),
        {
            if i >= n {
                break;
            }
            proof {
                lemma_walk(&self.levels, self@);
                let next = self@.subrange(0, i + 1);
                assert(next.drop_last() =~= self@.subrange(0, i as int));
                assert(next.last() == self@[i as int]);
            }
            total = total + *entry.1 as i128;
            i = i + 1;
        }
        proof {
            lemma_walk(&self.levels, self@);
        }
        total
    }

    /// Total quantity of the `n` highest-priced levels.
    pub fn sum_highest(&self, n: usize) -> (total: i128)
        ensures
            total == highest_sum(self@, n as int),
            total >= 0,
    {
        proof {
            use_type_invariant(self);
            broadcast use group_btree_axioms;

            lemma_prices_ordered();
        }
        let len = self.levels.len();
        let k = if n < len {
            n
        } else {
            len
        };
        let start = len - k;
        let ghost all = self.levels.iter().remaining();
        let mut total: i128 = 0;
        let mut i: usize = 0;
        // the walk starts at the lowest price: what lies below the top is
        // passed over
        for entry in walk: self.levels.iter()
            invariant
                walk.seq() == all,
                all == self.levels.iter().remaining(),
                increasing_seq(keys_of(all)),
                lists(self@, self.levels@),
                all_positive(self.levels@),
                len == all.len(),
                start <= len,
                i == walk.index(),
                i <= start ==> total == 0,
                i > start ==> total == sum_qty(self@.subrange(start as int, i as int)),
                0 <= total <= i * 0x7fff_ffff_ffff_ffff,
        {
            proof {
                lemma_walk(&self.levels, self@);
            }
            if i >= start {
                proof {
                    let next = self@.subrange(start as int, i + 1);
                    assert(next.drop_last() =~= self@.subrange(start as int, i as int));
                    assert(next.last() == self@[i as int]);
                    if i == start {
                        assert(sum_qty(self@.subrange(start as int, i as int)) == 0);
                    }
                }
                total = total + *entry.1 as i128;
            }
            i = i + 1;
        }
        proof {
            lemma_walk(&self.levels, self@);
            if start == len {
                assert(sum_qty(self@.subrange(start as int, len as int)) == 0);
            }
        }
        total
    }

    /// A copy of the levels, in ascending price order.
    pub fn to_vec(&self) -> (v: Vec<Level>)
        ensures
            v@ == self@,
    {
        proof {
            use_type_invariant(self);
            lemma_prices_ordered();
        }
        let ghost all = self.levels.iter().remaining();
        let mut v: Vec<Level> = Vec::new();
        for entry in walk: self.levels.iter()
            invariant
                walk.seq() == all,
                all == self.levels.iter().remaining(),
                increasing_seq(keys_of(all)),
                v@.len() == walk.index(),
                forall|i: int| 0 <= i < v@.len() ==> #[trigger] v@[i] == levels_of(all)[i],
        {
            v.push(Level { price: *entry.0, qty: *entry.1 });
        }
        proof {
            lemma_walk(&self.levels, self@);
            assert(v@ =~= self@);
        }
        v
    }
}

} // verus!
