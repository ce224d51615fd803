//! Stable ranking of price levels: asks from the lowest price up, bids from
//! the highest price down, equal prices in the order in which they came.
//!
//! Prices are compared as the IEEE-754 total order compares them, so every
//! bit pattern has its place, the patterns that are no numbers included.

use crate::common::orderbook::order_key;
use crate::common::orderbook::precedes_or_ties;
use crate::common::orderbook::Level;
use vstd::prelude::*;

verus! {

/// A side of the book, which decides the direction of its ranking.
#[derive(Debug, Clone, Copy, PartialEq, Eq)]
pub enum Side {
    /// Offers to sell: the lowest price ranks first.
    Ask,
    /// Offers to buy: the highest price ranks first.
    Bid,
}

/// The number by which a price is ranked on a side: smaller ranks first.
pub open spec fn rank_key(side: Side, price: u64) -> int {
    match side {
        Side::Ask => order_key(price),
        Side::Bid => -order_key(price),
    }
}

/// The levels quoted at exactly this price.
pub open spec fn priced(price: u64) -> spec_fn(Level) -> bool {
    |level: Level| level.price == price
}

/// Whether no level ranks strictly before one that stands earlier.
pub open spec fn is_ranked(levels: Seq<Level>, side: Side) -> bool {
    forall|i: int, j: int|
        0 <= i <= j < levels.len() ==> rank_key(side, #[trigger] levels[i].price) <= rank_key(
            side,
            #[trigger] levels[j].price,
        )
}

/// Where a level of this price enters `ranked`: directly behind the last
/// level that does not rank after it, or in front if there is none.
pub open spec fn slot(ranked: Seq<Level>, side: Side, price: u64) -> int
    decreases ranked.len(),
{
    if ranked.len() == 0 {
        0
    } else if rank_key(side, ranked.last().price) <= rank_key(side, price) {
        ranked.len() as int
    } else {
        slot(ranked.drop_last(), side, price)
    }
}

/// The stable ranking of `levels`, built by letting each level in turn
/// enter, at its slot, the ranking of those before it. It is the one
/// sequence that is ranked and holds the levels of each price as `levels`
/// holds them: see [`lemma_ranking_is_stable`] and
/// [`lemma_stable_ranking_is_unique`].
pub open spec fn ranking(levels: Seq<Level>, side: Side) -> Seq<Level>
    decreases levels.len(),
{
    if levels.len() == 0 {
        Seq::empty()
    } else {
        let earlier = ranking(levels.drop_last(), side);
        earlier.insert(slot(earlier, side, levels.last().price), levels.last())
    }
}

/// A slot lies within the sequence, everything from it on ranks strictly
/// after the price, and what stands directly before it does not.
pub proof fn lemma_slot(ranked: Seq<Level>, side: Side, price: u64)
    ensures
        0 <= slot(ranked, side, price) <= ranked.len(),
        forall|i: int|
            slot(ranked, side, price) <= i < ranked.len() ==> rank_key(side, price) < rank_key(
                side,
                #[trigger] ranked[i].price,
            ),
        slot(ranked, side, price) > 0 ==> rank_key(
            side,
            ranked[slot(ranked, side, price) - 1].price,
        ) <= rank_key(side, price),
    decreases ranked.len(),
{
    if ranked.len() > 0 && rank_key(side, ranked.last().price) > rank_key(side, price) {
        let shorter = ranked.drop_last();
        lemma_slot(shorter, side, price);
        assert forall|i: int| slot(ranked, side, price) <= i < ranked.len() implies rank_key(
            side,
            price,
        ) < rank_key(side, #[trigger] ranked[i].price) by {
            if i < shorter.len() {
                assert(ranked[i] == shorter[i]);
            }
        }
    }
}

/// A ranking has as many levels as were ranked.
pub proof fn lemma_ranking_len(levels: Seq<Level>, side: Side)
    ensures
        ranking(levels, side).len() == levels.len(),
    decreases levels.len(),
{
    if levels.len() > 0 {
        let earlier = ranking(levels.drop_last(), side);
        lemma_ranking_len(levels.drop_last(), side);
        lemma_slot(earlier, side, levels.last().price);
    }
}

/// A ranking is ranked: prices never improve from one position to the next.
pub proof fn lemma_ranking_is_ranked(levels: Seq<Level>, side: Side)
    ensures
        is_ranked(ranking(levels, side), side),
    decreases levels.len(),
{
    if levels.len() > 0 {
        let earlier = ranking(levels.drop_last(), side);
        let entrant = levels.last();
        let at = slot(earlier, side, entrant.price);
        lemma_ranking_is_ranked(levels.drop_last(), side);
        lemma_slot(earlier, side, entrant.price);
        let later = earlier.insert(at, entrant);
        assert forall|i: int, j: int| 0 <= i <= j < later.len() implies rank_key(
            side,
            #[trigger] later[i].price,
        ) <= rank_key(side, #[trigger] later[j].price) by {
            if i < at {
                assert(later[i] == earlier[i]);
                assert(rank_key(side, earlier[i].price) <= rank_key(side, earlier[at - 1].price));
            } else if i > at {
                assert(later[i] == earlier[i - 1]);
            }
            if j < at {
                assert(later[j] == earlier[j]);
            } else if j > at {
                assert(later[j] == earlier[j - 1]);
            }
        }
    }
}

/// Ranking is stable and loses nothing: the levels of any one price stand in
/// the ranking exactly as they stood before it, in number and in order.
pub proof fn lemma_ranking_keeps_order(levels: Seq<Level>, side: Side, price: u64)
    ensures
        ranking(levels, side).filter(priced(price)) == levels.filter(priced(price)),
    decreases levels.len(),
{
    reveal(Seq::filter);
    if levels.len() > 0 {
        let earlier = ranking(levels.drop_last(), side);
        let entrant = levels.last();
        let at = slot(earlier, side, entrant.price);
        lemma_ranking_keeps_order(levels.drop_last(), side, price);
        lemma_slot(earlier, side, entrant.price);
        let front = earlier.subrange(0, at);
        let back = earlier.subrange(at, earlier.len() as int);
        assert(earlier == front + back);
        Seq::filter_distributes_over_add(front, back, priced(price));
        Seq::filter_distributes_over_add(front.push(entrant), back, priced(price));
        front.lemma_filter_push(entrant, priced(price));
        if entrant.price == price {
            let kept = back.filter(priced(price));
            if kept.len() > 0 {
                back.lemma_filter_pred(priced(price), 0);
                assert(kept.contains(kept[0]));
                back.lemma_filter_contains_rev(priced(price), kept[0]);
                let i = choose|i: int| 0 <= i < back.len() && back[i] == kept[0];
                assert(back[i] == earlier[at + i]);
            }
            assert(kept == Seq::<Level>::empty());
        }
    }
}

/// Whether `out` is a stable ranking of `levels`: it is ranked, and the
/// levels of any one price stand in it exactly as they stand in `levels`.
pub open spec fn is_stable_ranking(out: Seq<Level>, levels: Seq<Level>, side: Side) -> bool {
    &&& is_ranked(out, side)
    &&& forall|price: u64| #[trigger]
        out.filter(priced(price)) == levels.filter(priced(price))
}

/// The ranking of `levels` is a stable ranking of them.
pub proof fn lemma_ranking_is_stable(levels: Seq<Level>, side: Side)
    ensures
        is_stable_ranking(ranking(levels, side), levels, side),
{
    lemma_ranking_is_ranked(levels, side);
    assert forall|price: u64| #[trigger]
        ranking(levels, side).filter(priced(price)) == levels.filter(priced(price)) by {
        lemma_ranking_keeps_order(levels, side, price);
    }
}

/// The index of the last level of this price, or -1 where there is none.
spec fn last_priced(levels: Seq<Level>, price: u64) -> int
    decreases levels.len(),
{
    if levels.len() == 0 {
        -1
    } else if levels.last().price == price {
        levels.len() - 1
    } else {
        last_priced(levels.drop_last(), price)
    }
}

/// Where levels of a price exist, the last of them is the last of those
/// that a filter by the price keeps, no level after it has the price, and
/// without it the filter by the price keeps one less, the filter by any
/// other price the same.
proof fn lemma_last_priced(levels: Seq<Level>, price: u64)
    requires
        levels.filter(priced(price)).len() > 0,
    ensures
        0 <= last_priced(levels, price) < levels.len(),
        levels[last_priced(levels, price)] == levels.filter(priced(price)).last(),
        levels[last_priced(levels, price)].price == price,
        forall|i: int|
            last_priced(levels, price) < i < levels.len() ==> (#[trigger] levels[i]).price
                != price,
        levels.remove(last_priced(levels, price)).filter(priced(price)) == levels.filter(
            priced(price),
        ).drop_last(),
        forall|other: u64|
            other != price ==> #[trigger] levels.remove(last_priced(levels, price)).filter(
                priced(other),
            ) == levels.filter(priced(other)),
    decreases levels.len(),
{
    reveal(Seq::filter);
    let at = last_priced(levels, price);
    let shorter = levels.drop_last();
    let last = levels.last();
    if last.price == price {
        assert(levels.remove(at) == shorter);
        assert forall|other: u64| other != price implies #[trigger] levels.remove(at).filter(
            priced(other),
        ) == levels.filter(priced(other)) by {}
    } else {
        lemma_last_priced(shorter, price);
        assert(levels.remove(at) == shorter.remove(at).push(last));
        shorter.remove(at).lemma_filter_push(last, priced(price));
        assert forall|i: int| at < i < levels.len() implies (#[trigger] levels[i]).price
            != price by {
            if i < shorter.len() {
                assert(levels[i] == shorter[i]);
            }
        }
        assert forall|other: u64| other != price implies #[trigger] levels.remove(at).filter(
            priced(other),
        ) == levels.filter(priced(other)) by {
            shorter.remove(at).lemma_filter_push(last, priced(other));
        }
    }
}

/// A position is the slot of a price if everything from it on ranks
/// strictly after the price and what stands directly before it does not.
proof fn lemma_slot_is_unique(ranked: Seq<Level>, side: Side, price: u64, at: int)
    requires
        0 <= at <= ranked.len(),
        forall|i: int|
            at <= i < ranked.len() ==> rank_key(side, price) < rank_key(
                side,
                #[trigger] ranked[i].price,
            ),
        at > 0 ==> rank_key(side, ranked[at - 1].price) <= rank_key(side, price),
    ensures
        slot(ranked, side, price) == at,
    decreases ranked.len(),
{
    if ranked.len() > 0 {
        if rank_key(side, ranked.last().price) <= rank_key(side, price) {
            if at < ranked.len() {
                assert(rank_key(side, price) < rank_key(side, ranked[ranked.len() - 1].price));
            }
        } else {
            let shorter = ranked.drop_last();
            assert forall|i: int| at <= i < shorter.len() implies rank_key(side, price)
                < rank_key(side, #[trigger] shorter[i].price) by {
                assert(shorter[i] == ranked[i]);
            }
            if at > 0 {
                assert(shorter[at - 1] == ranked[at - 1]);
            }
            lemma_slot_is_unique(shorter, side, price, at);
        }
    }
}

/// There is one stable ranking: a sequence that is ranked and holds the
/// levels of each price as `levels` holds them is the ranking of `levels`.
pub proof fn lemma_stable_ranking_is_unique(out: Seq<Level>, levels: Seq<Level>, side: Side)
    requires
        is_stable_ranking(out, levels, side),
    ensures
        out == ranking(levels, side),
    decreases levels.len(),
{
    reveal(Seq::filter);
    if levels.len() == 0 {
        if out.len() > 0 {
            let price = out[0].price;
            out.lemma_filter_contains(priced(price), 0);
            assert(levels.filter(priced(price)).len() == 0);
            assert(out.filter(priced(price)).contains(out[0]));
        }
        assert(out == Seq::<Level>::empty());
    } else {
        let earlier = levels.drop_last();
        let entrant = levels.last();
        let price = entrant.price;
        assert(levels == earlier.push(entrant));
        earlier.lemma_filter_push(entrant, priced(price));
        assert(out.filter(priced(price)) == levels.filter(priced(price)));
        lemma_last_priced(out, price);
        let at = last_priced(out, price);
        let rest = out.remove(at);
        assert(out[at] == entrant);
        assert(is_ranked(rest, side)) by {
            assert forall|i: int, j: int| 0 <= i <= j < rest.len() implies rank_key(
                side,
                #[trigger] rest[i].price,
            ) <= rank_key(side, #[trigger] rest[j].price) by {
                let i0 = if i < at { i } else { i + 1 };
                let j0 = if j < at { j } else { j + 1 };
                assert(rest[i] == out[i0]);
                assert(rest[j] == out[j0]);
            }
        }
        assert forall|other: u64| #[trigger]
            rest.filter(priced(other)) == earlier.filter(priced(other)) by {
            assert(out.filter(priced(other)) == levels.filter(priced(other)));
            if other != price {
                earlier.lemma_filter_push(entrant, priced(other));
            } else {
                assert(earlier.filter(priced(price)).push(entrant).drop_last()
                    == earlier.filter(priced(price)));
            }
        }
        lemma_stable_ranking_is_unique(rest, earlier, side);
        assert forall|i: int| at <= i < rest.len() implies rank_key(side, price) < rank_key(
            side,
            #[trigger] rest[i].price,
        ) by {
            assert(rest[i] == out[i + 1]);
            assert(rank_key(side, out[at].price) <= rank_key(side, out[i + 1].price));
            assert(out[i + 1].price != price);
        }
        if at > 0 {
            assert(rest[at - 1] == out[at - 1]);
            assert(rank_key(side, out[at - 1].price) <= rank_key(side, out[at].price));
        }
        lemma_slot_is_unique(rest, side, price, at);
        assert(out == rest.insert(at, entrant));
    }
}

/// True when a level priced `left` does not rank after one priced `right`.
pub fn ranks_before_or_ties(side: Side, left: u64, right: u64) -> (r: bool)
    ensures
        r == (rank_key(side, left) <= rank_key(side, right)),
{
    match side {
        Side::Ask => precedes_or_ties(left, right),
        Side::Bid => precedes_or_ties(right, left),
    }
}

/// Ranks the levels of one side, keeping levels of equal price in the order
/// in which they were given.
pub fn rank(levels: Vec<Level>, side: Side) -> (ranked: Vec<Level>)
    ensures
        ranked@ == ranking(levels@, side),
{
    let ghost given = levels@;
    let mut ranked: Vec<Level> = Vec::new();
    for level in it: levels
        invariant
            it.seq() == given,
            ranked@ == ranking(given.take(it.index() as int), side),
    {
        let ghost done = given.take(it.index() as int);
        let mut at: usize = ranked.len();
        proof {
            assert(ranked@.take(at as int) == ranked@);
        }
        while at > 0 && !ranks_before_or_ties(side, ranked[at - 1].price, level.price)
            invariant
                at <= ranked@.len(),
                slot(ranked@, side, level.price) == slot(
                    ranked@.take(at as int),
                    side,
                    level.price,
                ),
            decreases at,
        {
            proof {
                assert(ranked@.take(at as int).drop_last() == ranked@.take(at - 1));
            }
            at -= 1;
        }
        proof {
            let next = given.take(it.index() + 1);
            assert(next.drop_last() == done);
            assert(next.last() == level);
        }
        ranked.insert(at, level);
    }
    proof {
        assert(given.take(given.len() as int) == given);
    }
    ranked
}

} // verus!
