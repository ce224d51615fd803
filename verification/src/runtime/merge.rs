//! The merge of the venues' summaries into one.

use crate::common::config::ConfigRef;
use crate::common::orderbook::Level;
use crate::common::orderbook::Spread;
use crate::common::orderbook::Summary;
use crate::runtime::ranking::is_ranked;
use crate::runtime::ranking::lemma_ranking_is_ranked;
use crate::runtime::ranking::lemma_ranking_keeps_order;
use crate::runtime::ranking::lemma_ranking_len;
use crate::runtime::ranking::priced;
use crate::runtime::ranking::rank;
use crate::runtime::ranking::ranking;
use crate::runtime::ranking::Side;
use vstd::prelude::*;

verus! {

/// The asks of all summaries, one summary after the other.
pub open spec fn all_asks(summaries: Seq<Summary>) -> Seq<Level> {
    summaries.map_values(|summary: Summary| summary.asks@).flatten()
}

/// The bids of all summaries, one summary after the other.
pub open spec fn all_bids(summaries: Seq<Summary>) -> Seq<Level> {
    summaries.map_values(|summary: Summary| summary.bids@).flatten()
}

/// The first `top` levels, or all of them where there are fewer.
pub open spec fn truncated(levels: Seq<Level>, top: usize) -> Seq<Level> {
    if top < levels.len() {
        levels.take(top as int)
    } else {
        levels
    }
}

/// The levels that a merge retains on one side: the best `top` of the
/// stable ranking.
pub open spec fn retained(levels: Seq<Level>, side: Side, top: usize) -> Seq<Level> {
    truncated(ranking(levels, side), top)
}

/// The spread at the edges of what was retained: the last ask less the first
/// bid, or zero where a side is empty.
pub open spec fn edge_spread(asks: Seq<Level>, bids: Seq<Level>) -> Spread {
    if asks.len() > 0 && bids.len() > 0 {
        Spread::Difference { ask: asks.last().price, bid: bids.first().price }
    } else {
        Spread::Zero
    }
}

/// Whether `merged` is the merge of `summaries` that retains `top` levels
/// per side.
pub open spec fn is_merge(merged: Summary, summaries: Seq<Summary>, top: usize) -> bool {
    &&& merged.asks@ == retained(all_asks(summaries), Side::Ask, top)
    &&& merged.bids@ == retained(all_bids(summaries), Side::Bid, top)
    &&& merged.spread == edge_spread(merged.asks@, merged.bids@)
}

/// Whether `kept` holds the levels of each price in the order in which
/// `given` holds them, from the first on and without a gap.
pub open spec fn keeps_order(kept: Seq<Level>, given: Seq<Level>) -> bool {
    forall|price: u64| #[trigger]
        kept.filter(priced(price)).is_prefix_of(given.filter(priced(price)))
}

/// What is retained is ranked and no longer than `top`, and the levels of
/// any one price stand in it as they stood among the levels given, as far as
/// they were retained.
pub proof fn lemma_retained(levels: Seq<Level>, side: Side, top: usize)
    ensures
        retained(levels, side, top).len() <= top,
        retained(levels, side, top).len() <= levels.len(),
        is_ranked(retained(levels, side, top), side),
        keeps_order(retained(levels, side, top), levels),
{
    let ranked = ranking(levels, side);
    let kept = retained(levels, side, top);
    lemma_ranking_len(levels, side);
    lemma_ranking_is_ranked(levels, side);
    assert forall|price: u64| #[trigger]
        kept.filter(priced(price)).is_prefix_of(levels.filter(priced(price))) by {
        lemma_ranking_keeps_order(levels, side, price);
        if top < ranked.len() {
            let rest = ranked.skip(top as int);
            assert(ranked == kept + rest);
            Seq::filter_distributes_over_add(kept, rest, priced(price));
        }
    }
}

/// What holds of every merge: neither side is longer than `top`; asks never
/// fall and bids never rise from one position to the next; the levels of
/// any one price stand on their side in the order of the summaries they came
/// from; and the merge of no summaries is empty, with spread zero.
pub proof fn lemma_merge(merged: Summary, summaries: Seq<Summary>, top: usize)
    requires
        is_merge(merged, summaries, top),
    ensures
        merged.asks@.len() <= top,
        merged.bids@.len() <= top,
        is_ranked(merged.asks@, Side::Ask),
        is_ranked(merged.bids@, Side::Bid),
        keeps_order(merged.asks@, all_asks(summaries)),
        keeps_order(merged.bids@, all_bids(summaries)),
        summaries.len() == 0 ==> merged.asks@.len() == 0 && merged.bids@.len() == 0
            && merged.spread == Spread::Zero,
{
    lemma_retained(all_asks(summaries), Side::Ask, top);
    lemma_retained(all_bids(summaries), Side::Bid, top);
}

/// Merges the summaries of the venues into one: on each side all levels are
/// ranked, equal prices keeping the order of the summaries they came from,
/// and the best `top` of the configuration are retained.
pub fn merge(config: ConfigRef, summaries: Vec<Summary>) -> (merged: Summary)
    ensures
        is_merge(merged, summaries@, config@.top),
        merged.asks@.len() <= config@.top,
        merged.bids@.len() <= config@.top,
        is_ranked(merged.asks@, Side::Ask),
        is_ranked(merged.bids@, Side::Bid),
        keeps_order(merged.asks@, all_asks(summaries@)),
        keeps_order(merged.bids@, all_bids(summaries@)),
        summaries@.len() == 0 ==> merged.asks@.len() == 0 && merged.bids@.len() == 0
            && merged.spread == Spread::Zero,
{
    let ghost given = summaries@;
    let mut asks: Vec<Level> = Vec::new();
    let mut bids: Vec<Level> = Vec::new();
    for summary in it: summaries
        invariant
            it.seq() == given,
            asks@ == all_asks(given.take(it.index() as int)),
            bids@ == all_bids(given.take(it.index() as int)),
    {
        let mut summary = summary;
        proof {
            let done = given.take(it.index() as int);
            assert(given.take(it.index() + 1) == done.push(summary));
            done.lemma_push_map_commute(|summary: Summary| summary.asks@, summary);
            done.lemma_push_map_commute(|summary: Summary| summary.bids@, summary);
            done.map_values(|summary: Summary| summary.asks@).lemma_flatten_push(summary.asks@);
            done.map_values(|summary: Summary| summary.bids@).lemma_flatten_push(summary.bids@);
        }
        asks.append(&mut summary.asks);
        bids.append(&mut summary.bids);
    }
    proof {
        assert(given.take(given.len() as int) == given);
    }
    let mut asks = rank(asks, Side::Ask);
    asks.truncate(config.top());
    let mut bids = rank(bids, Side::Bid);
    bids.truncate(config.top());
    proof {
        assert(asks@ == retained(all_asks(given), Side::Ask, config@.top));
        assert(bids@ == retained(all_bids(given), Side::Bid, config@.top));
    }
    let spread = if asks.len() > 0 && bids.len() > 0 {
        Spread::Difference { ask: asks[asks.len() - 1].price, bid: bids[0].price }
    } else {
        Spread::Zero
    };
    let merged = Summary { asks, bids, spread };
    proof {
        lemma_merge(merged, given, config@.top);
    }
    merged
}

} // verus!
