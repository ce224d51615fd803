//! The canonical order-book data: price levels and summaries.

use crate::common::error::Error;
use crate::common::error::ErrorView;
use vstd::prelude::*;

verus! {

/// The bit pattern of positive infinity. The patterns below it are the
/// finite binary64 numbers whose sign bit is clear.
pub const INFINITY_BITS: u64 = 0x7ff0_0000_0000_0000;

/// The sign bit of a binary64 bit pattern, which alone is the pattern of
/// negative zero.
pub const SIGN_BIT: u64 = 0x8000_0000_0000_0000;

/// Position of a binary64 bit pattern in the IEEE-754 total order: patterns
/// with a clear sign bit ascend with their bits, those with the sign bit set
/// come before all of them and descend as their bits ascend.
pub open spec fn order_key(bits: u64) -> int {
    if bits < SIGN_BIT {
        bits as int
    } else {
        SIGN_BIT - 1 - bits
    }
}

/// Whether a bit pattern is a finite number that is not less than zero.
/// Negative zero is such a number: it equals zero.
pub open spec fn is_quantity(bits: u64) -> bool {
    bits < INFINITY_BITS || bits == SIGN_BIT
}

/// Tells whether a bit pattern is a finite number that is not less than
/// zero.
pub fn admits(bits: u64) -> (r: bool)
    ensures
        r == is_quantity(bits),
{
    bits < INFINITY_BITS || bits == SIGN_BIT
}

/// True when `left` does not come after `right` in the IEEE-754 total order.
pub fn precedes_or_ties(left: u64, right: u64) -> (r: bool)
    ensures
        r == (order_key(left) <= order_key(right)),
{
    if left < SIGN_BIT {
        right < SIGN_BIT && left <= right
    } else {
        right < SIGN_BIT || right <= left
    }
}

/// One price and quantity point of one venue.
#[derive(Debug, Clone, PartialEq, Eq)]
pub struct Level {
    /// The venue that quoted it.
    pub exchange: String,
    /// The price, as binary64 bits.
    pub price: u64,
    /// The quantity, as binary64 bits.
    pub amount: u64,
}

/// What a [`Level`] holds, as mathematics.
pub ghost struct LevelView {
    pub exchange: Seq<char>,
    pub price: u64,
    pub amount: u64,
}

impl View for Level {
    type V = LevelView;

    open spec fn view(&self) -> LevelView {
        LevelView { exchange: self.exchange@, price: self.price, amount: self.amount }
    }
}

/// The bid-ask spread of a summary. It is a difference of two binary64
/// numbers, which this crate does not compute: it names the operands.
#[derive(Debug, Clone, Copy, PartialEq, Eq)]
pub enum Spread {
    /// The number zero: a side is empty, or the summary is one venue's own.
    Zero,
    /// The number `ask - bid`, both given as binary64 bits.
    Difference { ask: u64, bid: u64 },
}

/// Ranked asks and bids with their spread.
#[derive(Debug, Clone, PartialEq, Eq)]
pub struct Summary {
    pub asks: Vec<Level>,
    pub bids: Vec<Level>,
    pub spread: Spread,
}

/// What a [`Summary`] holds, as mathematics.
pub ghost struct SummaryView {
    pub asks: Seq<LevelView>,
    pub bids: Seq<LevelView>,
    pub spread: Spread,
}

/// What the levels hold, as mathematics.
pub open spec fn level_views(levels: Seq<Level>) -> Seq<LevelView> {
    levels.map_values(|level: Level| level@)
}

impl View for Summary {
    type V = SummaryView;

    open spec fn view(&self) -> SummaryView {
        SummaryView {
            asks: level_views(self.asks@),
            bids: level_views(self.bids@),
            spread: self.spread,
        }
    }
}

impl Default for Summary {
    /// The summary of nothing: no asks, no bids, spread zero.
    fn default() -> (summary: Summary)
        ensures
            summary.asks@.len() == 0,
            summary.bids@.len() == 0,
            summary.spread == Spread::Zero,
    {
        Summary { asks: Vec::new(), bids: Vec::new(), spread: Spread::Zero }
    }
}

/// One entry of a venue's snapshot: its price and its amount, in this order,
/// each as the binary64 bits of the decimal text on the wire, or `None`
/// where that text is no number.
pub type Entry = [Option<u64>; 2];

/// Why an entry is refused.
pub const INVALID_NUMBER: &'static str = "not a finite non-negative number";

/// Whether both numbers of an entry were read and are finite and not
/// negative.
pub open spec fn is_valid_entry(entry: Entry) -> bool {
    &&& entry@[0] matches Some(price) && is_quantity(price)
    &&& entry@[1] matches Some(amount) && is_quantity(amount)
}

/// Whether every entry is valid.
pub open spec fn all_valid(entries: Seq<Entry>) -> bool {
    forall|i: int| 0 <= i < entries.len() ==> is_valid_entry(#[trigger] entries[i])
}

/// The level that a valid entry of the venue `exchange` stands for.
pub open spec fn level_of(exchange: Seq<char>, entry: Entry) -> LevelView {
    LevelView { exchange, price: entry@[0]->Some_0, amount: entry@[1]->Some_0 }
}

/// The levels that valid entries of the venue `exchange` stand for.
pub open spec fn levels_of(exchange: Seq<char>, entries: Seq<Entry>) -> Seq<LevelView> {
    entries.map_values(|entry: Entry| level_of(exchange, entry))
}

/// The level of one entry, tagged with the venue's name, or nothing where
/// the entry is not valid.
pub fn level(exchange: &str, entry: &Entry) -> (r: Option<Level>)
    ensures
        r is Some <==> is_valid_entry(*entry),
        r matches Some(level) ==> level@ == level_of(exchange@, *entry),
{
    match (entry[0], entry[1]) {
        (Some(price), Some(amount)) => {
            if admits(price) && admits(amount) {
                Some(Level { exchange: exchange.to_owned(), price, amount })
            } else {
                None
            }
        },
        _ => None,
    }
}

/// The levels of one side of a venue's snapshot, in the venue's order and
/// tagged with its name. One entry that is not valid refuses them all.
pub fn levels(exchange: &str, entries: &Vec<Entry>) -> (r: Result<Vec<Level>, Error>)
    ensures
        r is Ok <==> all_valid(entries@),
        r matches Ok(levels) ==> level_views(levels@) == levels_of(exchange@, entries@),
        r matches Err(e) ==> e@ == ErrorView::Protocol(INVALID_NUMBER@),
{
    let mut made: Vec<Level> = Vec::new();
    let mut i: usize = 0;
    while i < entries.len()
        invariant
            i <= entries@.len(),
            all_valid(entries@.take(i as int)),
            level_views(made@) == levels_of(exchange@, entries@.take(i as int)),
        decreases entries@.len() - i,
    {
        match level(exchange, &entries[i]) {
            Some(level) => {
                proof {
                    let done = entries@.take(i as int);
                    let next = entries@.take(i + 1);
                    assert(next == done.push(entries@[i as int]));
                    assert(level_views(made@.push(level)) == level_views(made@).push(level@));
                    assert(levels_of(exchange@, next) == levels_of(exchange@, done).push(
                        level_of(exchange@, entries@[i as int]),
                    ));
                    assert forall|j: int| 0 <= j < next.len() implies is_valid_entry(
                        #[trigger] next[j],
                    ) by {
                        if j < i {
                            assert(next[j] == done[j]);
                        }
                    }
                }
                made.push(level);
            },
            None => {
                return Err(Error::Protocol(INVALID_NUMBER.to_owned()));
            },
        }
        i += 1;
    }
    proof {
        assert(entries@.take(entries@.len() as int) == entries@);
    }
    Ok(made)
}

/// A venue's own summary of a snapshot with these entries, all of them
/// valid: its levels are, in the venue's order, those of the entries, and
/// its spread is zero.
pub open spec fn snapshot_of(
    exchange: Seq<char>,
    asks: Seq<Entry>,
    bids: Seq<Entry>,
) -> SummaryView {
    SummaryView {
        asks: levels_of(exchange, asks),
        bids: levels_of(exchange, bids),
        spread: Spread::Zero,
    }
}

/// A venue's own summary of one snapshot: the levels of both sides, tagged
/// with the venue's name, and no spread. One entry that is not valid, on
/// either side, refuses the snapshot whole.
pub fn venue_summary(exchange: &str, asks: &Vec<Entry>, bids: &Vec<Entry>) -> (r: Result<
    Summary,
    Error,
>)
    ensures
        r is Ok <==> all_valid(asks@) && all_valid(bids@),
        r matches Ok(summary) ==> summary@ == snapshot_of(exchange@, asks@, bids@),
        r matches Err(e) ==> e@ == ErrorView::Protocol(INVALID_NUMBER@),
{
    let asks = match levels(exchange, asks) {
        Ok(levels) => levels,
        Err(e) => {
            return Err(e);
        },
    };
    let bids = match levels(exchange, bids) {
        Ok(levels) => levels,
        Err(e) => {
            return Err(e);
        },
    };
    Ok(Summary { asks, bids, spread: Spread::Zero })
}

} // verus!
