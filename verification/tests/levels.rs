use orderbook_aggregator::common::error::Error;
use orderbook_aggregator::common::inbound::Inbound;
use orderbook_aggregator::common::orderbook::admits;
use orderbook_aggregator::common::orderbook::level;
use orderbook_aggregator::common::orderbook::levels;
use orderbook_aggregator::common::orderbook::venue_summary;
use orderbook_aggregator::common::orderbook::Entry;
use orderbook_aggregator::common::orderbook::Level;
use orderbook_aggregator::common::orderbook::Spread;
use orderbook_aggregator::common::orderbook::Summary;
use orderbook_aggregator::common::orderbook::INFINITY_BITS;
use orderbook_aggregator::common::orderbook::SIGN_BIT;

fn bits(number: f64) -> Option<u64> {
    Some(number.to_bits())
}

fn refused() -> Error {
    Error::Protocol(String::from("not a finite non-negative number"))
}

#[test]
fn constants_are_the_bits_of_infinity_and_of_the_sign() {
    assert_eq!(INFINITY_BITS, f64::INFINITY.to_bits());
    assert_eq!(SIGN_BIT, (-0.0f64).to_bits());
}

#[test]
fn admitted_numbers_are_finite_and_not_less_than_zero() {
    let numbers = [
        0.0,
        -0.0,
        5e-324,
        -5e-324,
        1.0,
        -1.0,
        f64::MAX,
        f64::MIN,
        f64::INFINITY,
        f64::NEG_INFINITY,
        f64::NAN,
        -f64::NAN,
    ];
    for number in numbers {
        assert_eq!(admits(number.to_bits()), number.is_finite() && number >= 0.0);
    }
}

#[test]
fn level_of_a_valid_entry() {
    assert_eq!(
        level("Venue", &[bits(1.25), bits(3.0)]),
        Some(Level {
            exchange: String::from("Venue"),
            price: 1.25f64.to_bits(),
            amount: 3f64.to_bits()
        })
    );
    assert!(level("Venue", &[bits(0.0), bits(0.0)]).is_some());
    assert!(level("Venue", &[bits(-0.0), bits(-0.0)]).is_some());
    assert!(level("Venue", &[bits(f64::MAX), bits(5e-324)]).is_some());
}

#[test]
fn level_of_an_entry_that_is_not_valid() {
    let good = bits(1.0);
    for bad in [
        None,
        bits(-1.0),
        bits(-5e-324),
        bits(f64::INFINITY),
        bits(f64::NEG_INFINITY),
        bits(f64::NAN),
        bits(-f64::NAN),
    ] {
        assert_eq!(level("Venue", &[bad, good]), None);
        assert_eq!(level("Venue", &[good, bad]), None);
    }
}

#[test]
fn levels_keep_the_order_of_the_entries() {
    let entries: Vec<Entry> = vec![[bits(3.0), bits(1.0)], [bits(1.0), bits(2.0)], [
        bits(2.0),
        bits(3.0),
    ]];
    let made = levels("Venue", &entries).unwrap();
    assert_eq!(made.len(), 3);
    for (made, entry) in made.iter().zip(entries.iter()) {
        assert_eq!(made.exchange, "Venue");
        assert_eq!(Some(made.price), entry[0]);
        assert_eq!(Some(made.amount), entry[1]);
    }
    assert_eq!(levels("Venue", &Vec::new()), Ok(Vec::new()));
}

#[test]
fn levels_are_refused_whole() {
    let entries: Vec<Entry> = vec![[bits(3.0), bits(1.0)], [bits(1.0), None]];
    assert_eq!(levels("Venue", &entries), Err(refused()));
}

#[test]
fn venue_summary_has_no_spread() {
    let asks: Vec<Entry> = vec![[bits(3.0), bits(1.0)]];
    let bids: Vec<Entry> = vec![[bits(2.0), bits(1.0)], [bits(1.0), bits(4.0)]];
    assert_eq!(
        venue_summary("Venue", &asks, &bids),
        Ok(Summary {
            asks: levels("Venue", &asks).unwrap(),
            bids: levels("Venue", &bids).unwrap(),
            spread: Spread::Zero,
        })
    );
    assert_eq!(Summary::default(), venue_summary("Venue", &Vec::new(), &Vec::new()).unwrap());
}

#[test]
fn venue_summary_is_refused_by_either_side() {
    let good: Vec<Entry> = vec![[bits(3.0), bits(1.0)]];
    let bad: Vec<Entry> = vec![[bits(3.0), bits(-1.0)]];
    assert_eq!(venue_summary("Venue", &bad, &good), Err(refused()));
    assert_eq!(venue_summary("Venue", &good, &bad), Err(refused()));
}

#[test]
fn payload_of_a_read() {
    assert_eq!(Inbound::Payload(7).payload("read failed"), Ok(7));
    assert_eq!(
        Inbound::<u8>::Failed.payload("read failed"),
        Err(Error::Connection(String::from("read failed")))
    );
    assert_eq!(
        Inbound::<u8>::Other.payload("read failed"),
        Err(Error::Protocol(String::from("unexpected")))
    );
    assert_eq!(
        Inbound::<u8>::Malformed(String::from("no number")).payload("read failed"),
        Err(Error::Protocol(String::from("no number")))
    );
}
