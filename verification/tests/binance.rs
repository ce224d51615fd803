use orderbook_aggregator::binance::Binance;
use orderbook_aggregator::binance::Depth;
use orderbook_aggregator::common::config::Config;
use orderbook_aggregator::common::error::Error;
use orderbook_aggregator::common::inbound::Inbound;
use orderbook_aggregator::common::orderbook::Entry;
use orderbook_aggregator::common::orderbook::Spread;
use std::sync::Arc;

fn adapter(pair: &str, base: &str) -> Binance {
    Binance::new(Arc::new(Config::new(
        String::from(pair),
        String::from(base),
        String::from("wss://ws.bitstamp.net"),
        10,
        String::from("[::1]:50051"),
        false,
    )))
}

fn entry(price: &str, amount: &str) -> Entry {
    [price.parse::<f64>().ok().map(f64::to_bits), amount.parse::<f64>().ok().map(f64::to_bits)]
}

#[test]
fn name_of_the_venue() {
    assert_eq!(Binance::new(Config::as_ref()).name(), "Binance");
}

#[test]
fn endpoint_of_the_default_configuration() {
    let provider = Binance::new(Config::as_ref());
    assert_eq!(
        provider.endpoint(),
        Some(String::from("wss://stream.binance.com:9443/ws/ethbtc@depth20@100ms"))
    );
}

#[test]
fn endpoint_replaces_what_follows_the_last_slash() {
    let provider = adapter("btcusdt", "wss://stream.binance.com:9443/ws");
    assert_eq!(
        provider.endpoint(),
        Some(String::from("wss://stream.binance.com:9443/btcusdt@depth20@100ms"))
    );
}

#[test]
fn endpoint_of_an_address_that_is_no_url() {
    assert_eq!(adapter("ethbtc", "not a url").endpoint(), None);
    assert_eq!(adapter("ethbtc", "").endpoint(), None);
}

#[test]
fn subscription_is_in_the_address() {
    let provider = Binance::new(Config::as_ref());
    assert_eq!(provider.subscribe(), Ok(()));
    assert_eq!(provider.unsubscribe(), Ok(()));
}

#[test]
fn summary_of_a_snapshot() {
    let provider = Binance::new(Config::as_ref());
    let depth = Depth::new(
        160,
        vec![entry("0.0024", "10"), entry("0.0023", "100")],
        vec![entry("0.0026", "100")],
    );
    assert_eq!(depth.last_update_id(), 160);
    assert_eq!(depth.bids().len(), 2);
    assert_eq!(depth.asks().len(), 1);

    let summary = provider.summary(Inbound::Payload(depth)).unwrap();

    assert_eq!(summary.asks.len(), 1);
    assert_eq!(summary.asks[0].exchange, "Binance");
    assert_eq!(f64::from_bits(summary.asks[0].price), 0.0026);
    assert_eq!(f64::from_bits(summary.asks[0].amount), 100.0);
    assert_eq!(summary.bids.len(), 2);
    assert_eq!(summary.bids[0].exchange, "Binance");
    assert_eq!(f64::from_bits(summary.bids[0].price), 0.0024);
    assert_eq!(f64::from_bits(summary.bids[0].amount), 10.0);
    assert_eq!(summary.bids[1].exchange, "Binance");
    assert_eq!(f64::from_bits(summary.bids[1].price), 0.0023);
    assert_eq!(f64::from_bits(summary.bids[1].amount), 100.0);
    assert_eq!(summary.spread, Spread::Zero);
}

#[test]
fn summary_of_what_is_no_snapshot() {
    let provider = Binance::new(Config::as_ref());
    assert_eq!(
        provider.summary(Inbound::Failed),
        Err(Error::Connection(String::from("Failed to read")))
    );
    assert_eq!(
        provider.summary(Inbound::Other),
        Err(Error::Protocol(String::from("unexpected")))
    );
    assert_eq!(
        provider.summary(Inbound::Malformed(String::from("missing field `bids`"))),
        Err(Error::Protocol(String::from("missing field `bids`")))
    );
}

#[test]
fn summary_refuses_a_snapshot_with_a_bad_number() {
    let provider = Binance::new(Config::as_ref());
    let refused = Err(Error::Protocol(String::from("not a finite non-negative number")));
    let bad_ask = Depth::new(1, vec![entry("1", "1")], vec![entry("2", "1"), entry("x", "1")]);
    assert_eq!(provider.summary(Inbound::Payload(bad_ask)), refused);
    let bad_bid = Depth::new(1, vec![entry("1", "-1")], vec![entry("2", "1")]);
    assert_eq!(provider.summary(Inbound::Payload(bad_bid)), refused);
    let infinite = Depth::new(1, Vec::new(), vec![entry("inf", "1")]);
    assert_eq!(provider.summary(Inbound::Payload(infinite)), refused);
}
