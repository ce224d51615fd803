use orderbook_aggregator::common::config::Config;
use orderbook_aggregator::common::error::Error;
use orderbook_aggregator::common::orderbook::Level;
use orderbook_aggregator::common::orderbook::Spread;
use orderbook_aggregator::common::orderbook::Summary;
use orderbook_aggregator::common::provider::Provider;
use orderbook_aggregator::runtime::orderbook::Orderbook;
use orderbook_aggregator::runtime::providers::ProviderRef;
use orderbook_aggregator::runtime::providers::Providers;
use std::sync::atomic::AtomicUsize;
use std::sync::atomic::Ordering;
use std::sync::Arc;

/// A connector without a venue: it counts what is asked of it and answers as
/// it was told to.
struct Fake {
    name: &'static str,
    fails: bool,
    subscribed: Arc<AtomicUsize>,
    unsubscribed: Arc<AtomicUsize>,
}

impl Provider for Fake {
    fn name(&self) -> &'static str {
        self.name
    }

    fn subscribe(&self) -> Result<(), Error> {
        self.subscribed.fetch_add(1, Ordering::SeqCst);
        if self.fails {
            Err(Error::Subscription(format!("{} refused", self.name)))
        } else {
            Ok(())
        }
    }

    fn unsubscribe(&self) -> Result<(), Error> {
        self.unsubscribed.fetch_add(1, Ordering::SeqCst);
        if self.fails {
            Err(Error::Subscription(format!("{} is gone", self.name)))
        } else {
            Ok(())
        }
    }

    fn summary(&self) -> Result<Summary, Error> {
        if self.fails {
            Err(Error::Protocol(format!("{} sent nonsense", self.name)))
        } else {
            Ok(summary_of(self.name, 1.0))
        }
    }
}

struct Counters {
    subscribed: Vec<Arc<AtomicUsize>>,
    unsubscribed: Vec<Arc<AtomicUsize>>,
}

impl Counters {
    fn subscribed(&self) -> Vec<usize> {
        self.subscribed.iter().map(|count| count.load(Ordering::SeqCst)).collect()
    }

    fn unsubscribed(&self) -> Vec<usize> {
        self.unsubscribed.iter().map(|count| count.load(Ordering::SeqCst)).collect()
    }
}

fn providers(venues: &[(&'static str, bool)]) -> (Providers, Counters) {
    let mut collection: Vec<ProviderRef> = Vec::new();
    let mut counters = Counters { subscribed: Vec::new(), unsubscribed: Vec::new() };
    for (name, fails) in venues {
        let subscribed = Arc::new(AtomicUsize::new(0));
        let unsubscribed = Arc::new(AtomicUsize::new(0));
        counters.subscribed.push(Arc::clone(&subscribed));
        counters.unsubscribed.push(Arc::clone(&unsubscribed));
        let fake: Box<dyn Provider> =
            Box::new(Fake { name, fails: *fails, subscribed, unsubscribed });
        collection.push(Arc::new(fake));
    }
    (Providers::new(collection), counters)
}

fn summary_of(exchange: &str, price: f64) -> Summary {
    Summary {
        asks: vec![Level {
            exchange: String::from(exchange),
            price: (price + 1.0).to_bits(),
            amount: 1f64.to_bits(),
        }],
        bids: vec![Level {
            exchange: String::from(exchange),
            price: price.to_bits(),
            amount: 2f64.to_bits(),
        }],
        spread: Spread::Zero,
    }
}

#[test]
fn connect_subscribes_every_connector_in_order() {
    let (providers, counters) = providers(&[("A", false), ("B", false), ("C", false)]);
    assert_eq!(providers.len(), 3);
    assert_eq!(providers.connect(), Ok(()));
    assert_eq!(counters.subscribed(), vec![1, 1, 1]);
    assert_eq!(counters.unsubscribed(), vec![0, 0, 0]);
}

#[test]
fn connect_stops_at_the_first_failure() {
    let (providers, counters) = providers(&[("A", false), ("B", true), ("C", false)]);
    assert_eq!(providers.connect(), Err(Error::Subscription(String::from("B refused"))));
    assert_eq!(counters.subscribed(), vec![1, 1, 0]);
    assert_eq!(counters.unsubscribed(), vec![0, 0, 0]);
}

#[test]
fn connect_of_no_connectors_succeeds() {
    let (providers, _) = providers(&[]);
    assert_eq!(providers.len(), 0);
    assert_eq!(providers.connect(), Ok(()));
    assert!(providers.disconnect().is_empty());
}

#[test]
fn disconnect_attempts_every_connector() {
    let (providers, counters) = providers(&[("A", true), ("B", false), ("C", true)]);
    assert_eq!(
        providers.disconnect(),
        vec![
            Error::Subscription(String::from("A is gone")),
            Error::Subscription(String::from("C is gone")),
        ]
    );
    assert_eq!(counters.unsubscribed(), vec![1, 1, 1]);
}

#[test]
fn get_hands_out_the_connectors_in_order() {
    let (providers, _) = providers(&[("A", false), ("B", true)]);
    assert_eq!(providers.get(0).map(|provider| provider.name()), Some("A"));
    assert_eq!(providers.get(1).map(|provider| provider.name()), Some("B"));
    assert!(providers.get(2).is_none());
}

#[test]
fn retrieve_returns_all_summaries_in_order() {
    let outcomes = vec![Ok(summary_of("A", 1.0)), Ok(summary_of("B", 2.0))];
    assert_eq!(
        Providers::retrieve(outcomes),
        Ok(vec![summary_of("A", 1.0), summary_of("B", 2.0)])
    );
    assert_eq!(Providers::retrieve(Vec::new()), Ok(Vec::new()));
}

#[test]
fn retrieve_fails_whole_when_one_fetch_failed() {
    let last = vec![
        Ok(summary_of("A", 1.0)),
        Ok(summary_of("B", 2.0)),
        Err(Error::Protocol(String::from("unexpected"))),
    ];
    assert_eq!(
        Providers::retrieve(last),
        Err(Error::Aggregation(Box::new(Error::Protocol(String::from("unexpected")))))
    );
    let first =
        vec![Err(Error::Connection(String::from("Failed to read"))), Ok(summary_of("B", 2.0))];
    assert_eq!(
        Providers::retrieve(first),
        Err(Error::Aggregation(Box::new(Error::Connection(String::from("Failed to read")))))
    );
}

#[test]
fn retrieve_reports_the_first_of_several_failures() {
    let outcomes = vec![
        Ok(summary_of("A", 1.0)),
        Err(Error::Protocol(String::from("first"))),
        Err(Error::Connection(String::from("second"))),
    ];
    assert_eq!(
        Providers::retrieve(outcomes),
        Err(Error::Aggregation(Box::new(Error::Protocol(String::from("first")))))
    );
}

#[test]
fn retrieve_over_the_connectors() {
    let (providers, _) = providers(&[("A", false), ("B", true)]);
    let mut outcomes = Vec::new();
    for i in 0..providers.len() {
        outcomes.push(providers.get(i).unwrap().summary());
    }
    assert_eq!(
        Providers::retrieve(outcomes),
        Err(Error::Aggregation(Box::new(Error::Protocol(String::from("B sent nonsense")))))
    );
}

#[test]
fn description_of_a_failure() {
    assert_eq!(Error::Connection(String::from("a")).description(), "a");
    assert_eq!(Error::Subscription(String::from("b")).description(), "b");
    assert_eq!(Error::Protocol(String::from("c")).description(), "c");
    let wrapped = Error::Aggregation(Box::new(Error::Aggregation(Box::new(Error::Protocol(
        String::from("d"),
    )))));
    assert_eq!(wrapped.description(), "d");
}

#[test]
fn service_answers_with_the_merge() {
    let (providers, counters) = providers(&[("A", false), ("B", false)]);
    let service = Orderbook::new(Config::as_ref(), providers);
    assert_eq!(service.connect(), Ok(()));
    assert_eq!(counters.subscribed(), vec![1, 1]);

    let mut outcomes = Vec::new();
    for i in 0..service.providers().len() {
        outcomes.push(service.providers().get(i).unwrap().summary());
    }
    let answer = service.book_summary(Providers::retrieve(outcomes)).unwrap();
    assert_eq!(answer.asks.len(), 2);
    assert_eq!(answer.bids.len(), 2);
    assert_eq!(answer.asks[0].exchange, "A");
    assert_eq!(answer.asks[1].exchange, "B");
    assert_eq!(
        answer.spread,
        Spread::Difference { ask: 2f64.to_bits(), bid: 1f64.to_bits() }
    );

    assert!(service.disconnect().is_empty());
    assert_eq!(counters.unsubscribed(), vec![1, 1]);
}

#[test]
fn service_answers_a_failed_retrieval_with_its_description() {
    let (providers, _) = providers(&[("A", false)]);
    let service = Orderbook::new(Config::as_ref(), providers);
    let retrieved = Providers::retrieve(vec![
        Ok(summary_of("A", 1.0)),
        Err(Error::Connection(String::from("Failed to read message"))),
    ]);
    assert_eq!(service.book_summary(retrieved), Err(String::from("Failed to read message")));
}

#[test]
fn service_keeps_to_the_configured_depth() {
    let (providers, _) = providers(&[]);
    let config = Config::new(
        String::from("ethbtc"),
        String::from("wss://stream.binance.com:9443/ws/"),
        String::from("wss://ws.bitstamp.net"),
        1,
        String::from("[::1]:50051"),
        false,
    );
    let service = Orderbook::new(Arc::new(config), providers);
    let answer = service
        .book_summary(Ok(vec![summary_of("A", 1.0), summary_of("B", 0.5)]))
        .unwrap();
    assert_eq!(answer.asks, summary_of("B", 0.5).asks);
    assert_eq!(answer.bids, summary_of("A", 1.0).bids);
    assert_eq!(
        answer.spread,
        Spread::Difference { ask: 1.5f64.to_bits(), bid: 1f64.to_bits() }
    );
}
