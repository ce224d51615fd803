//! The settings that every component is built from.

use std::sync::Arc;
use vstd::prelude::*;

verus! {

/// The settings of one run: the trading pair, where each venue is reached,
/// how many levels a merged summary keeps per side, where the service
/// listens, and whether the process only shows one summary and exits.
pub struct Config {
    pair: String,
    binance_url: String,
    bitstamp_url: String,
    top: usize,
    local_bind: String,
    cli: bool,
}

/// A configuration shared by the components built from it.
pub type ConfigRef = Arc<Config>;

/// What a [`Config`] holds, as mathematics.
pub ghost struct ConfigView {
    pub pair: Seq<char>,
    pub binance_url: Seq<char>,
    pub bitstamp_url: Seq<char>,
    pub top: usize,
    pub local_bind: Seq<char>,
    pub cli: bool,
}

impl View for Config {
    type V = ConfigView;

    closed spec fn view(&self) -> ConfigView {
        ConfigView {
            pair: self.pair@,
            binance_url: self.binance_url@,
            bitstamp_url: self.bitstamp_url@,
            top: self.top,
            local_bind: self.local_bind@,
            cli: self.cli,
        }
    }
}

/// The settings of a run that was given none: the pair `ethbtc`, the public
/// endpoints of both venues, ten levels per side, the loopback port 50051,
/// and service mode.
pub open spec fn defaults() -> ConfigView {
    ConfigView {
        pair: "ethbtc"@,
        binance_url: "wss://stream.binance.com:9443/ws/"@,
        bitstamp_url: "wss://ws.bitstamp.net"@,
        top: 10,
        local_bind: "[::1]:50051"@,
        cli: false,
    }
}

impl Config {
    /// A configuration of the given settings.
    pub fn new(
        pair: String,
        binance_url: String,
        bitstamp_url: String,
        top: usize,
        local_bind: String,
        cli: bool,
    ) -> (config: Config)
        ensures
            config@ == (ConfigView {
                pair: pair@,
                binance_url: binance_url@,
                bitstamp_url: bitstamp_url@,
                top,
                local_bind: local_bind@,
                cli,
            }),
    {
        Config { pair, binance_url, bitstamp_url, top, local_bind, cli }
    }

    /// The default configuration, ready to be shared.
    pub fn as_ref() -> (config: ConfigRef)
        ensures
            config@ == defaults(),
    {
        Arc::new(
            Config {
                pair: "ethbtc".to_owned(),
                binance_url: "wss://stream.binance.com:9443/ws/".to_owned(),
                bitstamp_url: "wss://ws.bitstamp.net".to_owned(),
                top: 10,
                local_bind: "[::1]:50051".to_owned(),
                cli: false,
            },
        )
    }

    /// The trading pair, as venues spell it in channel names.
    pub fn pair(&self) -> (pair: &str)
        ensures
            pair@ == self@.pair,
    {
        self.pair.as_str()
    }

    /// The address under which the depth streams of Binance are found.
    pub fn binance_url(&self) -> (url: &str)
        ensures
            url@ == self@.binance_url,
    {
        self.binance_url.as_str()
    }

    /// The address of the Bitstamp feed.
    pub fn bitstamp_url(&self) -> (url: &str)
        ensures
            url@ == self@.bitstamp_url,
    {
        self.bitstamp_url.as_str()
    }

    /// How many levels a merged summary keeps on each side.
    pub fn top(&self) -> (top: usize)
        ensures
            top == self@.top,
    {
        self.top
    }

    /// The address on which the service listens.
    pub fn local_bind(&self) -> (address: &str)
        ensures
            address@ == self@.local_bind,
    {
        self.local_bind.as_str()
    }

    /// Whether the process shows one summary and exits instead of serving.
    pub fn cli(&self) -> (cli: bool)
        ensures
            cli == self@.cli,
    {
        self.cli
    }
}

} // verus!
