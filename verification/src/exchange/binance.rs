//! Binance endpoints.
//! Endpoints configurable: Testnet ≠ production; spot testnet ≠ futures testnet.

use vstd::prelude::*;
use vstd::string::*;

use crate::exchange::{EndpointsView, VenueCredentials, VenueEndpoints};
use crate::ids::{Product, Venue};

verus! {

pub struct BinanceAdapter {
    pub endpoints: VenueEndpoints,
    pub product: Product,
    pub credentials: Option<VenueCredentials>,
}

impl BinanceAdapter {
    pub fn spot_testnet() -> (r: Self)
        ensures
            r.endpoints@ == (EndpointsView {
                rest_base: "https://testnet.binance.vision"@,
                ws_public: "wss://stream.testnet.binance.vision"@,
                ws_private: "wss://stream.testnet.binance.vision/ws"@,
                simulated: false,
            }),
            r.product == Product::Spot,
            r.credentials is None,
    {
        BinanceAdapter {
            endpoints: VenueEndpoints::of(
                "https://testnet.binance.vision",
                "wss://stream.testnet.binance.vision",
                "wss://stream.testnet.binance.vision/ws",
                false,
            ),
            product: Product::Spot,
            credentials: None,
        }
    }

    pub fn spot_production() -> (r: Self)
        ensures
            r.endpoints@ == (EndpointsView {
                rest_base: "https://api.binance.com"@,
                ws_public: "wss://stream.binance.com:9443"@,
                ws_private: "wss://stream.binance.com:9443/ws"@,
                simulated: false,
            }),
            r.product == Product::Spot,
            r.credentials is None,
    {
        BinanceAdapter {
            endpoints: VenueEndpoints::of(
                "https://api.binance.com",
                "wss://stream.binance.com:9443",
                "wss://stream.binance.com:9443/ws",
                false,
            ),
            product: Product::Spot,
            credentials: None,
        }
    }

    pub fn venue(&self) -> (r: Venue)
        ensures
            r == Venue::Binance,
    {
        Venue::Binance
    }
}

} // verus!
