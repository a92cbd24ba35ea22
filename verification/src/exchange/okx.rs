//! OKX endpoints.
//! Demo REST needs the simulated-trading header and Demo WebSocket hosts.

use vstd::prelude::*;
use vstd::string::*;

use crate::exchange::{EndpointsView, VenueCredentials, VenueEndpoints};
use crate::ids::{Product, Venue};

verus! {

pub struct OkxAdapter {
    pub endpoints: VenueEndpoints,
    pub product: Product,
    pub credentials: Option<VenueCredentials>,
}

impl OkxAdapter {
    pub fn demo() -> (r: Self)
        ensures
            r.endpoints@ == (EndpointsView {
                rest_base: "https://www.okx.com"@,
                ws_public: "wss://wspap.okx.com:8443/ws/v5/public"@,
                ws_private: "wss://wspap.okx.com:8443/ws/v5/private"@,
                simulated: true,
            }),
            r.product == Product::Spot,
            r.credentials is None,
    {
        OkxAdapter {
            endpoints: VenueEndpoints::of(
                "https://www.okx.com",
                "wss://wspap.okx.com:8443/ws/v5/public",
                "wss://wspap.okx.com:8443/ws/v5/private",
                true,
            ),
            product: Product::Spot,
            credentials: None,
        }
    }

    pub fn production() -> (r: Self)
        ensures
            r.endpoints@ == (EndpointsView {
                rest_base: "https://www.okx.com"@,
                ws_public: "wss://ws.okx.com:8443/ws/v5/public"@,
                ws_private: "wss://ws.okx.com:8443/ws/v5/private"@,
                simulated: false,
            }),
            r.product == Product::Spot,
            r.credentials is None,
    {
        OkxAdapter {
            endpoints: VenueEndpoints::of(
                "https://www.okx.com",
                "wss://ws.okx.com:8443/ws/v5/public",
                "wss://ws.okx.com:8443/ws/v5/private",
                false,
            ),
            product: Product::Spot,
            credentials: None,
        }
    }

    /// Value for `x-simulated-trading` header when Demo.
    pub fn simulated_header(&self) -> (r: Option<&'static str>)
        ensures
            match r {
                Some(v) => self.endpoints@.simulated && v@ == "1"@,
                None => !self.endpoints@.simulated,
            },
    {
        if self.endpoints.simulated {
            Some("1")
        } else {
            None
        }
    }

    pub fn venue(&self) -> (r: Venue)
        ensures
            r == Venue::Okx,
    {
        Venue::Okx
    }
}

} // verus!
