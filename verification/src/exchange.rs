//! Where the venues are, and what keeps an account in step with them.
//!
//! Endpoints are fully configurable (Testnet ≠ Live; OKX Demo ≠ Live).

use vstd::prelude::*;
use vstd::string::*;

pub mod binance;
pub mod okx;
pub mod ratelimit;
pub mod reconcile;

verus! {

/// REST/WS base URLs.
#[derive(Debug)]
pub struct VenueEndpoints {
    pub rest_base: String,
    pub ws_public: String,
    pub ws_private: String,
    /// Extra flag for venues with a simulated-trading mode (OKX Demo header).
    pub simulated: bool,
}

/// What a [`VenueEndpoints`] holds.
#[verifier::ext_equal]
pub struct EndpointsView {
    pub rest_base: Seq<char>,
    pub ws_public: Seq<char>,
    pub ws_private: Seq<char>,
    pub simulated: bool,
}

impl View for VenueEndpoints {
    type V = EndpointsView;

    open spec fn view(&self) -> EndpointsView {
        EndpointsView {
            rest_base: self.rest_base@,
            ws_public: self.ws_public@,
            ws_private: self.ws_private@,
            simulated: self.simulated,
        }
    }
}

impl Clone for VenueEndpoints {
    fn clone(&self) -> (r: Self)
        ensures
            r == *self,
    {
        VenueEndpoints {
            rest_base: self.rest_base.clone(),
            ws_public: self.ws_public.clone(),
            ws_private: self.ws_private.clone(),
            simulated: self.simulated,
        }
    }
}

impl VenueEndpoints {
    pub fn of(rest_base: &str, ws_public: &str, ws_private: &str, simulated: bool) -> (r: Self)
        ensures
            r@ == (EndpointsView {
                rest_base: rest_base@,
                ws_public: ws_public@,
                ws_private: ws_private@,
                simulated,
            }),
    {
        VenueEndpoints {
            rest_base: rest_base.to_owned(),
            ws_public: ws_public.to_owned(),
            ws_private: ws_private.to_owned(),
            simulated,
        }
    }
}

/// What a venue knows its user by.
pub struct VenueCredentials {
    pub api_key: String,
    pub api_secret: String,
    pub passphrase: Option<String>,
}

} // verus!
