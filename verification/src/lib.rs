//! Trading core: exact decimal money arithmetic, order state machine, risk
//! limits, paper matching and portfolio accounting.
//!
//! Pipeline: market → strategy intent → risk → order management → paper
//! matching → portfolio.

use vstd::prelude::*;
use vstd::string::*;

pub mod control;
pub mod decimal;
pub mod domain;
pub mod error;
pub mod events;
pub mod exchange;
pub mod ids;
pub mod live_feed;
pub mod market;
pub mod oms;
pub mod pipeline;
pub mod portfolio;
pub mod risk;
pub mod runtime;
pub mod sim;
pub mod store;
pub mod strategy;
pub mod table;
pub mod text;
pub mod views;
pub mod window;

pub use error::{Result, TuxError};
pub use ids::{
    AccountId, ClientOrderId, ConfigVersionId, Environment, EventSeq, FillId, IntentId,
    MarketContext, OrderId, Product, StrategyId, StrategyInstanceId, TimestampMs, Venue,
};

verus! {

/// Why the live environment is refused.
pub open spec fn live_refusal() -> error::ErrorView {
    error::ErrorView::Config(
        "Live mode is disabled: finish risk validation before enabling real trading"@,
    )
}

/// Live trading is refused until every risk control is production-validated.
pub fn ensure_not_live(env: Environment) -> (r: Result<()>)
    ensures
        r is Err <==> env == Environment::Live,
        r matches Err(e) ==> e@ == live_refusal(),
{
    if env == Environment::Live {
        return Err(
            TuxError::Config(
                "Live mode is disabled: finish risk validation before enabling real trading".to_owned(),
            ),
        );
    }
    Ok(())
}

} // verus!
