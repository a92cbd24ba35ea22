//! What can go wrong.

use vstd::prelude::*;
use vstd::string::*;

use crate::text::{join2, join3, join4};

verus! {

#[derive(Debug)]
pub enum TuxError {
    Config(String),
    InvalidInstrument(String),
    InvalidOrder(String),
    IllegalOrderTransition { from: String, to: String },
    RiskRejected { rule: String, message: String },
    StaleMarketData { instrument: String },
    Exchange { venue: String, message: String },
    Storage(String),
    Other(String),
}

/// An error with its texts.
pub enum ErrorView {
    Config(Seq<char>),
    InvalidInstrument(Seq<char>),
    InvalidOrder(Seq<char>),
    IllegalOrderTransition { from: Seq<char>, to: Seq<char> },
    RiskRejected { rule: Seq<char>, message: Seq<char> },
    StaleMarketData { instrument: Seq<char> },
    Exchange { venue: Seq<char>, message: Seq<char> },
    Storage(Seq<char>),
    Other(Seq<char>),
}

impl View for TuxError {
    type V = ErrorView;

    open spec fn view(&self) -> ErrorView {
        match self {
            TuxError::Config(m) => ErrorView::Config(m@),
            TuxError::InvalidInstrument(m) => ErrorView::InvalidInstrument(m@),
            TuxError::InvalidOrder(m) => ErrorView::InvalidOrder(m@),
            TuxError::IllegalOrderTransition { from, to } => ErrorView::IllegalOrderTransition {
                from: from@,
                to: to@,
            },
            TuxError::RiskRejected { rule, message } => ErrorView::RiskRejected {
                rule: rule@,
                message: message@,
            },
            TuxError::StaleMarketData { instrument } => ErrorView::StaleMarketData {
                instrument: instrument@,
            },
            TuxError::Exchange { venue, message } => ErrorView::Exchange {
                venue: venue@,
                message: message@,
            },
            TuxError::Storage(m) => ErrorView::Storage(m@),
            TuxError::Other(m) => ErrorView::Other(m@),
        }
    }
}

impl ErrorView {
    /// The message that a user reads.
    pub open spec fn text(self) -> Seq<char> {
        match self {
            ErrorView::Config(m) => "invalid configuration: "@ + m,
            ErrorView::InvalidInstrument(m) => "invalid instrument: "@ + m,
            ErrorView::InvalidOrder(m) => "invalid order: "@ + m,
            ErrorView::IllegalOrderTransition { from, to } => "illegal order state transition: "@
                + from + " -> "@ + to,
            ErrorView::RiskRejected { rule, message } => "risk rejected ["@ + rule + "]: "@
                + message,
            ErrorView::StaleMarketData { instrument } => "stale or missing market data for "@
                + instrument,
            ErrorView::Exchange { venue, message } => venue + " exchange error: "@ + message,
            ErrorView::Storage(m) => "storage error: "@ + m,
            ErrorView::Other(m) => m,
        }
    }
}

impl TuxError {
    pub fn other(msg: &str) -> (r: Self)
        ensures
            r@ == ErrorView::Other(msg@),
    {
        TuxError::Other(msg.to_owned())
    }

    /// The message that a user reads.
    pub fn to_text(&self) -> (r: String)
        ensures
            r@ == self@.text(),
    {
        match self {
            TuxError::Config(m) => join2("invalid configuration: ", m.as_str()),
            TuxError::InvalidInstrument(m) => join2("invalid instrument: ", m.as_str()),
            TuxError::InvalidOrder(m) => join2("invalid order: ", m.as_str()),
            TuxError::IllegalOrderTransition { from, to } => join4(
                "illegal order state transition: ",
                from.as_str(),
                " -> ",
                to.as_str(),
            ),
            TuxError::RiskRejected { rule, message } => join4(
                "risk rejected [",
                rule.as_str(),
                "]: ",
                message.as_str(),
            ),
            TuxError::StaleMarketData { instrument } => join2(
                "stale or missing market data for ",
                instrument.as_str(),
            ),
            TuxError::Exchange { venue, message } => join3(
                venue.as_str(),
                " exchange error: ",
                message.as_str(),
            ),
            TuxError::Storage(m) => join2("storage error: ", m.as_str()),
            TuxError::Other(m) => m.clone(),
        }
    }
}

pub type Result<T> = core::result::Result<T, TuxError>;

/// Every message but a bare one says what kind of error it is, and each names
/// all of its parts.
pub proof fn law_message_names_its_parts(a: Seq<char>, b: Seq<char>)
    ensures
        ErrorView::Config(a).text() == "invalid configuration: "@ + a,
        ErrorView::InvalidInstrument(a).text() == "invalid instrument: "@ + a,
        ErrorView::InvalidOrder(a).text() == "invalid order: "@ + a,
        (ErrorView::IllegalOrderTransition { from: a, to: b }).text()
            == "illegal order state transition: "@ + a + " -> "@ + b,
        (ErrorView::RiskRejected { rule: a, message: b }).text() == "risk rejected ["@ + a + "]: "@
            + b,
        (ErrorView::StaleMarketData { instrument: a }).text()
            == "stale or missing market data for "@ + a,
        (ErrorView::Exchange { venue: a, message: b }).text() == a + " exchange error: "@ + b,
        ErrorView::Storage(a).text() == "storage error: "@ + a,
        ErrorView::Other(a).text() == a,
{
}

} // verus!
