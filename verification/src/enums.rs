//! Trading enums shared across the models: timeframes, directions, order
//! kinds, order statuses, pattern kinds and market regimes.
use vstd::prelude::*;

use crate::text::str_eq;

verus! {

/// Chart timeframe of a bar or an analysis.
#[derive(Debug, Clone, Copy, PartialEq, Eq, Hash, Structural)]
pub enum Timeframe {
    M15,
    H1,
    H4,
    D1,
}

/// The canonical short name of a timeframe.
pub open spec fn spec_timeframe_as_str(t: Timeframe) -> Seq<char> {
    match t {
        Timeframe::M15 => "15m"@,
        Timeframe::H1 => "1h"@,
        Timeframe::H4 => "4h"@,
        Timeframe::D1 => "1d"@,
    }
}

/// The timeframe denoted by a short name, if any.
pub open spec fn spec_timeframe_from_str(s: Seq<char>) -> Option<Timeframe> {
    if s == "15m"@ {
        Some(Timeframe::M15)
    } else if s == "1h"@ {
        Some(Timeframe::H1)
    } else if s == "4h"@ {
        Some(Timeframe::H4)
    } else if s == "1d"@ {
        Some(Timeframe::D1)
    } else {
        None
    }
}

impl Timeframe {
    /// The canonical short name of this timeframe.
    pub fn as_str(&self) -> (r: &'static str)
        ensures
            r@ == spec_timeframe_as_str(*self),
    {
        match self {
            Timeframe::M15 => "15m",
            Timeframe::H1 => "1h",
            Timeframe::H4 => "4h",
            Timeframe::D1 => "1d",
        }
    }

    /// Parse a short name back into a timeframe.
    pub fn from_str(s: &str) -> (r: Option<Timeframe>)
        ensures
            r == spec_timeframe_from_str(s@),
    {
        if str_eq(s, "15m") {
            Some(Timeframe::M15)
        } else if str_eq(s, "1h") {
            Some(Timeframe::H1)
        } else if str_eq(s, "4h") {
            Some(Timeframe::H4)
        } else if str_eq(s, "1d") {
            Some(Timeframe::D1)
        } else {
            None
        }
    }
}

/// Parsing a timeframe's canonical name gives the timeframe back: the four
/// names are pairwise distinct, so the round trip is exact.
pub proof fn lemma_timeframe_round_trip(t: Timeframe)
    ensures
        spec_timeframe_from_str(spec_timeframe_as_str(t)) == Some(t),
{
    broadcast use vstd::string::group_string_axioms;

    reveal_strlit("15m");
    reveal_strlit("1h");
    reveal_strlit("4h");
    reveal_strlit("1d");
    assert("1h"@.len() == 2);
    assert("15m"@.len() == 3);
    match t {
        Timeframe::M15 => {
        },
        Timeframe::H1 => {
            assert("1h"@ != "15m"@);
        },
        Timeframe::H4 => {
            assert("4h"@ != "15m"@);
            assert("4h"@[0] == '4' && "1h"@[0] == '1');
            assert("4h"@ != "1h"@);
        },
        Timeframe::D1 => {
            assert("1d"@ != "15m"@);
            assert("1d"@[1] == 'd' && "1h"@[1] == 'h');
            assert("1d"@ != "1h"@);
            assert("1d"@[0] == '1' && "4h"@[0] == '4');
            assert("1d"@ != "4h"@);
        },
    }
}

/// What a strategy asks to be done.
#[derive(Debug, Clone, Copy, PartialEq, Eq, Structural)]
pub enum TradingAction {
    Buy,
    Sell,
    Hold,
    CloseLong,
    CloseShort,
}

/// Direction of a position.
#[derive(Debug, Clone, Copy, PartialEq, Eq, Structural)]
pub enum Direction {
    Long,
    Short,
}

/// Kind of order a decision asks for.
#[derive(Debug, Clone, Copy, PartialEq, Eq, Structural)]
pub enum OrderType {
    Market,
    Limit,
    Stop,
    StopLimit,
}

/// Status a venue reports for an order.
#[derive(Debug, Clone, Copy, PartialEq, Eq, Structural)]
pub enum OrderStatus {
    Pending,
    Open,
    Filled,
    PartiallyFilled,
    Cancelled,
    Rejected,
    Expired,
}

/// Kind of a detected chart pattern.
#[derive(Debug, Clone, Copy, PartialEq, Eq, Structural)]
pub enum PatternType {
    SupportResistance,
    Breakout,
    TrendReversal,
    PinBar,
    Engulfing,
    Doji,
    Divergence,
}

/// Broad market regime.
#[derive(Debug, Clone, Copy, PartialEq, Eq, Structural)]
pub enum MarketRegime {
    Bull,
    Bear,
    Sideways,
}

} // verus!
