//! Market data: OHLCV bars and indicator snapshots, with their validation
//! rules. Prices and indicator values are micro-units.
use vstd::prelude::*;

use crate::enums::Timeframe;
use crate::orders::MICRO;

verus! {

/// One OHLCV bar.
#[derive(Debug)]
pub struct MarketBar {
    pub symbol: String,
    pub timeframe: Timeframe,
    /// Milliseconds since the Unix epoch.
    pub timestamp: u64,
    /// Micro-units.
    pub open: i64,
    pub high: i64,
    pub low: i64,
    pub close: i64,
    pub volume: i64,
    pub quote_volume: Option<i64>,
    pub trades_count: Option<u64>,
    pub taker_buy_volume: Option<i64>,
}

/// The first rule a bar violates, with its message: prices positive, the
/// high the highest and the low the lowest of the four, volume not
/// negative.
pub open spec fn spec_bar_error(b: MarketBar) -> Option<Seq<char>> {
    if b.open <= 0 || b.high <= 0 || b.low <= 0 || b.close <= 0 {
        Some("All prices must be positive"@)
    } else if b.high < b.open || b.high < b.low || b.high < b.close {
        Some("High must be the highest price"@)
    } else if b.low > b.open || b.low > b.high || b.low > b.close {
        Some("Low must be the lowest price"@)
    } else if b.volume < 0 {
        Some("Volume must be non-negative"@)
    } else {
        None
    }
}

impl MarketBar {
    /// Check the OHLC relationships, returning the first violation's
    /// message, exactly as `spec_bar_error` lists them.
    pub fn validate(&self) -> (r: Result<(), String>)
        ensures
            match r {
                Ok(()) => spec_bar_error(*self) is None,
                Err(m) => spec_bar_error(*self) matches Some(msg) && m@ == msg,
            },
    {
        if self.open <= 0 || self.high <= 0 || self.low <= 0 || self.close <= 0 {
            return Err(String::from_str("All prices must be positive"));
        }
        if self.high < self.open || self.high < self.low || self.high < self.close {
            return Err(String::from_str("High must be the highest price"));
        }
        if self.low > self.open || self.low > self.high || self.low > self.close {
            return Err(String::from_str("Low must be the lowest price"));
        }
        if self.volume < 0 {
            return Err(String::from_str("Volume must be non-negative"));
        }
        Ok(())
    }
}

/// A snapshot of technical indicators at one instant. Every value is in
/// micro-units; oscillators run 0 to 100 whole units.
#[derive(Debug)]
pub struct IndicatorSnapshot {
    pub symbol: String,
    pub timeframe: Timeframe,
    /// Milliseconds since the Unix epoch.
    pub timestamp: u64,
    pub rsi: Option<i64>,
    pub ema_20: Option<i64>,
    pub ema_50: Option<i64>,
    pub ema_200: Option<i64>,
    pub macd_line: Option<i64>,
    pub macd_signal: Option<i64>,
    pub macd_histogram: Option<i64>,
    pub bb_upper: Option<i64>,
    pub bb_middle: Option<i64>,
    pub bb_lower: Option<i64>,
    pub bb_width: Option<i64>,
    pub atr: Option<i64>,
    pub volume_sma: Option<i64>,
    pub volume_profile: Option<Vec<(String, i64)>>,
    pub stoch_k: Option<i64>,
    pub stoch_d: Option<i64>,
    pub cci: Option<i64>,
    pub mfi: Option<i64>,
}

/// The first rule a snapshot violates, with its message: the oscillators
/// within 0 to 100, the Bollinger bands ordered, and the always-positive
/// indicators not negative.
pub open spec fn spec_snapshot_error(s: IndicatorSnapshot) -> Option<Seq<char>> {
    if s.rsi matches Some(v) && !(0 <= v <= 100 * MICRO) {
        Some("RSI must be between 0 and 100"@)
    } else if s.stoch_k matches Some(v) && !(0 <= v <= 100 * MICRO) {
        Some("Stochastic %K must be between 0 and 100"@)
    } else if s.stoch_d matches Some(v) && !(0 <= v <= 100 * MICRO) {
        Some("Stochastic %D must be between 0 and 100"@)
    } else if s.mfi matches Some(v) && !(0 <= v <= 100 * MICRO) {
        Some("MFI must be between 0 and 100"@)
    } else if s.bb_upper matches Some(u) && s.bb_middle matches Some(m) && s.bb_lower matches Some(
        l,
    ) && (u <= m || m <= l) {
        Some("Bollinger Bands must be ordered: upper > middle > lower"@)
    } else if s.atr matches Some(v) && v < 0 {
        Some("ATR must be non-negative"@)
    } else if s.volume_sma matches Some(v) && v < 0 {
        Some("Volume SMA must be non-negative"@)
    } else {
        None
    }
}

impl IndicatorSnapshot {
    /// Check the indicator ranges, returning the first violation's
    /// message, exactly as `spec_snapshot_error` lists them.
    pub fn validate(&self) -> (r: Result<(), String>)
        ensures
            match r {
                Ok(()) => spec_snapshot_error(*self) is None,
                Err(m) => spec_snapshot_error(*self) matches Some(msg) && m@ == msg,
            },
    {
        if match self.rsi {
            Some(v) => !(0 <= v && v <= 100 * MICRO),
            None => false,
        } {
            return Err(String::from_str("RSI must be between 0 and 100"));
        }
        if match self.stoch_k {
            Some(v) => !(0 <= v && v <= 100 * MICRO),
            None => false,
        } {
            return Err(String::from_str("Stochastic %K must be between 0 and 100"));
        }
        if match self.stoch_d {
            Some(v) => !(0 <= v && v <= 100 * MICRO),
            None => false,
        } {
            return Err(String::from_str("Stochastic %D must be between 0 and 100"));
        }
        if match self.mfi {
            Some(v) => !(0 <= v && v <= 100 * MICRO),
            None => false,
        } {
            return Err(String::from_str("MFI must be between 0 and 100"));
        }
        let bands_bad = match (&self.bb_upper, &self.bb_middle, &self.bb_lower) {
            (Some(u), Some(m), Some(l)) => *u <= *m || *m <= *l,
            _ => false,
        };
        if bands_bad {
            return Err(String::from_str("Bollinger Bands must be ordered: upper > middle > lower"));
        }
        if match self.atr {
            Some(v) => v < 0,
            None => false,
        } {
            return Err(String::from_str("ATR must be non-negative"));
        }
        if match self.volume_sma {
            Some(v) => v < 0,
            None => false,
        } {
            return Err(String::from_str("Volume SMA must be non-negative"));
        }
        Ok(())
    }
}

} // verus!
