//! Order decisions and execution results.
//!
//! All prices, quantities, ratios and scores are fixed-point integers with
//! six fractional decimal digits (micro-units): `1_000_000` stands for one
//! whole unit, so a leverage of 2x is `2_000_000` and a 0.1% tolerance is
//! `1_000`.
use vstd::prelude::*;

use crate::enums::{Direction, OrderType, OrderStatus, Timeframe};
use crate::external::{current_millis, new_uuid_string};
use crate::gateway::PartialFill;

verus! {

/// One whole unit in the fixed-point encoding.
pub const MICRO: i64 = 1000000;

/// A trading order decision with its risk-management context.
#[derive(Debug)]
pub struct OrderDecision {
    pub decision_id: String,
    pub signal_id: String,
    pub symbol: String,
    /// Milliseconds since the Unix epoch.
    pub timestamp: u64,
    pub direction: Direction,
    pub order_type: OrderType,
    /// Micro-units.
    pub base_quantity: i64,
    pub risk_adjusted_quantity: i64,
    pub max_position_value: i64,
    pub entry_price: i64,
    pub stop_loss: i64,
    pub take_profit: Option<i64>,
    pub risk_amount: i64,
    /// Micro-percent: `2_000_000` is 2%.
    pub risk_percentage: i64,
    pub leverage: i64,
    pub portfolio_value: i64,
    pub available_margin: i64,
    /// Micro-fraction of the portfolio, 0 to one whole unit.
    pub current_exposure: i64,
    pub confidence_score: i64,
    pub confluence_score: i64,
    pub risk_reward_ratio: i64,
    pub slippage_tolerance: i64,
    /// Seconds.
    pub max_execution_time: u32,
    pub partial_fill_acceptable: bool,
    pub decision_reason: String,
    pub risk_factors: Vec<String>,
    pub supporting_factors: Vec<String>,
    pub timeframe_context: Timeframe,
    /// Opaque context carried through, not interpreted.
    pub market_conditions: Vec<(String, String)>,
}

/// The first rule an order decision violates, with its message; `None` when
/// every rule holds. The ratio rules are stated in their division-free
/// form, which is the same predicate since the divisors are positive where
/// the rule applies.
pub open spec fn spec_validation_error(d: OrderDecision) -> Option<Seq<char>> {
    if d.base_quantity <= 0 {
        Some("Base quantity must be positive"@)
    } else if d.risk_adjusted_quantity <= 0 {
        Some("Risk adjusted quantity must be positive"@)
    } else if d.max_position_value <= 0 {
        Some("Max position value must be positive"@)
    } else if d.entry_price <= 0 {
        Some("Entry price must be positive"@)
    } else if d.stop_loss <= 0 {
        Some("Stop loss must be positive"@)
    } else if d.take_profit matches Some(tp) && tp <= 0 {
        Some("Take profit must be positive"@)
    } else if d.risk_amount <= 0 {
        Some("Risk amount must be positive"@)
    } else if d.portfolio_value <= 0 {
        Some("Portfolio value must be positive"@)
    } else if d.risk_percentage < 0 || d.risk_percentage > 10 * MICRO {
        Some("Risk percentage must be between 0 and 10"@)
    } else if d.leverage <= 0 || d.leverage > 50 * MICRO {
        Some("Leverage must be between 0 (exclusive) and 50"@)
    } else if d.current_exposure < 0 || d.current_exposure > MICRO {
        Some("Current exposure must be between 0 and 1"@)
    } else if d.confidence_score < 0 || d.confidence_score > MICRO {
        Some("Confidence score must be between 0 and 1"@)
    } else if d.confluence_score < 0 || d.confluence_score > 100 * MICRO {
        Some("Confluence score must be between 0 and 100"@)
    } else if d.risk_reward_ratio <= 0 {
        Some("Risk reward ratio must be positive"@)
    } else if d.slippage_tolerance < 0 || d.slippage_tolerance * 10 > MICRO {
        Some("Slippage tolerance must be between 0 and 0.1"@)
    } else if d.risk_adjusted_quantity > 2 * d.base_quantity {
        Some("Risk adjusted quantity cannot exceed 2x base quantity"@)
    } else if 10 * d.risk_adjusted_quantity < d.base_quantity {
        Some("Risk adjusted quantity cannot be less than 10% of base"@)
    } else if d.risk_percentage + 100 * d.current_exposure > 20 * MICRO {
        Some("Total portfolio risk would exceed 20%"@)
    } else if d.leverage > 10 * MICRO {
        Some("Leverage cannot exceed 10x"@)
    } else if d.risk_percentage * d.leverage > 5 * MICRO * MICRO {
        Some("Risk percentage too high for leverage level"@)
    } else if d.direction is Long && d.stop_loss >= d.entry_price {
        Some("Stop loss must be below entry price for long positions"@)
    } else if d.direction is Short && d.stop_loss <= d.entry_price {
        Some("Stop loss must be above entry price for short positions"@)
    } else if 5 * (if d.stop_loss >= d.entry_price {
        d.stop_loss - d.entry_price
    } else {
        d.entry_price - d.stop_loss
    }) > d.entry_price {
        Some("Stop loss too far from entry (>20%)"@)
    } else if d.direction is Long && (d.take_profit matches Some(tp) && tp <= d.entry_price) {
        Some("Take profit must be above entry price for long positions"@)
    } else if d.direction is Short && (d.take_profit matches Some(tp) && tp >= d.entry_price) {
        Some("Take profit must be below entry price for short positions"@)
    } else {
        None
    }
}

/// Whether an order decision passes every validation rule.
pub open spec fn spec_decision_valid(d: OrderDecision) -> bool {
    spec_validation_error(d) is None
}

/// The total position value of a decision: quantity times entry price
/// times leverage, in micro-units.
pub open spec fn spec_position_value(d: OrderDecision) -> int {
    d.risk_adjusted_quantity * d.entry_price * d.leverage / (MICRO as int * MICRO as int)
}

/// The margin a decision requires: the position value divided by the
/// leverage, in micro-units.
pub open spec fn spec_margin_required(d: OrderDecision) -> int {
    spec_position_value(d) * MICRO as int / d.leverage as int
}

/// Bound on quantities, prices and values (a million whole units each)
/// under which the position-value arithmetic cannot overflow the machine
/// integers.
pub open spec fn spec_sizes_bounded(d: OrderDecision) -> bool {
    &&& 0 < d.risk_adjusted_quantity <= 1000000 * MICRO
    &&& 0 < d.entry_price <= 1000000 * MICRO
    &&& 0 < d.leverage <= 50 * MICRO
    &&& 0 < d.portfolio_value <= 1000000 * MICRO
}

impl OrderDecision {
    /// A fresh decision with a newly drawn id, stamped with the wall
    /// clock, carrying the library's defaults: a market order, long, 1x
    /// leverage, a 0.1% slippage tolerance, a five-minute execution
    /// window, and everything else zero or empty.
    pub fn new(signal_id: String, symbol: String) -> (r: Self)
        ensures
            r.decision_id@.len() == 36,
            crate::text::spec_is_uuid_shaped(r.decision_id@),
            r.signal_id == signal_id,
            r.symbol == symbol,
            r.direction is Long,
            r.order_type is Market,
            r.base_quantity == 0,
            r.risk_adjusted_quantity == 0,
            r.max_position_value == 0,
            r.entry_price == 0,
            r.stop_loss == 0,
            r.take_profit is None,
            r.risk_amount == 0,
            r.risk_percentage == 0,
            r.leverage == MICRO,
            r.portfolio_value == 0,
            r.available_margin == 0,
            r.current_exposure == 0,
            r.confidence_score == 0,
            r.confluence_score == 0,
            r.risk_reward_ratio == 0,
            r.slippage_tolerance == 1000,
            r.max_execution_time == 300,
            r.partial_fill_acceptable,
            r.decision_reason@.len() == 0,
            r.risk_factors@.len() == 0,
            r.supporting_factors@.len() == 0,
            r.timeframe_context is H1,
            r.market_conditions@.len() == 0,
    {
        OrderDecision {
            decision_id: new_uuid_string(),
            signal_id,
            symbol,
            timestamp: current_millis(),
            direction: Direction::Long,
            order_type: OrderType::Market,
            base_quantity: 0,
            risk_adjusted_quantity: 0,
            max_position_value: 0,
            entry_price: 0,
            stop_loss: 0,
            take_profit: None,
            risk_amount: 0,
            risk_percentage: 0,
            leverage: MICRO,
            portfolio_value: 0,
            available_margin: 0,
            current_exposure: 0,
            confidence_score: 0,
            confluence_score: 0,
            risk_reward_ratio: 0,
            slippage_tolerance: 1000,
            max_execution_time: 300,
            partial_fill_acceptable: true,
            decision_reason: String::new(),
            risk_factors: Vec::new(),
            supporting_factors: Vec::new(),
            timeframe_context: Timeframe::H1,
            market_conditions: Vec::new(),
        }
    }

    /// Check every validation rule, returning the first violation's
    /// message, exactly as `spec_validation_error` lists them.
    pub fn validate(&self) -> (r: Result<(), String>)
        ensures
            match r {
                Ok(()) => spec_decision_valid(*self),
                Err(m) => spec_validation_error(*self) matches Some(msg) && m@ == msg,
            },
    {
        if self.base_quantity <= 0 {
            return Err(String::from_str("Base quantity must be positive"));
        }
        if self.risk_adjusted_quantity <= 0 {
            return Err(String::from_str("Risk adjusted quantity must be positive"));
        }
        if self.max_position_value <= 0 {
            return Err(String::from_str("Max position value must be positive"));
        }
        if self.entry_price <= 0 {
            return Err(String::from_str("Entry price must be positive"));
        }
        if self.stop_loss <= 0 {
            return Err(String::from_str("Stop loss must be positive"));
        }
        if match self.take_profit {
            Some(tp) => tp <= 0,
            None => false,
        } {
            return Err(String::from_str("Take profit must be positive"));
        }
        if self.risk_amount <= 0 {
            return Err(String::from_str("Risk amount must be positive"));
        }
        if self.portfolio_value <= 0 {
            return Err(String::from_str("Portfolio value must be positive"));
        }
        if self.risk_percentage < 0 || self.risk_percentage > 10 * MICRO {
            return Err(String::from_str("Risk percentage must be between 0 and 10"));
        }
        if self.leverage <= 0 || self.leverage > 50 * MICRO {
            return Err(String::from_str("Leverage must be between 0 (exclusive) and 50"));
        }
        if self.current_exposure < 0 || self.current_exposure > MICRO {
            return Err(String::from_str("Current exposure must be between 0 and 1"));
        }
        if self.confidence_score < 0 || self.confidence_score > MICRO {
            return Err(String::from_str("Confidence score must be between 0 and 1"));
        }
        if self.confluence_score < 0 || self.confluence_score > 100 * MICRO {
            return Err(String::from_str("Confluence score must be between 0 and 100"));
        }
        if self.risk_reward_ratio <= 0 {
            return Err(String::from_str("Risk reward ratio must be positive"));
        }
        if self.slippage_tolerance < 0 || (self.slippage_tolerance as i128) * 10 > MICRO as i128 {
            return Err(String::from_str("Slippage tolerance must be between 0 and 0.1"));
        }
        if (self.risk_adjusted_quantity as i128) > 2 * (self.base_quantity as i128) {
            return Err(String::from_str("Risk adjusted quantity cannot exceed 2x base quantity"));
        }
        if 10 * (self.risk_adjusted_quantity as i128) < self.base_quantity as i128 {
            return Err(String::from_str("Risk adjusted quantity cannot be less than 10% of base"));
        }
        if (self.risk_percentage as i128) + 100 * (self.current_exposure as i128) > (20 * MICRO)
            as i128 {
            return Err(String::from_str("Total portfolio risk would exceed 20%"));
        }
        if self.leverage > 10 * MICRO {
            return Err(String::from_str("Leverage cannot exceed 10x"));
        }
        proof {
            assert(0 <= (self.risk_percentage as int) * (self.leverage as int)
                <= 500000000000000int) by (nonlinear_arith)
                requires
                    0 <= self.risk_percentage as int <= 10000000int,
                    0 < self.leverage as int <= 50000000int,
            ;
        }
        if (self.risk_percentage as i128) * (self.leverage as i128) > 5 * (MICRO as i128) * (
        MICRO as i128) {
            return Err(String::from_str("Risk percentage too high for leverage level"));
        }
        match self.direction {
            Direction::Long => {
                if self.stop_loss >= self.entry_price {
                    return Err(
                        String::from_str("Stop loss must be below entry price for long positions"),
                    );
                }
            },
            Direction::Short => {
                if self.stop_loss <= self.entry_price {
                    return Err(
                        String::from_str("Stop loss must be above entry price for short positions"),
                    );
                }
            },
        }
        let stop_distance: i128 = if self.stop_loss >= self.entry_price {
            self.stop_loss as i128 - self.entry_price as i128
        } else {
            self.entry_price as i128 - self.stop_loss as i128
        };
        if 5 * stop_distance > self.entry_price as i128 {
            return Err(String::from_str("Stop loss too far from entry (>20%)"));
        }
        match self.take_profit {
            Some(tp) => match self.direction {
                Direction::Long => {
                    if tp <= self.entry_price {
                        return Err(
                            String::from_str(
                                "Take profit must be above entry price for long positions",
                            ),
                        );
                    }
                },
                Direction::Short => {
                    if tp >= self.entry_price {
                        return Err(
                            String::from_str(
                                "Take profit must be below entry price for short positions",
                            ),
                        );
                    }
                },
            },
            None => {},
        }
        Ok(())
    }

    /// Total position value including leverage, in micro-units.
    pub fn calculate_position_value(&self) -> (r: i128)
        requires
            spec_sizes_bounded(*self),
        ensures
            r == spec_position_value(*self),
            0 <= r <= 50000000000000000000int,
    {
        proof {
            self.lemma_position_value_bounds();
        }
        let wide: i128 = (self.risk_adjusted_quantity as i128) * (self.entry_price as i128) * (
        self.leverage as i128) / ((MICRO as i128) * (MICRO as i128));
        wide
    }

    /// Under `spec_sizes_bounded`, the position-value products and the
    /// value itself stay within small, machine-representable bounds.
    proof fn lemma_position_value_bounds(&self)
        requires
            spec_sizes_bounded(*self),
        ensures
            0 <= (self.risk_adjusted_quantity as int) * (self.entry_price as int)
                <= 1000000000000000000000000int,
            0 <= (self.risk_adjusted_quantity as int) * (self.entry_price as int) * (
            self.leverage as int) <= 50000000000000000000000000000000int,
            0 <= spec_position_value(*self) <= 50000000000000000000int,
    {
        let q = self.risk_adjusted_quantity as int;
        let p = self.entry_price as int;
        let l = self.leverage as int;
        assert(0 <= q * p <= 1000000000000000000000000int) by (nonlinear_arith)
            requires
                0 < q <= 1000000000000int,
                0 < p <= 1000000000000int,
        ;
        assert(0 <= (q * p) * l <= 50000000000000000000000000000000int) by (nonlinear_arith)
            requires
                0 <= q * p <= 1000000000000000000000000int,
                0 < l <= 50000000int,
        ;
        vstd::arithmetic::div_mod::lemma_div_pos_is_pos(q * p * l, 1000000000000int);
        vstd::arithmetic::div_mod::lemma_div_is_ordered(
            q * p * l,
            50000000000000000000000000000000int,
            1000000000000int,
        );
        assert(50000000000000000000000000000000int / 1000000000000int
            == 50000000000000000000int);
    }

    /// Margin required for the position, in micro-units.
    pub fn calculate_margin_required(&self) -> (r: i128)
        requires
            spec_sizes_bounded(*self),
        ensures
            r == spec_margin_required(*self),
            0 <= r <= 50000000000000000000000000int,
    {
        let pv = self.calculate_position_value();
        let wide: i128 = pv * (MICRO as i128) / (self.leverage as i128);
        proof {
            vstd::arithmetic::div_mod::lemma_div_pos_is_pos(pv as int * 1000000, self.leverage as int);
            vstd::arithmetic::div_mod::lemma_div_is_ordered_by_denominator(
                pv as int * 1000000,
                1,
                self.leverage as int,
            );
        }
        wide
    }

    /// Whether the available margin covers the required margin.
    pub fn validate_margin_requirements(&self) -> (r: bool)
        requires
            spec_sizes_bounded(*self),
        ensures
            r == (self.available_margin >= spec_margin_required(*self)),
    {
        let required = self.calculate_margin_required();
        (self.available_margin as i128) >= required
    }

    /// The decision's risk metrics: position size as micro-percent of the
    /// portfolio, the raw risk figures, and margin utilisation as
    /// micro-percent of the available margin (zero when none is).
    pub fn get_risk_metrics(&self) -> (r: Vec<(String, i128)>)
        requires
            spec_sizes_bounded(*self),
            self.available_margin >= 0,
        ensures
            r@.len() == 6,
            r@[0].0@ == "position_size_pct"@ && r@[0].1 == spec_position_value(*self) * 100 * (
            MICRO as int) / (self.portfolio_value as int),
            r@[1].0@ == "risk_amount"@ && r@[1].1 == self.risk_amount,
            r@[2].0@ == "risk_percentage"@ && r@[2].1 == self.risk_percentage,
            r@[3].0@ == "leverage"@ && r@[3].1 == self.leverage,
            r@[4].0@ == "risk_reward_ratio"@ && r@[4].1 == self.risk_reward_ratio,
            r@[5].0@ == "margin_utilization"@ && r@[5].1 == (if self.available_margin > 0 {
                spec_margin_required(*self) * 100 * (MICRO as int) / (self.available_margin as int)
            } else {
                0int
            }),
    {
        let pv = self.calculate_position_value();
        let mr = self.calculate_margin_required();
        let size_wide: i128 = pv * 100 * (MICRO as i128) / (self.portfolio_value as i128);
        let util_wide: i128 = if self.available_margin > 0 {
            mr * 100 * (MICRO as i128) / (self.available_margin as i128)
        } else {
            0
        };
        let mut out: Vec<(String, i128)> = Vec::new();
        out.push((String::from_str("position_size_pct"), size_wide));
        out.push((String::from_str("risk_amount"), self.risk_amount as i128));
        out.push((String::from_str("risk_percentage"), self.risk_percentage as i128));
        out.push((String::from_str("leverage"), self.leverage as i128));
        out.push((String::from_str("risk_reward_ratio"), self.risk_reward_ratio as i128));
        out.push((String::from_str("margin_utilization"), util_wide));
        out
    }
}

/// The reported outcome of one order execution.
#[derive(Debug)]
pub struct ExecutionResult {
    pub execution_id: String,
    pub decision_id: String,
    pub order_id: String,
    pub status: OrderStatus,
    /// Micro-units.
    pub filled_quantity: i64,
    pub average_price: Option<i64>,
    /// Milliseconds since the Unix epoch.
    pub submitted_at: u64,
    pub filled_at: Option<u64>,
    pub commission: i64,
    pub slippage: Option<i64>,
    pub execution_time_ms: Option<u32>,
    pub partial_fills: Vec<PartialFill>,
    pub error_message: Option<String>,
    pub retry_count: u32,
}

/// The fill percentage in micro-percent: zero for a non-positive original
/// quantity, else the filled share of it scaled so that a full fill reads
/// one hundred units.
pub open spec fn spec_fill_percentage(filled: i64, original: i64) -> int {
    if original <= 0 {
        0
    } else {
        filled * 100 * (MICRO as int) / (original as int)
    }
}

impl ExecutionResult {
    /// A fresh pending result with a newly drawn execution id, stamped
    /// with the wall clock, nothing filled yet.
    pub fn new(decision_id: String, order_id: String) -> (r: Self)
        ensures
            r.execution_id@.len() == 36,
            crate::text::spec_is_uuid_shaped(r.execution_id@),
            r.decision_id == decision_id,
            r.order_id == order_id,
            r.status is Pending,
            r.filled_quantity == 0,
            r.average_price is None,
            r.filled_at is None,
            r.commission == 0,
            r.slippage is None,
            r.execution_time_ms is None,
            r.partial_fills@.len() == 0,
            r.error_message is None,
            r.retry_count == 0,
    {
        ExecutionResult {
            execution_id: new_uuid_string(),
            decision_id,
            order_id,
            status: OrderStatus::Pending,
            filled_quantity: 0,
            average_price: None,
            submitted_at: current_millis(),
            filled_at: None,
            commission: 0,
            slippage: None,
            execution_time_ms: None,
            partial_fills: Vec::new(),
            error_message: None,
            retry_count: 0,
        }
    }

    /// Whether the order filled completely.
    pub fn is_fully_filled(&self) -> (r: bool)
        ensures
            r == (self.status is Filled),
    {
        self.status == OrderStatus::Filled
    }

    /// Whether the order filled partially.
    pub fn is_partially_filled(&self) -> (r: bool)
        ensures
            r == (self.status is PartiallyFilled),
    {
        self.status == OrderStatus::PartiallyFilled
    }

    /// The filled share of the original quantity, in micro-percent.
    pub fn get_fill_percentage(&self, original_quantity: i64) -> (r: i64)
        requires
            0 <= self.filled_quantity <= original_quantity || original_quantity <= 0,
        ensures
            r == spec_fill_percentage(self.filled_quantity, original_quantity),
    {
        if original_quantity <= 0 {
            return 0;
        }
        let wide: i128 = (self.filled_quantity as i128) * 100 * (MICRO as i128) / (
        original_quantity as i128);
        proof {
            let f = self.filled_quantity as int;
            let q = original_quantity as int;
            vstd::arithmetic::div_mod::lemma_div_pos_is_pos(f * 100 * 1000000, q);
            vstd::arithmetic::div_mod::lemma_div_is_ordered(f * 100 * 1000000, q * 100000000, q);
            vstd::arithmetic::div_mod::lemma_div_multiples_vanish(100000000int, q);
        }
        wide as i64
    }
}

} // verus!
