//! The venue adapter abstraction: the operations every trading venue
//! offers, and a mock venue for tests. Prices and quantities are
//! micro-units.
use vstd::prelude::*;

use crate::enums::OrderStatus;
use crate::errors::TradingError;
use crate::external::{current_millis, new_uuid_string};
use crate::gateway::PartialFill;
use crate::types::OrderRequest;

verus! {

/// The outcome a venue reports for an order placement.
#[derive(Debug)]
pub struct AdapterOrderResult {
    pub order_id: String,
    pub status: OrderStatus,
    /// Micro-units.
    pub filled_quantity: i64,
    pub average_price: Option<i64>,
    pub commission: i64,
    /// Milliseconds since the Unix epoch.
    pub filled_at: Option<u64>,
    pub partial_fills: Vec<PartialFill>,
}

/// Trading rules and constraints of one venue.
#[derive(Debug)]
pub struct ExchangeInfo {
    pub name: String,
    /// Micro-units.
    pub tick_size: i64,
    pub lot_size: i64,
    pub min_order_size: i64,
    pub max_order_size: i64,
    pub min_price: i64,
    pub max_price: i64,
    pub trading_hours: Vec<TradingHours>,
    pub supported_order_types: Vec<String>,
}

/// One daily trading session of a venue.
#[derive(Debug)]
pub struct TradingHours {
    /// 0 is Sunday, 6 is Saturday.
    pub day_of_week: u8,
    pub open_time: String,
    pub close_time: String,
    pub timezone: String,
}

/// A price rounded to the venue's tick: the nearest multiple, halves up;
/// unchanged when the tick is not positive.
pub open spec fn spec_round_price(price: i64, tick_size: i64) -> int {
    if tick_size <= 0 {
        price as int
    } else {
        (price as int + tick_size as int / 2) / (tick_size as int) * (tick_size as int)
    }
}

/// A quantity rounded down to the venue's lot: the greatest multiple not
/// above it; unchanged when the lot is not positive.
pub open spec fn spec_round_quantity(quantity: i64, lot_size: i64) -> int {
    if lot_size <= 0 {
        quantity as int
    } else {
        quantity as int / (lot_size as int) * (lot_size as int)
    }
}

/// The operations a venue adapter offers. The network-facing calls carry
/// no promises here: what each venue returns is its own affair, and the
/// pipeline states what holds of every outcome. The two rounding helpers
/// are pure and every adapter must round the same way.
pub trait ExchangeAdapter: Sized {
    /// Trading rules of the venue for a symbol.
    fn get_exchange_info(&self, symbol: &str) -> Result<ExchangeInfo, TradingError>;

    /// Submit an order to the venue.
    fn place_order(&self, order: &OrderRequest) -> Result<AdapterOrderResult, TradingError>;

    /// Cancel an order on the venue.
    fn cancel_order(&self, order_id: &str) -> Result<(), TradingError>;

    /// Query an order's status on the venue.
    fn get_order_status(&self, order_id: &str) -> Result<OrderStatus, TradingError>;

    /// Change price or quantity of a resting order.
    fn amend_order(
        &self,
        order_id: &str,
        new_price: Option<i64>,
        new_quantity: Option<i64>,
    ) -> Result<(), TradingError>;

    /// Account balances and positions.
    fn get_account_info(&self) -> Result<AccountInfo, TradingError>;

    /// Check an order against the venue's size and price bounds.
    fn validate_order(&self, order: &OrderRequest) -> Result<(), TradingError>;

    /// Round a price to the venue tick, to the nearest multiple.
    fn round_price(&self, price: i64, tick_size: i64) -> (r: i64)
        requires
            0 <= price <= 1000000000000000,
            0 <= tick_size <= 1000000000000000,
        ensures
            r == spec_round_price(price, tick_size),
    ;

    /// Round a quantity down to the venue lot.
    fn round_quantity(&self, quantity: i64, lot_size: i64) -> (r: i64)
        requires
            0 <= quantity <= 1000000000000000,
            0 <= lot_size <= 1000000000000000,
        ensures
            r == spec_round_quantity(quantity, lot_size),
    ;
}

/// Account balances and positions on a venue, in micro-units.
#[derive(Debug)]
pub struct AccountInfo {
    pub account_id: String,
    pub total_balance: i64,
    pub available_balance: i64,
    pub margin_used: i64,
    pub margin_available: i64,
    pub positions: Vec<Position>,
}

/// One open position on a venue, in micro-units.
#[derive(Debug)]
pub struct Position {
    pub symbol: String,
    /// "long" or "short".
    pub side: String,
    pub size: i64,
    pub entry_price: i64,
    pub current_price: i64,
    pub unrealized_pnl: i64,
    pub margin_used: i64,
}


/// Whether the mock venue accepts an order against its configured size
/// and price bounds.
pub open spec fn spec_mock_accepts(info: ExchangeInfo, order: OrderRequest) -> bool {
    &&& info.min_order_size <= order.size <= info.max_order_size
    &&& (order.price matches Some(p) ==> info.min_price <= p <= info.max_price)
}

/// The price the mock venue trades at: the requested price when positive,
/// else zero.
pub open spec fn spec_mock_price(order: OrderRequest) -> i64 {
    match order.price {
        Some(p) => if p > 0 {
            p
        } else {
            0i64
        },
        None => 0i64,
    }
}

/// The size the mock venue charges commission on: the requested size,
/// floored at zero.
pub open spec fn spec_mock_fee_size(order: OrderRequest) -> i64 {
    if order.size > 0 {
        order.size
    } else {
        0i64
    }
}

/// The share of an order the mock venue reports as a partial fill, from
/// its configured micro-fraction (clamped to at most one whole unit).
pub open spec fn spec_mock_partial_quantity(size: i64, ratio: i64) -> int {
    let clamped = if ratio > 1000000 {
        1000000int
    } else {
        ratio as int
    };
    size * clamped / 1000000
}

/// A venue simulator: fills orders at the requested price, can be told to
/// fail every call, and can report a configured share of the order as a
/// partial fill.
#[derive(Debug)]
pub struct MockExchangeAdapter {
    pub exchange_info: ExchangeInfo,
    pub should_fail: bool,
    pub delay_ms: u64,
    /// Micro-fraction of the order quantity reported filled; zero fills
    /// everything.
    pub partial_fill_ratio: i64,
}

impl MockExchangeAdapter {
    /// A venue with millicent ticks, milli-unit lots, and wide price and
    /// size bounds, failing nothing and filling fully.
    pub fn new() -> (r: Self)
        ensures
            r.exchange_info.name@ == "MockExchange"@,
            r.exchange_info.tick_size == 10000,
            r.exchange_info.lot_size == 1000,
            r.exchange_info.min_order_size == 1000,
            r.exchange_info.max_order_size == 1000000000000000,
            r.exchange_info.min_price == 10000,
            r.exchange_info.max_price == 1000000000000,
            r.exchange_info.trading_hours@.len() == 1,
            r.exchange_info.supported_order_types@.len() == 4,
            !r.should_fail,
            r.delay_ms == 100,
            r.partial_fill_ratio == 0,
    {
        let mut trading_hours: Vec<TradingHours> = Vec::new();
        trading_hours.push(
            TradingHours {
                day_of_week: 1,
                open_time: String::from_str("00:00:00"),
                close_time: String::from_str("23:59:59"),
                timezone: String::from_str("UTC"),
            },
        );
        let mut supported_order_types: Vec<String> = Vec::new();
        supported_order_types.push(String::from_str("market"));
        supported_order_types.push(String::from_str("limit"));
        supported_order_types.push(String::from_str("stop_loss"));
        supported_order_types.push(String::from_str("take_profit"));
        MockExchangeAdapter {
            exchange_info: ExchangeInfo {
                name: String::from_str("MockExchange"),
                tick_size: 10000,
                lot_size: 1000,
                min_order_size: 1000,
                max_order_size: 1000000000000000,
                min_price: 10000,
                max_price: 1000000000000,
                trading_hours,
                supported_order_types,
            },
            should_fail: false,
            delay_ms: 100,
            partial_fill_ratio: 0,
        }
    }

    /// The same venue, told to fail (or not) every call.
    pub fn with_failure(self, should_fail: bool) -> (r: Self)
        ensures
            r.should_fail == should_fail,
            r.exchange_info == self.exchange_info,
            r.delay_ms == self.delay_ms,
            r.partial_fill_ratio == self.partial_fill_ratio,
    {
        MockExchangeAdapter { should_fail, ..self }
    }

    /// The same venue with another simulated latency.
    pub fn with_delay(self, delay_ms: u64) -> (r: Self)
        ensures
            r.delay_ms == delay_ms,
            r.exchange_info == self.exchange_info,
            r.should_fail == self.should_fail,
            r.partial_fill_ratio == self.partial_fill_ratio,
    {
        MockExchangeAdapter { delay_ms, ..self }
    }

    /// The same venue, reporting the given micro-fraction of each order as
    /// a partial fill (clamped between zero and one whole unit).
    pub fn with_partial_fills(self, ratio: i64) -> (r: Self)
        ensures
            r.partial_fill_ratio == if ratio < 0 {
                0int
            } else if ratio > 1000000 {
                1000000int
            } else {
                ratio as int
            },
            r.exchange_info == self.exchange_info,
            r.should_fail == self.should_fail,
            r.delay_ms == self.delay_ms,
    {
        let clamped: i64 = if ratio < 0 {
            0
        } else if ratio > 1000000 {
            1000000
        } else {
            ratio
        };
        MockExchangeAdapter { partial_fill_ratio: clamped, ..self }
    }
}

impl Default for MockExchangeAdapter {
    /// The stock mock venue.
    fn default() -> (r: Self)
        ensures
            !r.should_fail,
            r.partial_fill_ratio == 0,
    {
        Self::new()
    }
}

impl ExchangeAdapter for MockExchangeAdapter {
    fn get_exchange_info(&self, symbol: &str) -> (r: Result<ExchangeInfo, TradingError>)
        ensures
            r is Ok <==> !self.should_fail,
    {
        if self.should_fail {
            return Err(
                TradingError::ExecutionError {
                    message: String::from_str("Mock exchange info failure"),
                },
            );
        }
        Ok(self.copy_exchange_info())
    }

    fn place_order(&self, order: &OrderRequest) -> (r: Result<AdapterOrderResult, TradingError>)
        ensures
            self.should_fail ==> r is Err,
            !self.should_fail && !spec_mock_accepts(self.exchange_info, *order) ==> r is Err,
            !self.should_fail && spec_mock_accepts(self.exchange_info, *order) ==> (r matches Ok(
                res,
            ) && {
                let price = spec_mock_price(*order);
                let partial = if self.partial_fill_ratio > 0 && order.size > 0 {
                    spec_mock_partial_quantity(order.size, self.partial_fill_ratio)
                } else {
                    0int
                };
                &&& res.order_id@ == order.id@
                &&& res.average_price == order.price
                &&& res.filled_at is Some
                &&& res.commission == spec_mock_commission(
                    spec_mock_fee_size(*order),
                    spec_mock_price(*order),
                )
                &&& (partial > 0 ==> {
                    &&& res.status is PartiallyFilled
                    &&& res.filled_quantity == partial
                    &&& res.partial_fills@.len() == 1
                    &&& res.partial_fills@[0].quantity == partial
                    &&& res.partial_fills@[0].price == price
                    &&& res.partial_fills@[0].commission == spec_mock_commission(
                        res.partial_fills@[0].quantity,
                        price,
                    )
                    &&& res.partial_fills@[0].fill_id@.len() == 36
                })
                &&& (partial <= 0 ==> {
                    &&& res.status is Filled
                    &&& res.filled_quantity == order.size
                    &&& res.partial_fills@.len() == 0
                })
            }),
    {
        if self.should_fail {
            return Err(
                TradingError::ExecutionError {
                    message: String::from_str("Mock order placement failure"),
                },
            );
        }
        self.validate_order(order)?;
        let price: i64 = match order.price {
            Some(p) => if p > 0 {
                p
            } else {
                0
            },
            None => 0,
        };
        let fee_size: i64 = if order.size > 0 {
            order.size
        } else {
            0
        };
        let commission = mock_commission(fee_size, price);
        let mut result = AdapterOrderResult {
            order_id: order.id.clone(),
            status: OrderStatus::Filled,
            filled_quantity: order.size,
            average_price: order.price,
            commission,
            filled_at: Some(current_millis()),
            partial_fills: Vec::new(),
        };
        if self.partial_fill_ratio > 0 && order.size > 0 {
            let ratio: i64 = if self.partial_fill_ratio > 1000000 {
                1000000
            } else {
                self.partial_fill_ratio
            };
            proof {
                assert(0 <= order.size as int * ratio as int <= order.size as int * 1000000int)
                    by (nonlinear_arith)
                    requires
                        order.size as int > 0,
                        0 < ratio as int <= 1000000int,
                ;
            }
            let partial_quantity_wide: i128 = (order.size as i128) * (ratio as i128) / 1000000i128;
            proof {
                vstd::arithmetic::div_mod::lemma_div_pos_is_pos(
                    order.size as int * ratio as int,
                    1000000int,
                );
                vstd::arithmetic::div_mod::lemma_div_is_ordered(
                    order.size as int * ratio as int,
                    order.size as int * 1000000int,
                    1000000int,
                );
                vstd::arithmetic::div_mod::lemma_div_multiples_vanish(
                    order.size as int,
                    1000000int,
                );
            }
            let partial_quantity: i64 = partial_quantity_wide as i64;
            if partial_quantity > 0 {
                result.status = OrderStatus::PartiallyFilled;
                result.filled_quantity = partial_quantity;
                result.partial_fills.push(
                    PartialFill {
                        fill_id: new_uuid_string(),
                        quantity: partial_quantity,
                        price,
                        timestamp: current_millis(),
                        commission: mock_commission(partial_quantity, price),
                    },
                );
            }
        }
        Ok(result)
    }

    fn cancel_order(&self, order_id: &str) -> (r: Result<(), TradingError>)
        ensures
            r is Ok <==> !self.should_fail,
    {
        if self.should_fail {
            return Err(
                TradingError::ExecutionError {
                    message: String::from_str("Mock order cancellation failure"),
                },
            );
        }
        Ok(())
    }

    fn get_order_status(&self, order_id: &str) -> (r: Result<OrderStatus, TradingError>)
        ensures
            r is Ok <==> !self.should_fail,
            r matches Ok(s) ==> s is Filled,
    {
        if self.should_fail {
            return Err(
                TradingError::ExecutionError {
                    message: String::from_str("Mock order status failure"),
                },
            );
        }
        Ok(OrderStatus::Filled)
    }

    fn amend_order(
        &self,
        order_id: &str,
        new_price: Option<i64>,
        new_quantity: Option<i64>,
    ) -> (r: Result<(), TradingError>)
        ensures
            r is Ok <==> !self.should_fail,
    {
        if self.should_fail {
            return Err(
                TradingError::ExecutionError {
                    message: String::from_str("Mock order amendment failure"),
                },
            );
        }
        Ok(())
    }

    fn get_account_info(&self) -> (r: Result<AccountInfo, TradingError>)
        ensures
            r is Ok <==> !self.should_fail,
    {
        if self.should_fail {
            return Err(
                TradingError::ExecutionError {
                    message: String::from_str("Mock account info failure"),
                },
            );
        }
        Ok(
            AccountInfo {
                account_id: String::from_str("mock_account"),
                total_balance: 100000000000,
                available_balance: 90000000000,
                margin_used: 10000000000,
                margin_available: 90000000000,
                positions: Vec::new(),
            },
        )
    }

    fn validate_order(&self, order: &OrderRequest) -> (r: Result<(), TradingError>)
        ensures
            r is Ok <==> spec_mock_accepts(self.exchange_info, *order),
            r matches Err(e) ==> e is ExecutionError,
    {
        if order.size < self.exchange_info.min_order_size {
            return Err(
                TradingError::ExecutionError {
                    message: String::from_str("Order size below venue minimum"),
                },
            );
        }
        if order.size > self.exchange_info.max_order_size {
            return Err(
                TradingError::ExecutionError {
                    message: String::from_str("Order size above venue maximum"),
                },
            );
        }
        match order.price {
            Some(price) => {
                if price < self.exchange_info.min_price {
                    return Err(
                        TradingError::ExecutionError {
                            message: String::from_str("Order price below venue minimum"),
                        },
                    );
                }
                if price > self.exchange_info.max_price {
                    return Err(
                        TradingError::ExecutionError {
                            message: String::from_str("Order price above venue maximum"),
                        },
                    );
                }
            },
            None => {},
        }
        Ok(())
    }

    fn round_price(&self, price: i64, tick_size: i64) -> (r: i64) {
        if tick_size <= 0 {
            return price;
        }
        proof {
            vstd::arithmetic::div_mod::lemma_div_pos_is_pos(
                price as int + tick_size as int / 2,
                tick_size as int,
            );
            vstd::arithmetic::div_mod::lemma_div_is_ordered(
                price as int + tick_size as int / 2,
                2000000000000000int,
                tick_size as int,
            );
            assert((price as int + tick_size as int / 2) / (tick_size as int) * (tick_size as int)
                <= (price as int + tick_size as int / 2)) by (nonlinear_arith)
                requires
                    tick_size as int > 0,
                    (price as int + tick_size as int / 2) >= 0,
            ;
            assert((price as int + tick_size as int / 2) / (tick_size as int) * (tick_size as int)
                >= 0) by (nonlinear_arith)
                requires
                    tick_size as int > 0,
                    (price as int + tick_size as int / 2) / (tick_size as int) >= 0,
            ;
        }
        (price + tick_size / 2) / tick_size * tick_size
    }

    fn round_quantity(&self, quantity: i64, lot_size: i64) -> (r: i64) {
        if lot_size <= 0 {
            return quantity;
        }
        proof {
            vstd::arithmetic::div_mod::lemma_div_pos_is_pos(quantity as int, lot_size as int);
            assert(quantity as int / (lot_size as int) * (lot_size as int) <= quantity as int)
                by (nonlinear_arith)
                requires
                    lot_size as int > 0,
                    quantity as int >= 0,
            ;
            assert(quantity as int / (lot_size as int) * (lot_size as int) >= 0)
                by (nonlinear_arith)
                requires
                    lot_size as int > 0,
                    quantity as int / (lot_size as int) >= 0,
            ;
        }
        quantity / lot_size * lot_size
    }
}

/// The mock venue's commission: a tenth of a percent of the traded value,
/// saturating at the integer's width.
pub open spec fn spec_mock_commission(size: i64, price: i64) -> int {
    let value = size as int * price as int / 1000000 / 1000;
    if value > i64::MAX {
        i64::MAX as int
    } else {
        value
    }
}

/// A tenth of a percent of the traded value, in micro-units.
fn mock_commission(size: i64, price: i64) -> (r: i64)
    requires
        size >= 0,
        price >= 0,
    ensures
        r == spec_mock_commission(size, price),
{
    proof {
        assert(0 <= size as int * price as int
            <= 85070591730234615847396907784232501249int) by (nonlinear_arith)
            requires
                0 <= size as int <= 9223372036854775807int,
                0 <= price as int <= 9223372036854775807int,
        ;
        vstd::arithmetic::div_mod::lemma_div_pos_is_pos(size as int * price as int, 1000000int);
        vstd::arithmetic::div_mod::lemma_div_pos_is_pos(
            size as int * price as int / 1000000int,
            1000int,
        );
    }
    let wide: i128 = (size as i128) * (price as i128) / 1000000i128 / 1000i128;
    if wide > i64::MAX as i128 {
        i64::MAX
    } else {
        wide as i64
    }
}

impl MockExchangeAdapter {
    /// A field-for-field copy of the venue's exchange information.
    fn copy_exchange_info(&self) -> (r: ExchangeInfo)
        ensures
            r.name@ == self.exchange_info.name@,
            r.tick_size == self.exchange_info.tick_size,
            r.lot_size == self.exchange_info.lot_size,
            r.min_order_size == self.exchange_info.min_order_size,
            r.max_order_size == self.exchange_info.max_order_size,
            r.min_price == self.exchange_info.min_price,
            r.max_price == self.exchange_info.max_price,
            r.supported_order_types@.len() == self.exchange_info.supported_order_types@.len(),
    {
        let mut trading_hours: Vec<TradingHours> = Vec::new();
        let mut i: usize = 0;
        let n = self.exchange_info.trading_hours.len();
        while i < n
            invariant
                n == self.exchange_info.trading_hours@.len(),
                i <= n,
                trading_hours@.len() == i,
            decreases n - i,
        {
            let h = &self.exchange_info.trading_hours[i];
            trading_hours.push(
                TradingHours {
                    day_of_week: h.day_of_week,
                    open_time: h.open_time.clone(),
                    close_time: h.close_time.clone(),
                    timezone: h.timezone.clone(),
                },
            );
            i = i + 1;
        }
        let mut supported_order_types: Vec<String> = Vec::new();
        let mut j: usize = 0;
        let m = self.exchange_info.supported_order_types.len();
        while j < m
            invariant
                m == self.exchange_info.supported_order_types@.len(),
                j <= m,
                supported_order_types@.len() == j,
            decreases m - j,
        {
            supported_order_types.push(self.exchange_info.supported_order_types[j].clone());
            j = j + 1;
        }
        ExchangeInfo {
            name: self.exchange_info.name.clone(),
            tick_size: self.exchange_info.tick_size,
            lot_size: self.exchange_info.lot_size,
            min_order_size: self.exchange_info.min_order_size,
            max_order_size: self.exchange_info.max_order_size,
            min_price: self.exchange_info.min_price,
            max_price: self.exchange_info.max_price,
            trading_hours,
            supported_order_types,
        }
    }
}

} // verus!
