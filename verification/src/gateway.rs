//! The execution gateway: the idempotent order-submission pipeline that
//! ties the dedup table, the per-venue circuit breakers, the retry engine
//! and the lifecycle manager together.
use vstd::prelude::*;

use crate::assoc::{find_index, has_key, index_of_key, keys_unique, lemma_index_of_key,
    value_of_key};
use crate::circuit_breaker::{CircuitBreaker, CircuitBreakerState};
use crate::enums::OrderStatus;
use crate::errors::TradingError;
use crate::exchange_adapter::{AdapterOrderResult, ExchangeAdapter};
use crate::external::{current_millis, new_uuid_string};
use crate::order_manager::{spec_valid_transition, OrderLifecycleState, OrderManager};
use crate::orders::{ExecutionResult, OrderDecision};
use crate::retry::{determine_retry_policy, min_of, spec_retry_policy, RetryLogic, RetryPolicy};
use crate::text::{is_uuid_shaped, spec_is_uuid_shaped};
use crate::types::{OrderRequest, OrderSide};

verus! {

/// Configuration of the execution gateway.
#[derive(Debug, Clone, Copy)]
pub struct GatewayConfig {
    pub max_retries: u32,
    pub base_retry_delay_ms: u64,
    pub max_retry_delay_ms: u64,
    pub circuit_breaker_failure_threshold: u32,
    pub circuit_breaker_recovery_timeout_ms: u64,
    pub order_timeout_ms: u64,
    pub max_concurrent_orders: usize,
    pub enable_partial_fills: bool,
}

impl Default for GatewayConfig {
    /// The stock configuration: three retries from 100 ms up to 5 s, a
    /// breaker that opens after five failures and probes after a minute,
    /// a 30 s order timeout, at most a hundred concurrent orders, and
    /// partial fills accepted.
    fn default() -> (r: Self)
        ensures
            r.max_retries == 3,
            r.base_retry_delay_ms == 100,
            r.max_retry_delay_ms == 5000,
            r.circuit_breaker_failure_threshold == 5,
            r.circuit_breaker_recovery_timeout_ms == 60000,
            r.order_timeout_ms == 30000,
            r.max_concurrent_orders == 100,
            r.enable_partial_fills,
    {
        GatewayConfig {
            max_retries: 3,
            base_retry_delay_ms: 100,
            max_retry_delay_ms: 5000,
            circuit_breaker_failure_threshold: 5,
            circuit_breaker_recovery_timeout_ms: 60000,
            order_timeout_ms: 30000,
            max_concurrent_orders: 100,
            enable_partial_fills: true,
        }
    }
}

/// Status of an order execution as the gateway tracks it.
#[derive(Debug, Clone, Copy, PartialEq, Eq, Structural)]
pub enum OrderExecutionStatus {
    Pending,
    Submitted,
    PartiallyFilled,
    Filled,
    Cancelled,
    Rejected,
    Failed,
}

/// One partial fill reported by a venue.
#[derive(Debug)]
pub struct PartialFill {
    pub fill_id: String,
    /// Micro-units; positive.
    pub quantity: i64,
    /// Micro-units; positive.
    pub price: i64,
    /// Milliseconds since the Unix epoch.
    pub timestamp: u64,
    /// Micro-units; never negative.
    pub commission: i64,
}


/// The largest total quantity one execution record tracks; fills beyond it
/// are refused so that the fixed-point sums stay in range.
pub const MAX_TRACKED_QUANTITY: i64 = 1000000000000000;

/// The sum of the fills' quantities.
pub open spec fn sum_fill_quantity(s: Seq<PartialFill>) -> int
    decreases s.len(),
{
    if s.len() == 0 {
        0
    } else {
        sum_fill_quantity(s.drop_last()) + s.last().quantity
    }
}

/// The sum of the fills' quantity-times-price values.
pub open spec fn sum_fill_value(s: Seq<PartialFill>) -> int
    decreases s.len(),
{
    if s.len() == 0 {
        0
    } else {
        sum_fill_value(s.drop_last()) + s.last().quantity * s.last().price
    }
}

/// No two fills share an id.
pub open spec fn fill_ids_unique(s: Seq<PartialFill>) -> bool {
    forall|i: int, j: int|
        0 <= i < j < s.len() ==> (#[trigger] s[i]).fill_id@ != (#[trigger] s[j]).fill_id@
}

/// Some fill carries the id.
pub open spec fn has_fill_id(s: Seq<PartialFill>, id: Seq<char>) -> bool {
    exists|i: int| 0 <= i < s.len() && (#[trigger] s[i]).fill_id@ == id
}

/// Every fill is structurally sound: positive quantity, a positive price
/// within the tracked range, and a non-negative commission.
pub open spec fn fills_sound(s: Seq<PartialFill>) -> bool {
    forall|i: int|
        0 <= i < s.len() ==> (#[trigger] s[i]).quantity > 0 && 0 < s[i].price
            <= MAX_TRACKED_QUANTITY && s[i].commission >= 0
}

/// Under sound fills, the quantity sum is positive once any fill exists
/// and the value sum is bounded by the quantity sum times the price cap.
proof fn lemma_fill_sums(s: Seq<PartialFill>)
    requires
        fills_sound(s),
    ensures
        sum_fill_quantity(s) >= s.len(),
        0 <= sum_fill_value(s) <= sum_fill_quantity(s) * (MAX_TRACKED_QUANTITY as int),
    decreases s.len(),
{
    if s.len() > 0 {
        assert(forall|i: int| 0 <= i < s.len() - 1 ==> s.drop_last()[i] == s[i]);
        lemma_fill_sums(s.drop_last());
        let f = s.last();
        assert(0 < f.quantity * f.price <= f.quantity * (MAX_TRACKED_QUANTITY as int))
            by (nonlinear_arith)
            requires
                f.quantity > 0,
                0 < f.price <= MAX_TRACKED_QUANTITY as int,
        ;
        assert((sum_fill_quantity(s.drop_last()) + f.quantity) * (MAX_TRACKED_QUANTITY as int)
            == sum_fill_quantity(s.drop_last()) * (MAX_TRACKED_QUANTITY as int) + f.quantity as int
            * (MAX_TRACKED_QUANTITY as int)) by (nonlinear_arith);
    }
}

/// One order execution as the gateway tracks it.
#[derive(Debug)]
pub struct OrderExecution {
    pub order_id: String,
    /// The client decision id this execution answers to.
    pub client_id: String,
    /// The execution id the first caller's result carried.
    pub execution_id: String,
    pub exchange: String,
    pub status: OrderExecutionStatus,
    /// The raw status the venue last reported (before projection).
    pub reported_status: OrderStatus,
    /// Milliseconds since the Unix epoch; creation is the submission
    /// instant.
    pub created_at: u64,
    pub updated_at: u64,
    /// The fill instant the venue last reported.
    pub filled_at: Option<u64>,
    pub retry_count: u32,
    pub partial_fills: Vec<PartialFill>,
    /// Micro-units; always the sum of the fills.
    pub total_filled: i64,
    pub average_price: Option<i64>,
    /// Micro-units: the commission the venue reported.
    pub commission: i64,
    /// Micro-units: the filled quantity the venue last reported (also
    /// covering full fills that carry no partial-fill entries).
    pub reported_filled: i64,
    /// The average price the venue last reported.
    pub reported_price: Option<i64>,
    /// Micro-units: the quantity the decision asked for (clamped to the
    /// tracked range); reported fills beyond it are refused.
    pub quantity_cap: i64,
}

impl OrderExecution {
    /// Fill conservation and soundness: the tracked total is exactly the
    /// sum of the recorded fills, the fills are sound with unique ids, the
    /// total stays within the tracked range, and the average price is the
    /// volume-weighted mean of the fills (absent while nothing is filled).
    pub open spec fn wf(self) -> bool {
        &&& fill_ids_unique(self.partial_fills@)
        &&& fills_sound(self.partial_fills@)
        &&& self.total_filled as int == sum_fill_quantity(self.partial_fills@)
        &&& 0 <= self.total_filled <= self.quantity_cap <= MAX_TRACKED_QUANTITY
        &&& (self.total_filled == 0 ==> self.average_price is None)
        &&& (self.total_filled > 0 ==> (self.average_price matches Some(ap) && ap as int
            == sum_fill_value(self.partial_fills@) / sum_fill_quantity(self.partial_fills@)))
        &&& self.created_at <= self.updated_at
    }
}

/// Whether a reported fill is taken into a record with the given fills:
/// its id must be new, its quantity positive, its price positive and in
/// range, its commission non-negative, and the total must stay within the
/// record's quantity cap, so fills never exceed the requested quantity.
pub open spec fn fill_acceptable(s: Seq<PartialFill>, f: PartialFill, quantity_cap: i64) -> bool {
    &&& !has_fill_id(s, f.fill_id@)
    &&& f.quantity > 0
    &&& 0 < f.price <= MAX_TRACKED_QUANTITY
    &&& f.commission >= 0
    &&& sum_fill_quantity(s) + f.quantity <= quantity_cap
}

/// The fill list after reconciling a reported batch, in report order:
/// each acceptable fill is appended, the rest are discarded.
pub open spec fn spec_merge_fills(
    s: Seq<PartialFill>,
    fills: Seq<PartialFill>,
    quantity_cap: i64,
) -> Seq<PartialFill>
    decreases fills.len(),
{
    if fills.len() == 0 {
        s
    } else {
        let next = if fill_acceptable(s, fills[0], quantity_cap) {
            s.push(fills[0])
        } else {
            s
        };
        spec_merge_fills(next, fills.drop_first(), quantity_cap)
    }
}

/// Reconciliation preserves soundness, id uniqueness and the range bound.
proof fn lemma_merge_fills_wf(s: Seq<PartialFill>, fills: Seq<PartialFill>, quantity_cap: i64)
    requires
        fill_ids_unique(s),
        fills_sound(s),
        quantity_cap <= MAX_TRACKED_QUANTITY,
        sum_fill_quantity(s) <= quantity_cap as int,
        0 <= sum_fill_quantity(s),
    ensures
        fill_ids_unique(spec_merge_fills(s, fills, quantity_cap)),
        fills_sound(spec_merge_fills(s, fills, quantity_cap)),
        sum_fill_quantity(s) <= sum_fill_quantity(spec_merge_fills(s, fills, quantity_cap))
            <= quantity_cap as int,
    decreases fills.len(),
{
    if fills.len() > 0 {
        let f = fills[0];
        if fill_acceptable(s, f, quantity_cap) {
            let next = s.push(f);
            assert(next.drop_last() =~= s);
            assert(forall|i: int| 0 <= i < s.len() ==> next[i] == s[i]);
            assert(fill_ids_unique(next));
            assert(fills_sound(next));
            lemma_merge_fills_wf(next, fills.drop_first(), quantity_cap);
        } else {
            lemma_merge_fills_wf(s, fills.drop_first(), quantity_cap);
        }
    }
}

/// Reconcile a reported batch of fills into an execution record: every
/// acceptable fill is appended in report order, the total is kept equal to
/// the sum of the recorded fills, the average price is recomputed from the
/// whole list, and the update stamp moves forward.
pub fn apply_partial_fills(exec: &mut OrderExecution, fills: &Vec<PartialFill>, now_ms: u64)
    requires
        old(exec).wf(),
    ensures
        final(exec).wf(),
        final(exec).partial_fills@ == spec_merge_fills(
            old(exec).partial_fills@,
            fills@,
            old(exec).quantity_cap,
        ),
        final(exec).quantity_cap == old(exec).quantity_cap,
        final(exec).order_id == old(exec).order_id,
        final(exec).client_id == old(exec).client_id,
        final(exec).execution_id == old(exec).execution_id,
        final(exec).exchange == old(exec).exchange,
        final(exec).status == old(exec).status,
        final(exec).reported_status == old(exec).reported_status,
        final(exec).created_at == old(exec).created_at,
        final(exec).filled_at == old(exec).filled_at,
        final(exec).retry_count == old(exec).retry_count,
        final(exec).commission == old(exec).commission,
        final(exec).reported_filled == old(exec).reported_filled,
        final(exec).reported_price == old(exec).reported_price,
        final(exec).updated_at == if now_ms > old(exec).updated_at {
            now_ms
        } else {
            old(exec).updated_at
        },
{
    let n = fills.len();
    let mut i: usize = 0;
    proof {
        assert(fills@.subrange(0, n as int) =~= fills@);
    }
    while i < n
        invariant
            n == fills@.len(),
            i <= n,
            exec.wf(),
            exec.order_id == old(exec).order_id,
            exec.client_id == old(exec).client_id,
            exec.execution_id == old(exec).execution_id,
            exec.exchange == old(exec).exchange,
            exec.status == old(exec).status,
            exec.reported_status == old(exec).reported_status,
            exec.created_at == old(exec).created_at,
            exec.filled_at == old(exec).filled_at,
            exec.retry_count == old(exec).retry_count,
            exec.commission == old(exec).commission,
            exec.reported_filled == old(exec).reported_filled,
            exec.reported_price == old(exec).reported_price,
            exec.quantity_cap == old(exec).quantity_cap,
            exec.updated_at == old(exec).updated_at,
            spec_merge_fills(old(exec).partial_fills@, fills@, old(exec).quantity_cap)
                == spec_merge_fills(
                exec.partial_fills@,
                fills@.subrange(i as int, n as int),
                old(exec).quantity_cap,
            ),
        decreases n - i,
    {
        let ghost tail = fills@.subrange(i as int, n as int);
        let ghost cur = exec.partial_fills@;
        proof {
            assert(tail[0] == fills@[i as int]);
            assert(tail.drop_first() =~= fills@.subrange(i as int + 1, n as int));
        }
        let f = &fills[i];
        let duplicate = has_fill_with_id(&exec.partial_fills, f.fill_id.as_str());
        let acceptable = !duplicate && f.quantity > 0 && 0 < f.price && f.price
            <= MAX_TRACKED_QUANTITY && f.commission >= 0 && exec.total_filled
            <= exec.quantity_cap - f.quantity;
        if acceptable {
            let copied = PartialFill {
                fill_id: f.fill_id.clone(),
                quantity: f.quantity,
                price: f.price,
                timestamp: f.timestamp,
                commission: f.commission,
            };
            proof {
                assert(copied == fills@[i as int]);
                assert(fill_acceptable(cur, fills@[i as int], exec.quantity_cap));
            }
            exec.partial_fills.push(copied);
            exec.total_filled = exec.total_filled + f.quantity;
            proof {
                assert(exec.partial_fills@.drop_last() =~= cur);
                assert(forall|x: int| 0 <= x < cur.len() ==> exec.partial_fills@[x] == cur[x]);
            }
        } else {
            proof {
                assert(!fill_acceptable(cur, fills@[i as int], exec.quantity_cap));
            }
        }
        if exec.total_filled > 0 {
            let avg = weighted_average(&exec.partial_fills);
            exec.average_price = Some(avg);
        }
        i = i + 1;
    }
    proof {
        assert(fills@.subrange(n as int, n as int).len() == 0);
    }
    if now_ms > exec.updated_at {
        exec.updated_at = now_ms;
    }
}

/// Whether any recorded fill carries the id.
fn has_fill_with_id(fills: &Vec<PartialFill>, id: &str) -> (r: bool)
    ensures
        r == has_fill_id(fills@, id@),
{
    let n = fills.len();
    let mut i: usize = 0;
    while i < n
        invariant
            n == fills@.len(),
            i <= n,
            forall|j: int| 0 <= j < i ==> (#[trigger] fills@[j]).fill_id@ != id@,
        decreases n - i,
    {
        if crate::text::str_eq(fills[i].fill_id.as_str(), id) {
            return true;
        }
        i = i + 1;
    }
    false
}

/// The volume-weighted average price over a non-empty list of sound
/// fills, recomputed from the ground truth.
fn weighted_average(fills: &Vec<PartialFill>) -> (r: i64)
    requires
        fills_sound(fills@),
        fills@.len() > 0,
        sum_fill_quantity(fills@) <= MAX_TRACKED_QUANTITY as int,
    ensures
        r as int == sum_fill_value(fills@) / sum_fill_quantity(fills@),
{
    let n = fills.len();
    let mut sum_q: i64 = 0;
    let mut sum_v: i128 = 0;
    let mut i: usize = 0;
    proof {
        assert(fills@.subrange(0, 0) =~= Seq::<PartialFill>::empty());
    }
    while i < n
        invariant
            n == fills@.len(),
            i <= n,
            fills_sound(fills@),
            sum_fill_quantity(fills@) <= MAX_TRACKED_QUANTITY as int,
            sum_q as int == sum_fill_quantity(fills@.subrange(0, i as int)),
            sum_v as int == sum_fill_value(fills@.subrange(0, i as int)),
            0 <= sum_q as int <= MAX_TRACKED_QUANTITY as int,
            0 <= sum_v as int <= sum_q as int * (MAX_TRACKED_QUANTITY as int),
        decreases n - i,
    {
        let ghost prefix = fills@.subrange(0, i as int);
        let ghost next_prefix = fills@.subrange(0, i as int + 1);
        proof {
            assert(next_prefix.drop_last() =~= prefix);
            assert(next_prefix.last() == fills@[i as int]);
            assert(forall|x: int| 0 <= x < i + 1 ==> next_prefix[x] == fills@[x]);
            assert(fills_sound(next_prefix));
            lemma_fill_sums(next_prefix);
            assert(sum_fill_quantity(next_prefix) <= sum_fill_quantity(fills@)) by {
                lemma_sum_quantity_prefix_le(fills@, i as int + 1);
            }
            let f = fills@[i as int];
            assert(0 < f.quantity * f.price <= f.quantity * (MAX_TRACKED_QUANTITY as int))
                by (nonlinear_arith)
                requires
                    f.quantity > 0,
                    0 < f.price <= MAX_TRACKED_QUANTITY as int,
            ;
            assert((sum_fill_quantity(prefix) + f.quantity) * (MAX_TRACKED_QUANTITY as int)
                == sum_fill_quantity(prefix) * (MAX_TRACKED_QUANTITY as int) + f.quantity as int
                * (MAX_TRACKED_QUANTITY as int)) by (nonlinear_arith);
        }
        let f = &fills[i];
        sum_v = sum_v + (f.quantity as i128) * (f.price as i128);
        sum_q = sum_q + f.quantity;
        i = i + 1;
    }
    proof {
        assert(fills@.subrange(0, n as int) =~= fills@);
        lemma_fill_sums(fills@);
        vstd::arithmetic::div_mod::lemma_div_pos_is_pos(sum_v as int, sum_q as int);
        vstd::arithmetic::div_mod::lemma_div_is_ordered(
            sum_v as int,
            sum_q as int * (MAX_TRACKED_QUANTITY as int),
            sum_q as int,
        );
        vstd::arithmetic::div_mod::lemma_div_multiples_vanish(
            MAX_TRACKED_QUANTITY as int,
            sum_q as int,
        );
    }
    let avg: i128 = sum_v / (sum_q as i128);
    avg as i64
}

/// A prefix's quantity sum never exceeds the whole sequence's, for sound
/// fills.
proof fn lemma_sum_quantity_prefix_le(s: Seq<PartialFill>, k: int)
    requires
        fills_sound(s),
        0 <= k <= s.len(),
    ensures
        sum_fill_quantity(s.subrange(0, k)) <= sum_fill_quantity(s),
    decreases s.len() - k,
{
    if k < s.len() {
        assert(s.subrange(0, k + 1).drop_last() =~= s.subrange(0, k));
        assert(s.subrange(0, k + 1).last() == s[k]);
        lemma_sum_quantity_prefix_le(s, k + 1);
        assert(s.subrange(0, s.len() as int) =~= s);
    } else {
        assert(s.subrange(0, k) =~= s);
    }
}



/// One step of a host-paced submission: either the outcome settled, or
/// the venue failed retryably and should be tried again after sleeping
/// the returned backoff delay.
#[derive(Debug)]
pub enum SubmissionStep {
    /// The submission finished with this outcome.
    Settled(Result<ExecutionResult, TradingError>),
    /// Retry after this many milliseconds of backoff.
    RetryAfter(u64),
}

/// The execution status a venue-reported order status projects to: a
/// pending or resting order counts as submitted.
pub open spec fn spec_exec_status_of(status: OrderStatus) -> OrderExecutionStatus {
    match status {
        OrderStatus::Pending => OrderExecutionStatus::Submitted,
        OrderStatus::Open => OrderExecutionStatus::Submitted,
        OrderStatus::PartiallyFilled => OrderExecutionStatus::PartiallyFilled,
        OrderStatus::Filled => OrderExecutionStatus::Filled,
        OrderStatus::Cancelled => OrderExecutionStatus::Cancelled,
        OrderStatus::Rejected => OrderExecutionStatus::Rejected,
        OrderStatus::Expired => OrderExecutionStatus::Cancelled,
    }
}

/// Project a venue-reported order status onto the gateway's view.
pub fn exec_status_of(status: OrderStatus) -> (r: OrderExecutionStatus)
    ensures
        r == spec_exec_status_of(status),
{
    match status {
        OrderStatus::Pending => OrderExecutionStatus::Submitted,
        OrderStatus::Open => OrderExecutionStatus::Submitted,
        OrderStatus::PartiallyFilled => OrderExecutionStatus::PartiallyFilled,
        OrderStatus::Filled => OrderExecutionStatus::Filled,
        OrderStatus::Cancelled => OrderExecutionStatus::Cancelled,
        OrderStatus::Rejected => OrderExecutionStatus::Rejected,
        OrderStatus::Expired => OrderExecutionStatus::Cancelled,
    }
}

/// Whether an execution status is terminal for the janitor: nothing more
/// will happen to such an order.
pub open spec fn spec_exec_status_terminal(s: OrderExecutionStatus) -> bool {
    match s {
        OrderExecutionStatus::Filled => true,
        OrderExecutionStatus::Cancelled => true,
        OrderExecutionStatus::Rejected => true,
        OrderExecutionStatus::Failed => true,
        _ => false,
    }
}

/// The execution status a lifecycle state projects to when a status query
/// answers from the lifecycle table.
pub open spec fn spec_exec_status_of_lifecycle(s: OrderLifecycleState) -> OrderExecutionStatus {
    match s {
        OrderLifecycleState::Created => OrderExecutionStatus::Pending,
        OrderLifecycleState::Validated => OrderExecutionStatus::Pending,
        OrderLifecycleState::Submitted => OrderExecutionStatus::Submitted,
        OrderLifecycleState::Acknowledged => OrderExecutionStatus::Submitted,
        OrderLifecycleState::PartiallyFilled => OrderExecutionStatus::PartiallyFilled,
        OrderLifecycleState::Filled => OrderExecutionStatus::Filled,
        OrderLifecycleState::Cancelled => OrderExecutionStatus::Cancelled,
        OrderLifecycleState::Rejected => OrderExecutionStatus::Rejected,
        OrderLifecycleState::Expired => OrderExecutionStatus::Cancelled,
        OrderLifecycleState::Failed => OrderExecutionStatus::Failed,
    }
}




/// The keyed table `post` relates to `pre` as one upsert under `name`:
/// every entry of `pre` keeps its key, entries under other keys are
/// unchanged, and any appended entries carry `name`.
pub open spec fn adapter_tables_related<A>(
    pre: Seq<(String, A)>,
    post: Seq<(String, A)>,
    name: Seq<char>,
) -> bool {
    &&& post.len() >= pre.len()
    &&& forall|j: int| 0 <= j < pre.len() ==> (#[trigger] post[j]).0@ == pre[j].0@
    &&& forall|j: int|
        0 <= j < pre.len() && (#[trigger] pre[j]).0@ != name ==> post[j] == pre[j]
    &&& forall|j: int| pre.len() <= j < post.len() ==> (#[trigger] post[j]).0@ == name
}

/// The same relation for the breaker table.
pub open spec fn breaker_tables_related(
    pre: Seq<(String, CircuitBreaker)>,
    post: Seq<(String, CircuitBreaker)>,
    name: Seq<char>,
) -> bool {
    adapter_tables_related(pre, post, name)
}

/// An upsert under one name leaves every other key's presence and value
/// alone.
proof fn lemma_tables_related_frame_a<A>(
    pre: Seq<(String, A)>,
    post: Seq<(String, A)>,
    name: Seq<char>,
)
    requires
        keys_unique(pre),
        keys_unique(post),
        adapter_tables_related(pre, post, name),
    ensures
        forall|k: Seq<char>|
            k != name ==> (#[trigger] has_key(post, k) == has_key(pre, k) && (has_key(pre, k)
                ==> value_of_key(post, k) == value_of_key(pre, k))),
{
    assert forall|k: Seq<char>| k != name implies (#[trigger] has_key(post, k) == has_key(pre, k)
        && (has_key(pre, k) ==> value_of_key(post, k) == value_of_key(pre, k))) by {
        if has_key(pre, k) {
            lemma_index_of_key(pre, k);
            let j = index_of_key(pre, k);
            assert(post[j] == pre[j]);
            assert(has_key(post, k));
            lemma_index_of_key(post, k);
        } else if has_key(post, k) {
            lemma_index_of_key(post, k);
            let j = index_of_key(post, k);
            if j < pre.len() {
                assert(pre[j].0@ == k);
                assert(has_key(pre, k));
            } else {
                assert(post[j].0@ == name);
            }
        }
    }
}

/// The breaker-table instance of the upsert frame.
proof fn lemma_tables_related_frame_b(
    pre: Seq<(String, CircuitBreaker)>,
    post: Seq<(String, CircuitBreaker)>,
    name: Seq<char>,
)
    requires
        keys_unique(pre),
        keys_unique(post),
        breaker_tables_related(pre, post, name),
    ensures
        forall|k: Seq<char>|
            k != name ==> (#[trigger] has_key(post, k) == has_key(pre, k) && (has_key(pre, k)
                ==> value_of_key(post, k) == value_of_key(pre, k))),
{
    lemma_tables_related_frame_a(pre, post, name);
}

/// The fill cap a decision's record gets: its requested quantity, clamped
/// into the tracked range.
pub open spec fn spec_quantity_cap(requested: i64) -> i64 {
    if requested < 0 {
        0i64
    } else if requested > MAX_TRACKED_QUANTITY {
        MAX_TRACKED_QUANTITY
    } else {
        requested
    }
}
/// The order execution gateway: adapters and circuit breakers per venue,
/// the dedup table that makes submission idempotent, the per-order
/// execution records, and the lifecycle manager.
pub struct ExecutionGateway<A: ExchangeAdapter> {
    config: GatewayConfig,
    order_manager: OrderManager,
    exchange_adapters: Vec<(String, A)>,
    circuit_breakers: Vec<(String, CircuitBreaker)>,
    retry_logic: RetryLogic,
    active_orders: Vec<(String, OrderExecution)>,
    order_deduplication: Vec<(String, String)>,
    adapter_invocations: u64,
}

impl<A: ExchangeAdapter> ExecutionGateway<A> {
    pub closed spec fn spec_config(&self) -> GatewayConfig {
        self.config
    }

    pub closed spec fn spec_manager(&self) -> OrderManager {
        self.order_manager
    }

    pub closed spec fn spec_adapters(&self) -> Seq<(String, A)> {
        self.exchange_adapters@
    }

    pub closed spec fn spec_breakers(&self) -> Seq<(String, CircuitBreaker)> {
        self.circuit_breakers@
    }

    pub closed spec fn spec_active_orders(&self) -> Seq<(String, OrderExecution)> {
        self.active_orders@
    }

    pub closed spec fn spec_dedup(&self) -> Seq<(String, String)> {
        self.order_deduplication@
    }

    /// How many times the gateway has invoked an adapter's order
    /// placement since construction.
    pub closed spec fn spec_adapter_invocations(&self) -> u64 {
        self.adapter_invocations
    }

    pub closed spec fn spec_retry_config(&self) -> RetryLogic {
        self.retry_logic
    }

    /// The dedup entry at `i` has a matching execution record under the
    /// same client decision id, pointing at the same order.
    pub open spec fn dedup_entry_matches(&self, i: int) -> bool {
        exists|j: int|
            0 <= j < self.spec_active_orders().len() && (#[trigger] self.spec_active_orders()[j]).0@
                == self.spec_dedup()[i].0@ && self.spec_active_orders()[j].1.order_id@
                == self.spec_dedup()[i].1@
    }

    /// The execution and dedup tables are sound: unique keys, sound
    /// records stored under their own client decision id, a dedup entry
    /// for each tracked order and a tracked order for each dedup entry.
    pub open spec fn wf_tables(&self) -> bool {
        &&& keys_unique(self.spec_active_orders())
        &&& keys_unique(self.spec_dedup())
        &&& forall|i: int|
            0 <= i < self.spec_active_orders().len() ==> (
            #[trigger] self.spec_active_orders()[i]).1.wf()
        &&& forall|i: int|
            0 <= i < self.spec_active_orders().len() ==> (
            #[trigger] self.spec_active_orders()[i]).1.client_id@
                == self.spec_active_orders()[i].0@
        &&& forall|i: int| 0 <= i < self.spec_dedup().len() ==> #[trigger] self.dedup_entry_matches(i)
        &&& forall|i: int|
            0 <= i < self.spec_active_orders().len() ==> has_key(
                self.spec_dedup(),
                (#[trigger] self.spec_active_orders()[i]).0@,
            )
    }

    /// Well-formedness: unique keys everywhere, sound tables, a
    /// well-formed lifecycle manager, and a retry engine that agrees with
    /// the configuration.
    pub open spec fn wf(&self) -> bool {
        &&& keys_unique(self.spec_adapters())
        &&& keys_unique(self.spec_breakers())
        &&& self.wf_tables()
        &&& self.spec_manager().wf()
        &&& self.spec_retry_config().spec_max_retries() == self.spec_config().max_retries
        &&& self.spec_retry_config().spec_base_delay_ms() == self.spec_config().base_retry_delay_ms
        &&& self.spec_retry_config().spec_max_delay_ms() == self.spec_config().max_retry_delay_ms
    }

    /// Table soundness carries over to any state with the same tables.
    proof fn lemma_tables_preserved(pre: Self, post: Self)
        requires
            pre.wf_tables(),
            post.spec_active_orders() == pre.spec_active_orders(),
            post.spec_dedup() == pre.spec_dedup(),
        ensures
            post.wf_tables(),
    {
        assert forall|x: int| 0 <= x < post.spec_dedup().len()
            implies #[trigger] post.dedup_entry_matches(x) by {
            assert(pre.dedup_entry_matches(x));
            let j = choose|j: int|
                0 <= j < pre.spec_active_orders().len() && (
                #[trigger] pre.spec_active_orders()[j]).0@ == pre.spec_dedup()[x].0@
                    && pre.spec_active_orders()[j].1.order_id@ == pre.spec_dedup()[x].1@;
            assert(post.spec_active_orders()[j] == pre.spec_active_orders()[j]);
        }
    }

    /// Replacing one execution record, keeping its key, its client id and
    /// its order id, preserves table soundness.
    proof fn lemma_tables_update_one(pre: Self, post: Self, i: int)
        requires
            pre.wf_tables(),
            0 <= i < pre.spec_active_orders().len(),
            post.spec_dedup() == pre.spec_dedup(),
            post.spec_active_orders().len() == pre.spec_active_orders().len(),
            forall|j: int|
                0 <= j < pre.spec_active_orders().len() && j != i
                    ==> #[trigger] post.spec_active_orders()[j] == pre.spec_active_orders()[j],
            post.spec_active_orders()[i].0 == pre.spec_active_orders()[i].0,
            post.spec_active_orders()[i].1.wf(),
            post.spec_active_orders()[i].1.client_id == pre.spec_active_orders()[i].1.client_id,
            post.spec_active_orders()[i].1.order_id == pre.spec_active_orders()[i].1.order_id,
        ensures
            post.wf_tables(),
    {
        let po = post.spec_active_orders();
        let oo = pre.spec_active_orders();
        assert(forall|j: int| 0 <= j < po.len() ==> (#[trigger] po[j]).0 == oo[j].0);
        assert(forall|j: int|
            0 <= j < po.len() ==> (#[trigger] po[j]).1.client_id == oo[j].1.client_id && po[
                j
            ].1.order_id == oo[j].1.order_id);
        assert(keys_unique(po));
        assert forall|x: int| 0 <= x < post.spec_dedup().len()
            implies #[trigger] post.dedup_entry_matches(x) by {
            assert(pre.dedup_entry_matches(x));
            let j = choose|j: int|
                0 <= j < oo.len() && (#[trigger] oo[j]).0@ == pre.spec_dedup()[x].0@ && oo[
                    j
                ].1.order_id@ == pre.spec_dedup()[x].1@;
            assert(po[j].0@ == oo[j].0@ && po[j].1.order_id@ == oo[j].1.order_id@);
        }
    }

    /// Appending a fresh client decision id to both tables, with a sound
    /// record stored under it, preserves table soundness.
    proof fn lemma_tables_insert(pre: Self, post: Self)
        requires
            pre.wf_tables(),
            post.spec_active_orders().len() == pre.spec_active_orders().len() + 1,
            post.spec_active_orders().drop_last() == pre.spec_active_orders(),
            post.spec_dedup().len() == pre.spec_dedup().len() + 1,
            post.spec_dedup().drop_last() == pre.spec_dedup(),
            !has_key(pre.spec_active_orders(), post.spec_active_orders().last().0@),
            !has_key(pre.spec_dedup(), post.spec_dedup().last().0@),
            post.spec_active_orders().last().1.wf(),
            post.spec_active_orders().last().1.client_id@ == post.spec_active_orders().last().0@,
            post.spec_dedup().last().0@ == post.spec_active_orders().last().0@,
            post.spec_dedup().last().1@ == post.spec_active_orders().last().1.order_id@,
        ensures
            post.wf_tables(),
    {
        let po = post.spec_active_orders();
        let oo = pre.spec_active_orders();
        let pd = post.spec_dedup();
        let od = pre.spec_dedup();
        assert(forall|j: int| 0 <= j < oo.len() ==> (#[trigger] po[j]) == oo[j]);
        assert(forall|j: int| 0 <= j < od.len() ==> (#[trigger] pd[j]) == od[j]);
        assert(keys_unique(po));
        assert(keys_unique(pd));
        assert forall|x: int| 0 <= x < pd.len() implies #[trigger] post.dedup_entry_matches(x) by {
            if x < pd.len() - 1 {
                assert(pre.dedup_entry_matches(x));
                let j = choose|j: int|
                    0 <= j < oo.len() && (#[trigger] oo[j]).0@ == od[x].0@ && oo[j].1.order_id@
                        == od[x].1@;
                assert(po[j] == oo[j]);
            } else {
                let j = po.len() - 1;
                assert(po[j].0@ == pd[x].0@ && po[j].1.order_id@ == pd[x].1@);
            }
        }
        assert forall|x: int| 0 <= x < po.len() implies has_key(pd, (#[trigger] po[x]).0@) by {
            if x < po.len() - 1 {
                assert(has_key(od, oo[x].0@));
                lemma_index_of_key(od, oo[x].0@);
                let j = index_of_key(od, oo[x].0@);
                assert(pd[j] == od[j]);
            } else {
                assert(pd.last().0@ == po[x].0@);
            }
        }
    }

    /// A gateway with no adapters, no breakers and no tracked orders.
    pub fn new(config: GatewayConfig) -> (r: Self)
        ensures
            r.wf(),
            r.spec_config() == config,
            r.spec_adapters().len() == 0,
            r.spec_breakers().len() == 0,
            r.spec_active_orders().len() == 0,
            r.spec_dedup().len() == 0,
            r.spec_adapter_invocations() == 0,
            r.spec_manager().spec_orders().len() == 0,
    {
        let retry_logic = RetryLogic::new(
            config.max_retries,
            config.base_retry_delay_ms,
            config.max_retry_delay_ms,
        );
        ExecutionGateway {
            config,
            order_manager: OrderManager::new(),
            exchange_adapters: Vec::new(),
            circuit_breakers: Vec::new(),
            retry_logic,
            active_orders: Vec::new(),
            order_deduplication: Vec::new(),
            adapter_invocations: 0,
        }
    }

    /// Register an adapter under a venue name, with a fresh circuit
    /// breaker configured from the gateway's thresholds. Registering a
    /// name again replaces the adapter and resets the breaker.
    pub fn register_exchange_adapter(&mut self, exchange_name: String, adapter: A)
        requires
            old(self).wf(),
        ensures
            final(self).wf(),
            final(self).spec_config() == old(self).spec_config(),
            final(self).spec_active_orders() == old(self).spec_active_orders(),
            final(self).spec_dedup() == old(self).spec_dedup(),
            final(self).spec_manager() == old(self).spec_manager(),
            final(self).spec_adapter_invocations() == old(self).spec_adapter_invocations(),
            has_key(final(self).spec_adapters(), exchange_name@),
            has_key(final(self).spec_breakers(), exchange_name@),
            value_of_key(final(self).spec_breakers(), exchange_name@).spec_state()
                is Closed,
            value_of_key(final(self).spec_breakers(), exchange_name@).spec_failure_count() == 0,
            value_of_key(final(self).spec_breakers(), exchange_name@).spec_failure_threshold()
                == old(self).spec_config().circuit_breaker_failure_threshold,
            value_of_key(final(self).spec_breakers(), exchange_name@).spec_recovery_timeout_ms()
                == old(self).spec_config().circuit_breaker_recovery_timeout_ms,
            value_of_key(final(self).spec_adapters(), exchange_name@) == adapter,
            forall|k: Seq<char>|
                k != exchange_name@ ==> (#[trigger] has_key(final(self).spec_adapters(), k)
                    == has_key(old(self).spec_adapters(), k) && (has_key(
                    old(self).spec_adapters(),
                    k,
                ) ==> value_of_key(final(self).spec_adapters(), k) == value_of_key(
                    old(self).spec_adapters(),
                    k,
                ))),
            forall|k: Seq<char>|
                k != exchange_name@ ==> (#[trigger] has_key(final(self).spec_breakers(), k)
                    == has_key(old(self).spec_breakers(), k) && (has_key(
                    old(self).spec_breakers(),
                    k,
                ) ==> value_of_key(final(self).spec_breakers(), k) == value_of_key(
                    old(self).spec_breakers(),
                    k,
                ))),
    {
        let ghost name = exchange_name@;
        let breaker = CircuitBreaker::new(
            self.config.circuit_breaker_failure_threshold,
            self.config.circuit_breaker_recovery_timeout_ms,
        );
        match find_index(&self.exchange_adapters, exchange_name.as_str()) {
            Some(i) => {
                self.exchange_adapters.set(i, (exchange_name.clone(), adapter));
                proof {
                    assert(self.spec_adapters()[i as int].0@ == name);
                    assert(has_key(self.spec_adapters(), name));
                    lemma_index_of_key(self.spec_adapters(), name);
                    assert(forall|j: int|
                        0 <= j < self.spec_adapters().len() && j != i ==> (
                        #[trigger] self.spec_adapters()[j]) == old(self).spec_adapters()[j]);
                    assert(adapter_tables_related(old(self).spec_adapters(), self.spec_adapters(), name));
                }
            },
            None => {
                self.exchange_adapters.push((exchange_name.clone(), adapter));
                proof {
                    assert(self.spec_adapters().drop_last() =~= old(self).spec_adapters());
                    assert(self.spec_adapters().last().0@ == name);
                    assert(has_key(self.spec_adapters(), name));
                    lemma_index_of_key(self.spec_adapters(), name);
                    assert(forall|j: int|
                        0 <= j < old(self).spec_adapters().len() ==> (
                        #[trigger] self.spec_adapters()[j]) == old(self).spec_adapters()[j]);
                    assert(adapter_tables_related(old(self).spec_adapters(), self.spec_adapters(), name));
                }
            },
        }
        let ghost mid = *self;
        match find_index(&self.circuit_breakers, exchange_name.as_str()) {
            Some(i) => {
                self.circuit_breakers.set(i, (exchange_name, breaker));
                proof {
                    assert(self.spec_breakers()[i as int].0@ == name);
                    assert(has_key(self.spec_breakers(), name));
                    lemma_index_of_key(self.spec_breakers(), name);
                    assert(forall|j: int|
                        0 <= j < self.spec_breakers().len() && j != i ==> (
                        #[trigger] self.spec_breakers()[j]) == mid.spec_breakers()[j]);
                    assert(breaker_tables_related(mid.spec_breakers(), self.spec_breakers(), name));
                }
            },
            None => {
                self.circuit_breakers.push((exchange_name, breaker));
                proof {
                    assert(self.spec_breakers().drop_last() =~= mid.spec_breakers());
                    assert(self.spec_breakers().last().0@ == name);
                    assert(has_key(self.spec_breakers(), name));
                    lemma_index_of_key(self.spec_breakers(), name);
                    assert(forall|j: int|
                        0 <= j < mid.spec_breakers().len() ==> (
                        #[trigger] self.spec_breakers()[j]) == mid.spec_breakers()[j]);
                    assert(breaker_tables_related(mid.spec_breakers(), self.spec_breakers(), name));
                }
            },
        }
        proof {
            lemma_tables_related_frame_a::<A>(old(self).spec_adapters(), self.spec_adapters(), name);
            lemma_tables_related_frame_b(mid.spec_breakers(), self.spec_breakers(), name);
            assert(mid.spec_breakers() == old(self).spec_breakers());
        }
        proof {
            Self::lemma_tables_preserved(*old(self), *self);
        }
    }

    /// The number of tracked order executions.
    pub fn get_active_orders_count(&self) -> (r: usize)
        ensures
            r == self.spec_active_orders().len(),
    {
        self.active_orders.len()
    }

    /// How many adapter order placements the gateway has made.
    pub fn adapter_call_count(&self) -> (r: u64)
        ensures
            r == self.spec_adapter_invocations(),
    {
        self.adapter_invocations
    }

    /// The tracked execution record for a client decision id.
    pub fn get_active_order(&self, client_id: &str) -> (r: Option<&OrderExecution>)
        requires
            self.wf(),
        ensures
            match r {
                Some(e) => has_key(self.spec_active_orders(), client_id@) && *e == value_of_key(
                    self.spec_active_orders(),
                    client_id@,
                ),
                None => !has_key(self.spec_active_orders(), client_id@),
            },
    {
        match find_index(&self.active_orders, client_id) {
            Some(i) => {
                proof {
                    lemma_index_of_key(self.spec_active_orders(), client_id@);
                }
                Some(&self.active_orders[i].1)
            },
            None => None,
        }
    }

    /// The state of the venue's circuit breaker, if one is registered.
    pub fn circuit_breaker_state(&self, exchange_name: &str) -> (r: Option<CircuitBreakerState>)
        requires
            self.wf(),
        ensures
            match r {
                Some(s) => has_key(self.spec_breakers(), exchange_name@) && s == value_of_key(
                    self.spec_breakers(),
                    exchange_name@,
                ).spec_state(),
                None => !has_key(self.spec_breakers(), exchange_name@),
            },
    {
        match find_index(&self.circuit_breakers, exchange_name) {
            Some(i) => {
                proof {
                    lemma_index_of_key(self.spec_breakers(), exchange_name@);
                }
                Some(self.circuit_breakers[i].1.get_state())
            },
            None => None,
        }
    }

    /// Run the venue breaker's admission check (which may move an open
    /// breaker to half-open): true when the breaker blocks traffic.
    pub fn circuit_breaker_is_open(&mut self, exchange_name: &str) -> (r: Option<bool>)
        requires
            old(self).wf(),
        ensures
            final(self).wf(),
            final(self).spec_active_orders() == old(self).spec_active_orders(),
            final(self).spec_dedup() == old(self).spec_dedup(),
            final(self).spec_manager() == old(self).spec_manager(),
            final(self).spec_adapter_invocations() == old(self).spec_adapter_invocations(),
            r is Some <==> has_key(old(self).spec_breakers(), exchange_name@),
    {
        match find_index(&self.circuit_breakers, exchange_name) {
            Some(i) => {
                let entry = &mut self.circuit_breakers[i];
                let r = entry.1.is_open();
                proof {
                    assert(forall|j: int|
                        0 <= j < self.spec_breakers().len() ==> (#[trigger] self.spec_breakers(
                        )[j]).0 == old(self).spec_breakers()[j].0);
                    assert(old(self).spec_breakers()[i as int].0@ == exchange_name@);
                    assert(has_key(old(self).spec_breakers(), exchange_name@));
                    Self::lemma_tables_preserved(*old(self), *self);
                }
                Some(r)
            },
            None => None,
        }
    }

    /// A read-only view of the lifecycle manager.
    pub fn order_manager(&self) -> (r: &OrderManager)
        ensures
            *r == self.spec_manager(),
    {
        &self.order_manager
    }
}


/// Copy a list of fills field for field.
fn copy_fills(fills: &Vec<PartialFill>) -> (r: Vec<PartialFill>)
    ensures
        r@ == fills@,
{
    let n = fills.len();
    let mut out: Vec<PartialFill> = Vec::new();
    let mut i: usize = 0;
    while i < n
        invariant
            n == fills@.len(),
            i <= n,
            out@.len() == i,
            forall|j: int| 0 <= j < i ==> #[trigger] out@[j] == fills@[j],
        decreases n - i,
    {
        let f = &fills[i];
        let copied = PartialFill {
            fill_id: f.fill_id.clone(),
            quantity: f.quantity,
            price: f.price,
            timestamp: f.timestamp,
            commission: f.commission,
        };
        proof {
            assert(copied == fills@[i as int]);
        }
        out.push(copied);
        i = i + 1;
    }
    proof {
        assert(out@ =~= fills@);
    }
    out
}

/// What an idempotent replay returns for a stored execution record: the
/// reconstructed result of the original call, or the stored failure.
pub open spec fn replay_outcome(
    exec: OrderExecution,
    decision_id: Seq<char>,
    r: Result<ExecutionResult, TradingError>,
) -> bool {
    if exec.status is Failed {
        r matches Err(e) && e is ExecutionError
    } else {
        r matches Ok(res) && {
            &&& res.execution_id@ == exec.execution_id@
            &&& res.decision_id@ == decision_id
            &&& res.order_id@ == exec.order_id@
            &&& res.status == exec.reported_status
            &&& res.filled_quantity == exec.reported_filled
            &&& res.average_price == exec.reported_price
            &&& res.submitted_at == exec.created_at
            &&& res.filled_at == exec.filled_at
            &&& res.commission == exec.commission
            &&& res.partial_fills@ == exec.partial_fills@
            &&& res.retry_count == exec.retry_count
            &&& res.error_message is None
        }
    }
}

impl<A: ExchangeAdapter> ExecutionGateway<A> {
    /// Translate a decision into the venue-neutral request the adapter
    /// receives: long buys and short sells; market and limit orders map
    /// to themselves, a stop to a stop-loss and a stop-limit to a
    /// take-profit order.
    pub fn convert_decision_to_request(decision: &OrderDecision, order_id: &str) -> (r:
        OrderRequest)
        ensures
            r.id@ == order_id@,
            r.symbol@ == decision.symbol@,
            r.side == (if decision.direction is Long {
                OrderSide::Buy
            } else {
                OrderSide::Sell
            }),
            r.size == decision.risk_adjusted_quantity,
            r.price matches Some(p) && p == decision.entry_price,
            r.order_type == (match decision.order_type {
                crate::enums::OrderType::Market => crate::types::OrderType::Market,
                crate::enums::OrderType::Limit => crate::types::OrderType::Limit,
                crate::enums::OrderType::Stop => crate::types::OrderType::StopLoss,
                crate::enums::OrderType::StopLimit => crate::types::OrderType::TakeProfit,
            }),
            r.timestamp == decision.timestamp,
    {
        let side = match decision.direction {
            crate::enums::Direction::Long => OrderSide::Buy,
            crate::enums::Direction::Short => OrderSide::Sell,
        };
        let order_type = match decision.order_type {
            crate::enums::OrderType::Market => crate::types::OrderType::Market,
            crate::enums::OrderType::Limit => crate::types::OrderType::Limit,
            crate::enums::OrderType::Stop => crate::types::OrderType::StopLoss,
            crate::enums::OrderType::StopLimit => crate::types::OrderType::TakeProfit,
        };
        OrderRequest {
            id: String::from_str(order_id),
            symbol: decision.symbol.clone(),
            side,
            size: decision.risk_adjusted_quantity,
            price: Some(decision.entry_price),
            order_type,
            timestamp: decision.timestamp,
        }
    }

    /// Reconstruct the result an earlier call with this decision id saw,
    /// from the stored execution record.
    fn reconstruct_result(exec: &OrderExecution, decision_id: String) -> (r: Result<
        ExecutionResult,
        TradingError,
    >)
        requires
            exec.wf(),
        ensures
            replay_outcome(*exec, decision_id@, r),
    {
        match exec.status {
            OrderExecutionStatus::Failed => Err(
                TradingError::ExecutionError {
                    message: String::from_str("Order execution previously failed"),
                },
            ),
            _ => {
                let mut result = ExecutionResult::new(decision_id, exec.order_id.clone());
                result.execution_id = exec.execution_id.clone();
                result.status = exec.reported_status;
                result.submitted_at = exec.created_at;
                result.filled_at = exec.filled_at;
                result.filled_quantity = exec.reported_filled;
                result.average_price = exec.reported_price;
                result.commission = exec.commission;
                result.partial_fills = copy_fills(&exec.partial_fills);
                result.retry_count = exec.retry_count;
                Ok(result)
            },
        }
    }

    /// Record a venue failure on its breaker, if one is registered.
    fn note_breaker_failure(&mut self, exchange_name: &str)
        requires
            old(self).wf(),
        ensures
            final(self).wf(),
            final(self).spec_config() == old(self).spec_config(),
            final(self).spec_retry_config() == old(self).spec_retry_config(),
            final(self).spec_adapters() == old(self).spec_adapters(),
            final(self).spec_active_orders() == old(self).spec_active_orders(),
            final(self).spec_dedup() == old(self).spec_dedup(),
            final(self).spec_manager() == old(self).spec_manager(),
            final(self).spec_adapter_invocations() == old(self).spec_adapter_invocations(),
    {
        match find_index(&self.circuit_breakers, exchange_name) {
            Some(i) => {
                let entry = &mut self.circuit_breakers[i];
                entry.1.record_failure();
                proof {
                    assert(forall|j: int|
                        0 <= j < self.spec_breakers().len() ==> (#[trigger] self.spec_breakers(
                        )[j]).0 == old(self).spec_breakers()[j].0);
                    Self::lemma_tables_preserved(*old(self), *self);
                }
            },
            None => {},
        }
    }

    /// Record a venue success on its breaker, if one is registered.
    fn note_breaker_success(&mut self, exchange_name: &str)
        requires
            old(self).wf(),
        ensures
            final(self).wf(),
            final(self).spec_config() == old(self).spec_config(),
            final(self).spec_retry_config() == old(self).spec_retry_config(),
            final(self).spec_adapters() == old(self).spec_adapters(),
            final(self).spec_active_orders() == old(self).spec_active_orders(),
            final(self).spec_dedup() == old(self).spec_dedup(),
            final(self).spec_manager() == old(self).spec_manager(),
            final(self).spec_adapter_invocations() == old(self).spec_adapter_invocations(),
    {
        match find_index(&self.circuit_breakers, exchange_name) {
            Some(i) => {
                let entry = &mut self.circuit_breakers[i];
                entry.1.record_success();
                proof {
                    assert(forall|j: int|
                        0 <= j < self.spec_breakers().len() ==> (#[trigger] self.spec_breakers(
                        )[j]).0 == old(self).spec_breakers()[j].0);
                    Self::lemma_tables_preserved(*old(self), *self);
                }
            },
            None => {},
        }
    }

    /// Run the venue breaker's admission check: Some(true) when a
    /// registered breaker denies the request.
    fn breaker_denies(&mut self, exchange_name: &str) -> (r: bool)
        requires
            old(self).wf(),
        ensures
            final(self).wf(),
            final(self).spec_config() == old(self).spec_config(),
            final(self).spec_retry_config() == old(self).spec_retry_config(),
            final(self).spec_adapters() == old(self).spec_adapters(),
            final(self).spec_active_orders() == old(self).spec_active_orders(),
            final(self).spec_dedup() == old(self).spec_dedup(),
            final(self).spec_manager() == old(self).spec_manager(),
            final(self).spec_adapter_invocations() == old(self).spec_adapter_invocations(),
    {
        match find_index(&self.circuit_breakers, exchange_name) {
            Some(i) => {
                let entry = &mut self.circuit_breakers[i];
                let deny = entry.1.is_open();
                proof {
                    assert(forall|j: int|
                        0 <= j < self.spec_breakers().len() ==> (#[trigger] self.spec_breakers(
                        )[j]).0 == old(self).spec_breakers()[j].0);
                    Self::lemma_tables_preserved(*old(self), *self);
                }
                deny
            },
            None => false,
        }
    }

    /// Mark the tracked execution for a client decision id with a status
    /// and the attempt count that produced it.
    fn mark_active_status(
        &mut self,
        client_id: &str,
        status: OrderExecutionStatus,
        retry_count: u32,
        now_ms: u64,
    )
        requires
            old(self).wf(),
        ensures
            final(self).wf(),
            final(self).spec_config() == old(self).spec_config(),
            final(self).spec_retry_config() == old(self).spec_retry_config(),
            final(self).spec_adapters() == old(self).spec_adapters(),
            final(self).spec_breakers() == old(self).spec_breakers(),
            final(self).spec_dedup() == old(self).spec_dedup(),
            final(self).spec_manager() == old(self).spec_manager(),
            final(self).spec_adapter_invocations() == old(self).spec_adapter_invocations(),
            final(self).spec_active_orders().len() == old(self).spec_active_orders().len(),
            forall|j: int|
                0 <= j < old(self).spec_active_orders().len()
                    ==> (#[trigger] final(self).spec_active_orders()[j]).1.order_id == old(
                    self,
                ).spec_active_orders()[j].1.order_id,
            forall|j: int|
                0 <= j < old(self).spec_active_orders().len()
                    ==> (#[trigger] final(self).spec_active_orders()[j]).1.quantity_cap == old(
                    self,
                ).spec_active_orders()[j].1.quantity_cap,
            forall|j: int|
                0 <= j < old(self).spec_active_orders().len() && old(self).spec_active_orders(
                )[j].0@ != client_id@ ==> #[trigger] final(self).spec_active_orders()[j] == old(
                    self,
                ).spec_active_orders()[j],
            has_key(old(self).spec_active_orders(), client_id@) ==> {
                let i = index_of_key(old(self).spec_active_orders(), client_id@);
                &&& final(self).spec_active_orders()[i].0 == old(self).spec_active_orders()[i].0
                &&& final(self).spec_active_orders()[i].1.status == status
                &&& final(self).spec_active_orders()[i].1.retry_count == retry_count
                &&& final(self).spec_active_orders()[i].1.updated_at >= old(
                    self,
                ).spec_active_orders()[i].1.updated_at
            },
    {
        match find_index(&self.active_orders, client_id) {
            Some(i) => {
                proof {
                    lemma_index_of_key(old(self).spec_active_orders(), client_id@);
                }
                let entry = &mut self.active_orders[i];
                entry.1.status = status;
                entry.1.retry_count = retry_count;
                if now_ms > entry.1.updated_at {
                    entry.1.updated_at = now_ms;
                }
                proof {
                    Self::lemma_tables_update_one(*old(self), *self, i as int);
                    assert forall|j: int|
                        0 <= j < old(self).spec_active_orders().len() && old(
                            self,
                        ).spec_active_orders()[j].0@ != client_id@
                        implies #[trigger] self.spec_active_orders()[j] == old(
                        self,
                    ).spec_active_orders()[j] by {
                        assert(j != i);
                    }
                }
            },
            None => {},
        }
    }
}


impl<A: ExchangeAdapter> ExecutionGateway<A> {


    /// Record a lifecycle transition for an order, ignoring a refusal by
    /// the state machine (the lifecycle then simply keeps its state).
    #[verifier::rlimit(100)]
    fn note_lifecycle(&mut self, order_id: &str, state: OrderLifecycleState, reason: &str)
        requires
            old(self).wf(),
        ensures
            final(self).wf(),
            final(self).spec_config() == old(self).spec_config(),
            final(self).spec_retry_config() == old(self).spec_retry_config(),
            final(self).spec_adapters() == old(self).spec_adapters(),
            final(self).spec_breakers() == old(self).spec_breakers(),
            final(self).spec_active_orders() == old(self).spec_active_orders(),
            final(self).spec_dedup() == old(self).spec_dedup(),
            final(self).spec_adapter_invocations() == old(self).spec_adapter_invocations(),
    {
        let _ = self.order_manager.transition_state(
            order_id,
            state,
            String::from_str(reason),
            None,
        );
        proof {
            Self::lemma_tables_preserved(*old(self), *self);
        }
    }



    /// Register a fresh submission: the lifecycle is created and moved to
    /// Submitted, and one new execution record and dedup entry appear
    /// under the decision id. Refused, with nothing changed, when the
    /// order id or the decision id is already known to the lifecycle
    /// manager.
    #[verifier::rlimit(100)]
    fn register_submission(
        &mut self,
        order_decision: &OrderDecision,
        client_id: String,
        order_id: String,
    ) -> (r: Result<(), TradingError>)
        requires
            old(self).wf(),
            !has_key(old(self).spec_dedup(), client_id@),
            !has_key(old(self).spec_active_orders(), client_id@),
        ensures
            final(self).wf(),
            final(self).spec_config() == old(self).spec_config(),
            final(self).spec_retry_config() == old(self).spec_retry_config(),
            final(self).spec_adapters() == old(self).spec_adapters(),
            final(self).spec_breakers() == old(self).spec_breakers(),
            final(self).spec_adapter_invocations() == old(self).spec_adapter_invocations(),
            if has_key(old(self).spec_manager().spec_orders(), order_id@) || has_key(
                old(self).spec_manager().spec_client_index(),
                client_id@,
            ) {
                &&& r is Err
                &&& final(self).spec_active_orders() == old(self).spec_active_orders()
                &&& final(self).spec_dedup() == old(self).spec_dedup()
                &&& final(self).spec_manager() == old(self).spec_manager()
            } else {
                &&& r is Ok
                &&& final(self).spec_active_orders().len() == old(
                    self,
                ).spec_active_orders().len() + 1
                &&& final(self).spec_active_orders().drop_last() == old(
                    self,
                ).spec_active_orders()
                &&& final(self).spec_active_orders().last().0@ == client_id@
                &&& final(self).spec_active_orders().last().1.client_id@ == client_id@
                &&& final(self).spec_active_orders().last().1.order_id@ == order_id@
                &&& final(self).spec_active_orders().last().1.status is Pending
                &&& final(self).spec_active_orders().last().1.retry_count == 0
                &&& final(self).spec_active_orders().last().1.total_filled == 0
                &&& final(self).spec_active_orders().last().1.partial_fills@.len() == 0
                &&& final(self).spec_active_orders().last().1.quantity_cap == spec_quantity_cap(
                    order_decision.risk_adjusted_quantity,
                )
                &&& final(self).spec_dedup().len() == old(self).spec_dedup().len() + 1
                &&& final(self).spec_dedup().drop_last() == old(self).spec_dedup()
                &&& final(self).spec_dedup().last().0@ == client_id@
                &&& final(self).spec_dedup().last().1@ == order_id@
            },
    {
        let cap: i64 = if order_decision.risk_adjusted_quantity < 0 {
            0
        } else if order_decision.risk_adjusted_quantity > MAX_TRACKED_QUANTITY {
            MAX_TRACKED_QUANTITY
        } else {
            order_decision.risk_adjusted_quantity
        };
        let now = current_millis();
        match self.order_manager.create_order(
            order_id.clone(),
            client_id.clone(),
            order_decision.symbol.clone(),
            None,
        ) {
            Ok(()) => {},
            Err(e) => {
                proof {
                    Self::lemma_tables_preserved(*old(self), *self);
                }
                return Err(e);
            },
        }
        let execution = OrderExecution {
            order_id: order_id.clone(),
            client_id: client_id.clone(),
            execution_id: new_uuid_string(),
            exchange: String::from_str("default"),
            status: OrderExecutionStatus::Pending,
            reported_status: OrderStatus::Pending,
            created_at: now,
            updated_at: now,
            filled_at: None,
            retry_count: 0,
            partial_fills: Vec::new(),
            total_filled: 0,
            average_price: None,
            commission: 0,
            reported_filled: 0,
            reported_price: None,
            quantity_cap: cap,
        };
        self.active_orders.push((client_id.clone(), execution));
        self.order_deduplication.push((client_id.clone(), order_id.clone()));
        proof {
            assert(self.spec_active_orders().drop_last() =~= old(self).spec_active_orders());
            assert(self.spec_dedup().drop_last() =~= old(self).spec_dedup());
            Self::lemma_tables_insert(*old(self), *self);
        }
        self.note_lifecycle(order_id.as_str(), OrderLifecycleState::Validated, "Order validated");
        self.note_lifecycle(
            order_id.as_str(),
            OrderLifecycleState::Submitted,
            "Order submitted to venue",
        );
        Ok(())
    }

    /// Run attempt number `attempt` for an order already tracked under
    /// the decision id: one breaker admission check and at most one
    /// adapter call. A retryable venue failure before the attempts are
    /// exhausted yields the backoff delay to sleep before the next
    /// attempt, drawn from the retry engine's jitter window.
    #[verifier::rlimit(100)]
    fn submission_attempt(
        &mut self,
        order_decision: &OrderDecision,
        client_id: &str,
        order_id: &str,
        attempt: u32,
    ) -> (r: SubmissionStep)
        requires
            old(self).wf(),
            attempt <= old(self).spec_config().max_retries,
        ensures
            final(self).wf(),
            final(self).spec_config() == old(self).spec_config(),
            final(self).spec_retry_config() == old(self).spec_retry_config(),
            final(self).spec_adapters() == old(self).spec_adapters(),
            final(self).spec_dedup() == old(self).spec_dedup(),
            final(self).spec_active_orders().len() == old(self).spec_active_orders().len(),
            forall|j: int|
                0 <= j < old(self).spec_active_orders().len()
                    ==> (#[trigger] final(self).spec_active_orders()[j]).0 == old(
                    self,
                ).spec_active_orders()[j].0,
            forall|j: int|
                0 <= j < old(self).spec_active_orders().len()
                    ==> (#[trigger] final(self).spec_active_orders()[j]).1.order_id == old(
                    self,
                ).spec_active_orders()[j].1.order_id,
            forall|j: int|
                0 <= j < old(self).spec_active_orders().len()
                    ==> (#[trigger] final(self).spec_active_orders()[j]).1.quantity_cap == old(
                    self,
                ).spec_active_orders()[j].1.quantity_cap,
            forall|j: int|
                0 <= j < old(self).spec_active_orders().len() && old(self).spec_active_orders(
                )[j].0@ != client_id@ ==> #[trigger] final(self).spec_active_orders()[j] == old(
                    self,
                ).spec_active_orders()[j],
            final(self).spec_adapter_invocations() <= old(self).spec_adapter_invocations() + 1,
            r matches SubmissionStep::RetryAfter(d) ==> {
                &&& attempt < old(self).spec_config().max_retries
                &&& {
                    let nominal = old(self).spec_retry_config().spec_nominal_delay(
                        (attempt + 1) as u32,
                    );
                    &&& nominal - nominal / 4 <= d as int
                    &&& d as int <= nominal + nominal / 4
                }
                &&& final(self).spec_active_orders() == old(self).spec_active_orders()
                &&& final(self).spec_manager() == old(self).spec_manager()
                &&& (has_key(old(self).spec_adapters(), "default"@)
                    ==> final(self).spec_adapter_invocations() as int == min_of(
                    old(self).spec_adapter_invocations() as int + 1,
                    u64::MAX as int,
                ))
            },
            r matches SubmissionStep::Settled(out) ==> (out matches Ok(res) ==> {
                &&& res.decision_id@ == client_id@
                &&& res.order_id@ == order_id@
                &&& res.retry_count == attempt
                &&& res.error_message is None
                &&& res.execution_time_ms is Some
                &&& has_key(old(self).spec_adapters(), "default"@)
                &&& final(self).spec_adapter_invocations() as int == min_of(
                    old(self).spec_adapter_invocations() as int + 1,
                    u64::MAX as int,
                )
                &&& has_key(old(self).spec_active_orders(), client_id@) ==> {
                    let i = index_of_key(old(self).spec_active_orders(), client_id@);
                    let pre = old(self).spec_active_orders()[i].1;
                    let post = final(self).spec_active_orders()[i].1;
                    &&& post.status == spec_exec_status_of(res.status)
                    &&& post.reported_status == res.status
                    &&& post.retry_count == res.retry_count
                    &&& post.commission == res.commission
                    &&& post.reported_filled == res.filled_quantity
                    &&& post.reported_price == res.average_price
                    &&& post.filled_at == res.filled_at
                    &&& res.execution_id@ == post.execution_id@
                    &&& res.submitted_at == post.created_at
                    &&& post.partial_fills@ == (if old(
                        self,
                    ).spec_config().enable_partial_fills && res.partial_fills@.len() > 0 {
                        spec_merge_fills(pre.partial_fills@, res.partial_fills@, pre.quantity_cap)
                    } else {
                        pre.partial_fills@
                    })
                }
            }),
            r matches SubmissionStep::Settled(out) ==> (out is Err ==> (has_key(
                old(self).spec_active_orders(),
                client_id@,
            ) ==> {
                let i = index_of_key(old(self).spec_active_orders(), client_id@);
                &&& final(self).spec_active_orders()[i].1.status is Failed
                &&& final(self).spec_active_orders()[i].1.retry_count == attempt
            })),
            r matches SubmissionStep::Settled(out) ==> (out matches Err(e) ==> (has_key(
                old(self).spec_adapters(),
                "default"@,
            ) ==> {
                ||| {
                    &&& final(self).spec_adapter_invocations() as int == min_of(
                        old(self).spec_adapter_invocations() as int + 1,
                        u64::MAX as int,
                    )
                    &&& (attempt == old(self).spec_config().max_retries || spec_retry_policy(
                        &e,
                    ) is NoRetry)
                }
                ||| final(self).spec_adapter_invocations() == old(
                    self,
                ).spec_adapter_invocations()
            })),
    {
        let max_retries = self.config.max_retries;
        let enable_partial_fills = self.config.enable_partial_fills;
        if self.breaker_denies("default") {
            let now2 = current_millis();
            self.mark_active_status(client_id, OrderExecutionStatus::Failed, attempt, now2);
            self.note_lifecycle(order_id, OrderLifecycleState::Failed, "Circuit breaker open");
            return SubmissionStep::Settled(
                Err(
                    TradingError::ExecutionError {
                        message: String::from_str("Circuit breaker open for exchange: default"),
                    },
                ),
            );
        }
        let ghost pre_call = *self;
        let outcome: Result<AdapterOrderResult, TradingError> = match find_index(
            &self.exchange_adapters,
            "default",
        ) {
            Some(ai) => {
                if self.adapter_invocations < u64::MAX {
                    self.adapter_invocations = self.adapter_invocations + 1;
                }
                let request = Self::convert_decision_to_request(order_decision, order_id);
                self.exchange_adapters[ai].1.place_order(&request)
            },
            None => Err(
                TradingError::ExecutionError {
                    message: String::from_str("Exchange adapter not found: default"),
                },
            ),
        };
        proof {
            Self::lemma_tables_preserved(pre_call, *self);
            assert(self.wf());
        }
        match outcome {
            Ok(res) => {
                self.note_breaker_success("default");
                let now2 = current_millis();
                self.merge_success(client_id, &res, attempt, enable_partial_fills, now2);
                self.note_lifecycle(
                    order_id,
                    OrderLifecycleState::Acknowledged,
                    "Venue acknowledged order",
                );
                let mapped: OrderLifecycleState = OrderLifecycleState::from(res.status);
                match mapped {
                    OrderLifecycleState::Submitted => {},
                    OrderLifecycleState::Acknowledged => {},
                    _ => {
                        self.note_lifecycle(order_id, mapped, "Venue reported final status");
                    },
                }
                let (stored_execution_id, stored_created_at): (String, u64) = match find_index(
                    &self.active_orders,
                    client_id,
                ) {
                    Some(ai) => {
                        proof {
                            lemma_index_of_key(self.spec_active_orders(), client_id@);
                        }
                        (
                            self.active_orders[ai].1.execution_id.clone(),
                            self.active_orders[ai].1.created_at,
                        )
                    },
                    None => (new_uuid_string(), current_millis()),
                };
                let mut result = ExecutionResult::new(
                    String::from_str(client_id),
                    String::from_str(order_id),
                );
                result.execution_id = stored_execution_id;
                result.status = res.status;
                result.filled_quantity = res.filled_quantity;
                result.average_price = res.average_price;
                result.commission = res.commission;
                result.submitted_at = stored_created_at;
                result.filled_at = res.filled_at;
                result.partial_fills = res.partial_fills;
                result.retry_count = attempt;
                let finished = current_millis();
                result.execution_time_ms = Some(
                    if finished >= stored_created_at && finished - stored_created_at
                        <= u32::MAX as u64 {
                        (finished - stored_created_at) as u32
                    } else {
                        0
                    },
                );
                SubmissionStep::Settled(Ok(result))
            },
            Err(e) => {
                self.note_breaker_failure("default");
                let policy = determine_retry_policy(&e);
                let give_up: bool = match policy {
                    RetryPolicy::NoRetry => true,
                    _ => attempt >= max_retries,
                };
                if give_up {
                    let now2 = current_millis();
                    self.mark_active_status(
                        client_id,
                        OrderExecutionStatus::Failed,
                        attempt,
                        now2,
                    );
                    self.note_lifecycle(
                        order_id,
                        OrderLifecycleState::Failed,
                        "Attempts exhausted or terminal venue error",
                    );
                    return SubmissionStep::Settled(Err(e));
                }
                let delay = self.retry_logic.calculate_delay(attempt + 1);
                SubmissionStep::RetryAfter(delay)
            },
        }
    }


    /// Drive a submission one attempt at a time, so that the host can
    /// sleep the returned backoff delay between attempts; `place_order`
    /// runs the same attempts back to back in a single call.
    ///
    /// Attempt zero refuses a malformed decision id, answers an already
    /// tracked decision id with its stored outcome, and otherwise
    /// registers the order exactly as `place_order` does and tries the
    /// venue once. A later attempt continues the order registered under
    /// the decision id; if none is tracked, it settles with an error.
    #[verifier::rlimit(100)]
    pub fn submit_order_step(&mut self, order_decision: &OrderDecision, attempt: u32) -> (r:
        SubmissionStep)
        requires
            old(self).wf(),
        ensures
            final(self).wf(),
            final(self).spec_config() == old(self).spec_config(),
            final(self).spec_retry_config() == old(self).spec_retry_config(),
            final(self).spec_adapters() == old(self).spec_adapters(),
            final(self).spec_adapter_invocations() <= old(self).spec_adapter_invocations() + 1,
            !spec_is_uuid_shaped(order_decision.decision_id@) ==> (r matches
                SubmissionStep::Settled(out) && out is Err && *final(self) == *old(self)),
            spec_is_uuid_shaped(order_decision.decision_id@) && attempt > old(
                self,
            ).spec_config().max_retries ==> (r matches SubmissionStep::Settled(out) && out
                is Err && *final(self) == *old(self)),
            r matches SubmissionStep::RetryAfter(d) ==> {
                &&& attempt < old(self).spec_config().max_retries
                &&& {
                    let nominal = old(self).spec_retry_config().spec_nominal_delay(
                        (attempt + 1) as u32,
                    );
                    &&& nominal - nominal / 4 <= d as int
                    &&& d as int <= nominal + nominal / 4
                }
            },
            spec_is_uuid_shaped(order_decision.decision_id@) && attempt == 0 && has_key(
                old(self).spec_dedup(),
                order_decision.decision_id@,
            ) ==> (r matches SubmissionStep::Settled(out) && *final(self) == *old(self)
                && replay_outcome(
                value_of_key(old(self).spec_active_orders(), order_decision.decision_id@),
                order_decision.decision_id@,
                out,
            )),
            spec_is_uuid_shaped(order_decision.decision_id@) && attempt > 0 && attempt <= old(
                self,
            ).spec_config().max_retries && !has_key(
                old(self).spec_dedup(),
                order_decision.decision_id@,
            ) ==> (r matches SubmissionStep::Settled(out) && out is Err && *final(self) == *old(
                self,
            )),
            spec_is_uuid_shaped(order_decision.decision_id@) && attempt > 0 && attempt <= old(
                self,
            ).spec_config().max_retries && has_key(
                old(self).spec_dedup(),
                order_decision.decision_id@,
            ) ==> {
                &&& final(self).spec_dedup() == old(self).spec_dedup()
                &&& final(self).spec_active_orders().len() == old(
                    self,
                ).spec_active_orders().len()
                &&& (r matches SubmissionStep::Settled(out) ==> (out matches Ok(res) ==> {
                    &&& res.decision_id@ == order_decision.decision_id@
                    &&& res.retry_count == attempt
                    &&& res.error_message is None
                    &&& res.execution_time_ms is Some
                    &&& has_key(old(self).spec_adapters(), "default"@)
                }))
                &&& (r matches SubmissionStep::Settled(out) ==> (out is Err ==> (has_key(
                    old(self).spec_active_orders(),
                    order_decision.decision_id@,
                ) ==> {
                    let i = index_of_key(
                        old(self).spec_active_orders(),
                        order_decision.decision_id@,
                    );
                    &&& final(self).spec_active_orders()[i].1.status is Failed
                    &&& final(self).spec_active_orders()[i].1.retry_count == attempt
                })))
            },
    {
        let client_id: String = order_decision.decision_id.clone();
        if !is_uuid_shaped(client_id.as_str()) {
            let mut message = String::from_str("Invalid decision ID: ");
            message.append(client_id.as_str());
            return SubmissionStep::Settled(Err(TradingError::ExecutionError { message }));
        }
        if attempt > self.config.max_retries {
            return SubmissionStep::Settled(
                Err(
                    TradingError::ExecutionError {
                        message: String::from_str("Attempt number past the configured retries"),
                    },
                ),
            );
        }
        match find_index(&self.order_deduplication, client_id.as_str()) {
            Some(di) => {
                proof {
                    lemma_index_of_key(self.spec_dedup(), client_id@);
                }
                if attempt == 0 {
                    match self.try_replay(client_id.as_str()) {
                        Some(out) => SubmissionStep::Settled(out),
                        None => {
                            proof {
                                assert(false);
                            }
                            SubmissionStep::Settled(
                                Err(
                                    TradingError::ExecutionError {
                                        message: String::from_str("Order tracking inconsistent"),
                                    },
                                ),
                            )
                        },
                    }
                } else {
                    let order_id: String = self.order_deduplication[di].1.clone();
                    self.submission_attempt(
                        order_decision,
                        client_id.as_str(),
                        order_id.as_str(),
                        attempt,
                    )
                }
            },
            None => {
                if attempt > 0 {
                    let mut message = String::from_str("No submission tracked for decision: ");
                    message.append(client_id.as_str());
                    return SubmissionStep::Settled(
                        Err(TradingError::ExecutionError { message }),
                    );
                }
                let order_id: String = new_uuid_string();
                match self.register_submission(
                    order_decision,
                    client_id.clone(),
                    order_id.clone(),
                ) {
                    Ok(()) => {},
                    Err(e) => {
                        return SubmissionStep::Settled(Err(e));
                    },
                }
                self.submission_attempt(
                    order_decision,
                    client_id.as_str(),
                    order_id.as_str(),
                    0,
                )
            },
        }
    }

    /// Fold a successful adapter outcome into the tracked execution for a
    /// client decision id: fills reconciled, status projected, attempt
    /// count and commission recorded. Only that record changes.
    fn merge_success(
        &mut self,
        client_id: &str,
        res: &AdapterOrderResult,
        attempt: u32,
        enable_partial_fills: bool,
        now_ms: u64,
    )
        requires
            old(self).wf(),
        ensures
            final(self).wf(),
            final(self).spec_config() == old(self).spec_config(),
            final(self).spec_retry_config() == old(self).spec_retry_config(),
            final(self).spec_adapters() == old(self).spec_adapters(),
            final(self).spec_breakers() == old(self).spec_breakers(),
            final(self).spec_dedup() == old(self).spec_dedup(),
            final(self).spec_manager() == old(self).spec_manager(),
            final(self).spec_adapter_invocations() == old(self).spec_adapter_invocations(),
            final(self).spec_active_orders().len() == old(self).spec_active_orders().len(),
            forall|j: int|
                0 <= j < old(self).spec_active_orders().len()
                    ==> (#[trigger] final(self).spec_active_orders()[j]).0 == old(
                    self,
                ).spec_active_orders()[j].0,
            forall|j: int|
                0 <= j < old(self).spec_active_orders().len()
                    ==> (#[trigger] final(self).spec_active_orders()[j]).1.order_id == old(
                    self,
                ).spec_active_orders()[j].1.order_id,
            forall|j: int|
                0 <= j < old(self).spec_active_orders().len()
                    ==> (#[trigger] final(self).spec_active_orders()[j]).1.quantity_cap == old(
                    self,
                ).spec_active_orders()[j].1.quantity_cap,
            forall|j: int|
                0 <= j < old(self).spec_active_orders().len() && old(self).spec_active_orders(
                )[j].0@ != client_id@ ==> #[trigger] final(self).spec_active_orders()[j] == old(
                    self,
                ).spec_active_orders()[j],
            has_key(old(self).spec_active_orders(), client_id@) ==> {
                let i = index_of_key(old(self).spec_active_orders(), client_id@);
                let pre = old(self).spec_active_orders()[i].1;
                let post = final(self).spec_active_orders()[i].1;
                &&& post.status == spec_exec_status_of(res.status)
                &&& post.reported_status == res.status
                &&& post.retry_count == attempt
                &&& post.commission == res.commission
                &&& post.reported_filled == res.filled_quantity
                &&& post.reported_price == res.average_price
                &&& post.filled_at == res.filled_at
                &&& post.execution_id == pre.execution_id
                &&& post.created_at == pre.created_at
                &&& post.partial_fills@ == (if enable_partial_fills && res.partial_fills@.len()
                    > 0 {
                    spec_merge_fills(pre.partial_fills@, res.partial_fills@, pre.quantity_cap)
                } else {
                    pre.partial_fills@
                })
                &&& post.updated_at >= pre.updated_at
            },
    {
        match find_index(&self.active_orders, client_id) {
            Some(i) => {
                proof {
                    lemma_index_of_key(old(self).spec_active_orders(), client_id@);
                }
                let entry = &mut self.active_orders[i];
                if enable_partial_fills && res.partial_fills.len() > 0 {
                    apply_partial_fills(&mut entry.1, &res.partial_fills, now_ms);
                }
                entry.1.status = exec_status_of(res.status);
                entry.1.reported_status = res.status;
                entry.1.retry_count = attempt;
                entry.1.commission = res.commission;
                entry.1.reported_filled = res.filled_quantity;
                entry.1.reported_price = res.average_price;
                entry.1.filled_at = res.filled_at;
                proof {
                    Self::lemma_tables_update_one(*old(self), *self, i as int);
                    assert forall|j: int|
                        0 <= j < old(self).spec_active_orders().len() && old(
                            self,
                        ).spec_active_orders()[j].0@ != client_id@
                        implies #[trigger] self.spec_active_orders()[j] == old(
                        self,
                    ).spec_active_orders()[j] by {
                        assert(j != i);
                    }
                }
            },
            None => {},
        }
    }


    /// Answer a decision id that is already tracked: the reconstructed
    /// outcome of the original call, or nothing for an unknown id.
    fn try_replay(&self, client_id: &str) -> (r: Option<Result<ExecutionResult, TradingError>>)
        requires
            self.wf(),
        ensures
            r is Some <==> has_key(self.spec_dedup(), client_id@),
            r matches Some(out) ==> replay_outcome(
                value_of_key(self.spec_active_orders(), client_id@),
                client_id@,
                out,
            ),
    {
        match find_index(&self.order_deduplication, client_id) {
            Some(di) => {
                proof {
                    lemma_index_of_key(self.spec_dedup(), client_id@);
                }
                match find_index(&self.active_orders, client_id) {
                    Some(ai) => {
                        proof {
                            lemma_index_of_key(self.spec_active_orders(), client_id@);
                        }
                        Some(
                            Self::reconstruct_result(
                                &self.active_orders[ai].1,
                                String::from_str(client_id),
                            ),
                        )
                    },
                    None => {
                        proof {
                            assert(self.dedup_entry_matches(di as int));
                            assert(false);
                        }
                        None
                    },
                }
            },
            None => None,
        }
    }

    /// Place an order for a decision, idempotently, with retries under the
    /// venue's circuit breaker.
    ///
    /// A decision id that is not shaped like a UUID is refused outright.
    /// A decision id already known to the dedup table makes no adapter
    /// call at all and changes nothing: the caller gets the stored
    /// outcome back. A new decision id is tracked under exactly one new
    /// execution record and one new dedup entry (unless the freshly drawn
    /// order id collides with an existing one, which fails the call and
    /// leaves the tables alone), and the adapter is invoked at most
    /// `max_retries + 1` times. This entry runs its attempts back to
    /// back; a host that wants to sleep the proved backoff between
    /// attempts drives `submit_order_step` instead.
    #[verifier::loop_isolation(false)]
    #[verifier::rlimit(100)]
    pub fn place_order(&mut self, order_decision: OrderDecision) -> (r: Result<
        ExecutionResult,
        TradingError,
    >)
        requires
            old(self).wf(),
        ensures
            final(self).wf(),
            final(self).spec_config() == old(self).spec_config(),
            final(self).spec_adapters() == old(self).spec_adapters(),
            !spec_is_uuid_shaped(order_decision.decision_id@) ==> (r matches Err(e) && e
                is ExecutionError && *final(self) == *old(self)),
            spec_is_uuid_shaped(order_decision.decision_id@) && has_key(
                old(self).spec_dedup(),
                order_decision.decision_id@,
            ) ==> {
                &&& final(self).spec_adapter_invocations() == old(
                    self,
                ).spec_adapter_invocations()
                &&& final(self).spec_active_orders() == old(self).spec_active_orders()
                &&& final(self).spec_dedup() == old(self).spec_dedup()
                &&& final(self).spec_manager() == old(self).spec_manager()
                &&& final(self).spec_breakers() == old(self).spec_breakers()
                &&& replay_outcome(
                    value_of_key(old(self).spec_active_orders(), order_decision.decision_id@),
                    order_decision.decision_id@,
                    r,
                )
            },
            spec_is_uuid_shaped(order_decision.decision_id@) && !has_key(
                old(self).spec_dedup(),
                order_decision.decision_id@,
            ) ==> {
                &&& final(self).spec_adapter_invocations() <= old(self).spec_adapter_invocations()
                    + old(self).spec_config().max_retries + 1
                &&& {
                    ||| {
                        &&& final(self).spec_active_orders().len() == old(
                            self,
                        ).spec_active_orders().len() + 1
                        &&& forall|j: int|
                            0 <= j < old(self).spec_active_orders().len()
                                ==> #[trigger] final(self).spec_active_orders()[j] == old(
                                self,
                            ).spec_active_orders()[j]
                        &&& final(self).spec_active_orders().last().0@
                            == order_decision.decision_id@
                        &&& final(self).spec_active_orders().last().1.quantity_cap
                            == spec_quantity_cap(order_decision.risk_adjusted_quantity)
                        &&& final(self).spec_active_orders().last().1.total_filled
                            <= spec_quantity_cap(order_decision.risk_adjusted_quantity)
                        &&& final(self).spec_dedup().len() == old(self).spec_dedup().len() + 1
                        &&& final(self).spec_dedup().drop_last() == old(self).spec_dedup()
                        &&& final(self).spec_dedup().last().0@ == order_decision.decision_id@
                        &&& (r is Err ==> {
                            &&& final(self).spec_active_orders().last().1.status is Failed
                            &&& final(self).spec_active_orders().last().1.retry_count <= old(
                                self,
                            ).spec_config().max_retries
                            &&& final(self).spec_adapter_invocations()
                                <= old(self).spec_adapter_invocations()
                                + final(self).spec_active_orders().last().1.retry_count + 1
                        })
                        &&& (r matches Err(e) ==> (has_key(old(self).spec_adapters(), "default"@)
                            ==> {
                            let rc = final(self).spec_active_orders().last().1.retry_count
                                as int;
                            ||| {
                                &&& final(self).spec_adapter_invocations() as int == min_of(
                                    old(self).spec_adapter_invocations() as int + rc + 1,
                                    u64::MAX as int,
                                )
                                &&& (rc == old(self).spec_config().max_retries as int
                                    || spec_retry_policy(&e) is NoRetry)
                            }
                            ||| final(self).spec_adapter_invocations() as int == min_of(
                                old(self).spec_adapter_invocations() as int + rc,
                                u64::MAX as int,
                            )
                        }))
                        &&& (r matches Ok(res) ==> {
                            let post = final(self).spec_active_orders().last().1;
                            &&& has_key(old(self).spec_adapters(), "default"@)
                            &&& res.order_id@ == post.order_id@
                            &&& res.retry_count <= old(self).spec_config().max_retries
                            &&& res.error_message is None
                            &&& res.execution_time_ms is Some
                            &&& final(self).spec_adapter_invocations() as int == min_of(
                                old(self).spec_adapter_invocations() as int + res.retry_count
                                    + 1,
                                u64::MAX as int,
                            )
                            &&& post.status == spec_exec_status_of(res.status)
                            &&& post.reported_status == res.status
                            &&& post.retry_count == res.retry_count
                            &&& post.commission == res.commission
                            &&& post.reported_filled == res.filled_quantity
                            &&& post.reported_price == res.average_price
                            &&& post.filled_at == res.filled_at
                            &&& res.execution_id@ == post.execution_id@
                            &&& res.submitted_at == post.created_at
                            &&& post.partial_fills@ == (if old(
                                self,
                            ).spec_config().enable_partial_fills && res.partial_fills@.len()
                                > 0 {
                                spec_merge_fills(
                                    Seq::<PartialFill>::empty(),
                                    res.partial_fills@,
                                    spec_quantity_cap(order_decision.risk_adjusted_quantity),
                                )
                            } else {
                                Seq::<PartialFill>::empty()
                            })
                        })
                    }
                    ||| {
                        &&& r is Err
                        &&& final(self).spec_active_orders() == old(self).spec_active_orders()
                        &&& final(self).spec_dedup() == old(self).spec_dedup()
                        &&& final(self).spec_adapter_invocations() == old(
                            self,
                        ).spec_adapter_invocations()
                    }
                }
            },
            r matches Ok(res) ==> res.decision_id@ == order_decision.decision_id@,
    {
        let order_id: String = new_uuid_string();
        self.place_order_with_id(order_decision, order_id)
    }

    /// Place an order for a decision under a caller-supplied fresh order
    /// id (the pipeline mints a random one). The outcome is exact in the
    /// id: a decision id without the UUID shape is refused with nothing
    /// changed; a known decision id replays the stored outcome; a new
    /// decision id whose order id or decision id is already known to the
    /// lifecycle manager fails with nothing changed; otherwise exactly one
    /// new execution record and dedup entry appear and the venue is tried.
    #[verifier::loop_isolation(false)]
    #[verifier::rlimit(100)]
    pub fn place_order_with_id(&mut self, order_decision: OrderDecision, order_id: String) -> (r:
        Result<ExecutionResult, TradingError>)
        requires
            old(self).wf(),
        ensures
            final(self).wf(),
            final(self).spec_config() == old(self).spec_config(),
            final(self).spec_adapters() == old(self).spec_adapters(),
            !spec_is_uuid_shaped(order_decision.decision_id@) ==> (r matches Err(e) && e
                is ExecutionError && *final(self) == *old(self)),
            spec_is_uuid_shaped(order_decision.decision_id@) && has_key(
                old(self).spec_dedup(),
                order_decision.decision_id@,
            ) ==> {
                &&& final(self).spec_adapter_invocations() == old(
                    self,
                ).spec_adapter_invocations()
                &&& final(self).spec_active_orders() == old(self).spec_active_orders()
                &&& final(self).spec_dedup() == old(self).spec_dedup()
                &&& final(self).spec_manager() == old(self).spec_manager()
                &&& final(self).spec_breakers() == old(self).spec_breakers()
                &&& replay_outcome(
                    value_of_key(old(self).spec_active_orders(), order_decision.decision_id@),
                    order_decision.decision_id@,
                    r,
                )
            },
            spec_is_uuid_shaped(order_decision.decision_id@) && !has_key(
                old(self).spec_dedup(),
                order_decision.decision_id@,
            ) ==> {
                &&& final(self).spec_adapter_invocations() <= old(self).spec_adapter_invocations()
                    + old(self).spec_config().max_retries + 1
                &&& if has_key(old(self).spec_manager().spec_orders(), order_id@) || has_key(
                    old(self).spec_manager().spec_client_index(),
                    order_decision.decision_id@,
                ) {
                    &&& r is Err
                    &&& final(self).spec_active_orders() == old(self).spec_active_orders()
                    &&& final(self).spec_dedup() == old(self).spec_dedup()
                    &&& final(self).spec_manager() == old(self).spec_manager()
                    &&& final(self).spec_adapter_invocations() == old(
                        self,
                    ).spec_adapter_invocations()
                } else {
                    &&& final(self).spec_active_orders().len() == old(
                        self,
                    ).spec_active_orders().len() + 1
                    &&& forall|j: int|
                        0 <= j < old(self).spec_active_orders().len()
                            ==> #[trigger] final(self).spec_active_orders()[j] == old(
                            self,
                        ).spec_active_orders()[j]
                    &&& final(self).spec_active_orders().last().0@ == order_decision.decision_id@
                    &&& final(self).spec_active_orders().last().1.order_id@ == order_id@
                    &&& final(self).spec_active_orders().last().1.quantity_cap
                        == spec_quantity_cap(order_decision.risk_adjusted_quantity)
                    &&& final(self).spec_active_orders().last().1.total_filled
                        <= spec_quantity_cap(order_decision.risk_adjusted_quantity)
                    &&& final(self).spec_dedup().len() == old(self).spec_dedup().len() + 1
                    &&& final(self).spec_dedup().drop_last() == old(self).spec_dedup()
                    &&& final(self).spec_dedup().last().0@ == order_decision.decision_id@
                    &&& final(self).spec_dedup().last().1@ == order_id@
                    &&& (r is Err ==> {
                        &&& final(self).spec_active_orders().last().1.status is Failed
                        &&& final(self).spec_active_orders().last().1.retry_count <= old(
                            self,
                        ).spec_config().max_retries
                        &&& final(self).spec_adapter_invocations()
                            <= old(self).spec_adapter_invocations()
                            + final(self).spec_active_orders().last().1.retry_count + 1
                    })
                    &&& (r matches Err(e) ==> (has_key(old(self).spec_adapters(), "default"@)
                        ==> {
                        let rc = final(self).spec_active_orders().last().1.retry_count as int;
                        ||| {
                            &&& final(self).spec_adapter_invocations() as int == min_of(
                                old(self).spec_adapter_invocations() as int + rc + 1,
                                u64::MAX as int,
                            )
                            &&& (rc == old(self).spec_config().max_retries as int
                                || spec_retry_policy(&e) is NoRetry)
                        }
                        ||| final(self).spec_adapter_invocations() as int == min_of(
                            old(self).spec_adapter_invocations() as int + rc,
                            u64::MAX as int,
                        )
                    }))
                    &&& (r matches Ok(res) ==> {
                        let post = final(self).spec_active_orders().last().1;
                        &&& has_key(old(self).spec_adapters(), "default"@)
                        &&& res.order_id@ == order_id@
                        &&& res.retry_count <= old(self).spec_config().max_retries
                        &&& res.error_message is None
                        &&& res.execution_time_ms is Some
                        &&& final(self).spec_adapter_invocations() as int == min_of(
                            old(self).spec_adapter_invocations() as int + res.retry_count + 1,
                            u64::MAX as int,
                        )
                        &&& post.status == spec_exec_status_of(res.status)
                        &&& post.reported_status == res.status
                        &&& post.retry_count == res.retry_count
                        &&& post.commission == res.commission
                        &&& post.reported_filled == res.filled_quantity
                        &&& post.reported_price == res.average_price
                        &&& post.filled_at == res.filled_at
                        &&& res.execution_id@ == post.execution_id@
                        &&& res.submitted_at == post.created_at
                        &&& post.partial_fills@ == (if old(
                            self,
                        ).spec_config().enable_partial_fills && res.partial_fills@.len() > 0 {
                            spec_merge_fills(
                                Seq::<PartialFill>::empty(),
                                res.partial_fills@,
                                spec_quantity_cap(order_decision.risk_adjusted_quantity),
                            )
                        } else {
                            Seq::<PartialFill>::empty()
                        })
                    })
                }
            },
            r matches Ok(res) ==> res.decision_id@ == order_decision.decision_id@,
    {
        let client_id: String = order_decision.decision_id.clone();
        if !is_uuid_shaped(client_id.as_str()) {
            let mut message = String::from_str("Invalid decision ID: ");
            message.append(client_id.as_str());
            return Err(TradingError::ExecutionError { message });
        }
        match self.try_replay(client_id.as_str()) {
            Some(out) => {
                return out;
            },
            None => {},
        }
        match self.register_submission(&order_decision, client_id.clone(), order_id.clone()) {
            Ok(()) => {},
            Err(e) => {
                return Err(e);
            },
        }
        let ghost cid = client_id@;
        let ghost inserted = *self;
        let r = self.run_submission_loop(&order_decision, client_id, order_id);
        proof {
            assert(self.spec_active_orders().len() == old(self).spec_active_orders().len() + 1);
            assert forall|j: int| 0 <= j < old(self).spec_active_orders().len()
                implies #[trigger] self.spec_active_orders()[j] == old(self).spec_active_orders(
            )[j] by {
                assert(has_key(old(self).spec_dedup(), old(self).spec_active_orders()[j].0@));
                assert(old(self).spec_active_orders()[j].0@ != cid);
                assert(inserted.spec_active_orders()[j] == old(self).spec_active_orders()[j]);
            }
            assert(self.spec_active_orders().last().0@ == cid);
            assert(inserted.spec_active_orders().last().0@ == cid);
            assert(has_key(inserted.spec_active_orders(), cid));
            lemma_index_of_key(inserted.spec_active_orders(), cid);
            assert(index_of_key(inserted.spec_active_orders(), cid)
                == inserted.spec_active_orders().len() - 1);
            assert(inserted.spec_active_orders().last().1.partial_fills@ =~= Seq::<
                PartialFill,
            >::empty());
        }
        r
    }

    /// The single-flight submission loop for one freshly inserted order:
    /// at most `max_retries + 1` adapter attempts under the breaker, the
    /// tracked record and the lifecycle brought to the outcome.
    #[verifier::loop_isolation(false)]
    #[verifier::rlimit(100)]
    fn run_submission_loop(
        &mut self,
        order_decision: &OrderDecision,
        client_id: String,
        order_id: String,
    ) -> (r: Result<ExecutionResult, TradingError>)
        requires
            old(self).wf(),
        ensures
            final(self).wf(),
            final(self).spec_config() == old(self).spec_config(),
            final(self).spec_retry_config() == old(self).spec_retry_config(),
            final(self).spec_adapters() == old(self).spec_adapters(),
            final(self).spec_dedup() == old(self).spec_dedup(),
            final(self).spec_active_orders().len() == old(self).spec_active_orders().len(),
            forall|j: int|
                0 <= j < old(self).spec_active_orders().len()
                    ==> (#[trigger] final(self).spec_active_orders()[j]).0 == old(
                    self,
                ).spec_active_orders()[j].0,
            forall|j: int|
                0 <= j < old(self).spec_active_orders().len()
                    ==> (#[trigger] final(self).spec_active_orders()[j]).1.order_id == old(
                    self,
                ).spec_active_orders()[j].1.order_id,
            forall|j: int|
                0 <= j < old(self).spec_active_orders().len()
                    ==> (#[trigger] final(self).spec_active_orders()[j]).1.quantity_cap == old(
                    self,
                ).spec_active_orders()[j].1.quantity_cap,
            forall|j: int|
                0 <= j < old(self).spec_active_orders().len() && old(self).spec_active_orders(
                )[j].0@ != client_id@ ==> #[trigger] final(self).spec_active_orders()[j] == old(
                    self,
                ).spec_active_orders()[j],
            final(self).spec_adapter_invocations() <= old(self).spec_adapter_invocations() + old(
                self,
            ).spec_config().max_retries + 1,
            r matches Ok(res) ==> {
                &&& res.decision_id@ == client_id@
                &&& res.order_id@ == order_id@
                &&& res.retry_count <= old(self).spec_config().max_retries
                &&& res.error_message is None
                &&& res.execution_time_ms is Some
                &&& has_key(old(self).spec_adapters(), "default"@)
                &&& final(self).spec_adapter_invocations() as int == min_of(
                    old(self).spec_adapter_invocations() as int + res.retry_count + 1,
                    u64::MAX as int,
                )
                &&& has_key(old(self).spec_active_orders(), client_id@) ==> {
                    let i = index_of_key(old(self).spec_active_orders(), client_id@);
                    let pre = old(self).spec_active_orders()[i].1;
                    let post = final(self).spec_active_orders()[i].1;
                    &&& post.status == spec_exec_status_of(res.status)
                    &&& post.reported_status == res.status
                    &&& post.retry_count == res.retry_count
                    &&& post.commission == res.commission
                    &&& post.reported_filled == res.filled_quantity
                    &&& post.reported_price == res.average_price
                    &&& post.filled_at == res.filled_at
                    &&& res.execution_id@ == post.execution_id@
                    &&& res.submitted_at == post.created_at
                    &&& post.partial_fills@ == (if old(
                        self,
                    ).spec_config().enable_partial_fills && res.partial_fills@.len() > 0 {
                        spec_merge_fills(pre.partial_fills@, res.partial_fills@, pre.quantity_cap)
                    } else {
                        pre.partial_fills@
                    })
                }
            },
            r is Err ==> (has_key(old(self).spec_active_orders(), client_id@) ==> {
                let i = index_of_key(old(self).spec_active_orders(), client_id@);
                &&& final(self).spec_active_orders()[i].1.status is Failed
                &&& final(self).spec_active_orders()[i].1.retry_count <= old(
                    self,
                ).spec_config().max_retries
                &&& final(self).spec_adapter_invocations() <= old(self).spec_adapter_invocations()
                    + final(self).spec_active_orders()[i].1.retry_count + 1
            }),
            r matches Err(e) ==> ((has_key(old(self).spec_adapters(), "default"@) && has_key(
                old(self).spec_active_orders(),
                client_id@,
            )) ==> {
                let i = index_of_key(old(self).spec_active_orders(), client_id@);
                let rc = final(self).spec_active_orders()[i].1.retry_count as int;
                ||| {
                    &&& final(self).spec_adapter_invocations() as int == min_of(
                        old(self).spec_adapter_invocations() as int + rc + 1,
                        u64::MAX as int,
                    )
                    &&& (rc == old(self).spec_config().max_retries as int || spec_retry_policy(
                        &e,
                    ) is NoRetry)
                }
                ||| final(self).spec_adapter_invocations() as int == min_of(
                    old(self).spec_adapter_invocations() as int + rc,
                    u64::MAX as int,
                )
            }),
    {
        let max_retries = self.config.max_retries;
        let mut attempt: u32 = 0;
        loop
            invariant
                self.wf(),
                self.spec_config() == old(self).spec_config(),
                self.spec_retry_config() == old(self).spec_retry_config(),
                self.spec_adapters() == old(self).spec_adapters(),
                self.spec_active_orders() == old(self).spec_active_orders(),
                self.spec_dedup() == old(self).spec_dedup(),
                attempt <= max_retries,
                self.spec_adapter_invocations() <= old(self).spec_adapter_invocations() + attempt,
                has_key(self.spec_adapters(), "default"@) ==> self.spec_adapter_invocations()
                    as int == min_of(
                    old(self).spec_adapter_invocations() as int + attempt,
                    u64::MAX as int,
                ),
            decreases max_retries - attempt,
        {
            match self.submission_attempt(
                order_decision,
                client_id.as_str(),
                order_id.as_str(),
                attempt,
            ) {
                SubmissionStep::Settled(outcome) => {
                    return outcome;
                },
                SubmissionStep::RetryAfter(_) => {
                    attempt = attempt + 1;
                },
            }
        }
    }
}

/// Whether the gateway's janitor removes an execution record at the given
/// cutoff: only terminal records whose last update is older than it.
pub open spec fn exec_should_reap(e: OrderExecution, cutoff_ms: u64) -> bool {
    spec_exec_status_terminal(e.status) && e.updated_at < cutoff_ms
}

/// The execution table after a sweep at the given cutoff, in order.
pub open spec fn surviving_executions(
    s: Seq<(String, OrderExecution)>,
    cutoff_ms: u64,
) -> Seq<(String, OrderExecution)>
    decreases s.len(),
{
    if s.len() == 0 {
        Seq::empty()
    } else {
        let rest = surviving_executions(s.drop_last(), cutoff_ms);
        if exec_should_reap(s.last().1, cutoff_ms) {
            rest
        } else {
            rest.push(s.last())
        }
    }
}

/// The dedup table after a sweep: the entries whose execution survived.
pub open spec fn surviving_dedup(
    d: Seq<(String, String)>,
    active: Seq<(String, OrderExecution)>,
) -> Seq<(String, String)>
    decreases d.len(),
{
    if d.len() == 0 {
        Seq::empty()
    } else {
        let rest = surviving_dedup(d.drop_last(), active);
        if has_key(active, d.last().0@) {
            rest.push(d.last())
        } else {
            rest
        }
    }
}

/// What survives an execution sweep: under unique keys, a key survives
/// exactly when its record is not reaped, records are unchanged, and
/// uniqueness is kept; every survivor is one of the original entries.
proof fn lemma_surviving_executions_props(s: Seq<(String, OrderExecution)>, cutoff_ms: u64)
    requires
        keys_unique(s),
    ensures
        keys_unique(surviving_executions(s, cutoff_ms)),
        surviving_executions(s, cutoff_ms).len() <= s.len(),
        forall|k: Seq<char>|
            #[trigger] has_key(surviving_executions(s, cutoff_ms), k) <==> (has_key(s, k)
                && !exec_should_reap(value_of_key(s, k), cutoff_ms)),
        forall|k: Seq<char>|
            #[trigger] has_key(surviving_executions(s, cutoff_ms), k) ==> value_of_key(
                surviving_executions(s, cutoff_ms),
                k,
            ) == value_of_key(s, k),
        forall|i: int|
            0 <= i < surviving_executions(s, cutoff_ms).len() ==> exists|j: int|
                0 <= j < s.len() && #[trigger] surviving_executions(s, cutoff_ms)[i] == s[j],
    decreases s.len(),
{
    let surv = surviving_executions(s, cutoff_ms);
    if s.len() == 0 {
        assert(forall|k: Seq<char>| !has_key(surv, k));
        assert(forall|k: Seq<char>| !has_key(s, k));
    } else {
        let s0 = s.drop_last();
        let e = s.last();
        assert(keys_unique(s0));
        lemma_surviving_executions_props(s0, cutoff_ms);
        let surv0 = surviving_executions(s0, cutoff_ms);
        assert(forall|j: int| 0 <= j < s0.len() ==> s0[j] == s[j]);
        assert(!has_key(s0, e.0@));
        assert(!has_key(surv0, e.0@));
        assert forall|k: Seq<char>| #[trigger] has_key(s, k) && k != e.0@ implies has_key(s0, k)
            && value_of_key(s0, k) == value_of_key(s, k) by {
            lemma_index_of_key(s, k);
            let j = index_of_key(s, k);
            assert(j < s.len() - 1);
            assert(s0[j].0@ == k);
            assert(has_key(s0, k));
            lemma_index_of_key(s0, k);
        }
        assert(has_key(s, e.0@));
        lemma_index_of_key(s, e.0@);
        assert(value_of_key(s, e.0@) == e.1);
        if exec_should_reap(e.1, cutoff_ms) {
            assert(surv == surv0);
            assert forall|k: Seq<char>| #[trigger] has_key(surv, k) implies (has_key(s, k)
                && !exec_should_reap(value_of_key(s, k), cutoff_ms)) by {
                assert(has_key(s0, k) && !exec_should_reap(value_of_key(s0, k), cutoff_ms));
                lemma_index_of_key(s0, k);
                let j = index_of_key(s0, k);
                assert(s[j].0@ == k);
                assert(has_key(s, k));
                lemma_index_of_key(s, k);
            }
            assert forall|k: Seq<char>| has_key(s, k) && !exec_should_reap(
                value_of_key(s, k),
                cutoff_ms,
            ) implies #[trigger] has_key(surv, k) by {
                assert(k != e.0@);
                assert(has_key(s0, k));
            }
        } else {
            assert(surv == surv0.push(e));
            assert(surv.drop_last() =~= surv0);
            assert(keys_unique(surv)) by {
                assert(forall|j: int| 0 <= j < surv0.len() ==> surv[j] == surv0[j]);
            }
            assert forall|k: Seq<char>| #[trigger] has_key(surv, k) implies (has_key(s, k)
                && !exec_should_reap(value_of_key(s, k), cutoff_ms)) && value_of_key(surv, k)
                == value_of_key(s, k) by {
                lemma_index_of_key(surv, k);
                let j = index_of_key(surv, k);
                if j == surv.len() - 1 {
                    assert(k == e.0@);
                    assert(value_of_key(surv, k) == e.1);
                } else {
                    assert(surv[j] == surv0[j]);
                    assert(has_key(surv0, k));
                    assert(k != e.0@);
                    assert(has_key(s0, k) && !exec_should_reap(value_of_key(s0, k), cutoff_ms));
                    lemma_index_of_key(surv0, k);
                    assert(value_of_key(surv, k) == value_of_key(surv0, k));
                }
            }
            assert forall|k: Seq<char>| has_key(s, k) && !exec_should_reap(
                value_of_key(s, k),
                cutoff_ms,
            ) implies #[trigger] has_key(surv, k) by {
                if k == e.0@ {
                    assert(surv.last().0@ == k);
                } else {
                    assert(has_key(s0, k));
                    assert(has_key(surv0, k));
                    lemma_index_of_key(surv0, k);
                    let j = index_of_key(surv0, k);
                    assert(surv[j].0@ == k);
                }
            }
        }
    }
}

/// What survives the dedup sweep: kept entries keep their order and
/// values, uniqueness is kept, each points at a surviving execution, and
/// every survivor is one of the original entries.
proof fn lemma_surviving_dedup_props(
    d: Seq<(String, String)>,
    active: Seq<(String, OrderExecution)>,
)
    requires
        keys_unique(d),
    ensures
        keys_unique(surviving_dedup(d, active)),
        surviving_dedup(d, active).len() <= d.len(),
        forall|i: int|
            0 <= i < surviving_dedup(d, active).len() ==> exists|j: int|
                0 <= j < d.len() && #[trigger] surviving_dedup(d, active)[i] == d[j],
        forall|i: int|
            0 <= i < surviving_dedup(d, active).len() ==> has_key(
                active,
                (#[trigger] surviving_dedup(d, active)[i]).0@,
            ),
    decreases d.len(),
{
    let surv = surviving_dedup(d, active);
    if d.len() == 0 {
    } else {
        let d0 = d.drop_last();
        let e = d.last();
        assert(keys_unique(d0));
        lemma_surviving_dedup_props(d0, active);
        let surv0 = surviving_dedup(d0, active);
        assert(forall|j: int| 0 <= j < d0.len() ==> d0[j] == d[j]);
        if has_key(active, e.0@) {
            assert(surv == surv0.push(e));
            assert(keys_unique(surv)) by {
                assert(forall|j: int| 0 <= j < surv0.len() ==> surv[j] == surv0[j]);
                assert forall|x: int, y: int| 0 <= x < y < surv.len() implies (#[trigger] surv[x]).0@
                    != (#[trigger] surv[y]).0@ by {
                    if y == surv.len() - 1 {
                        let j = choose|j: int| 0 <= j < d0.len() && #[trigger] surv0[x] == d0[j];
                        assert(d0[j].0@ != e.0@);
                    }
                }
            }
        } else {
            assert(surv == surv0);
        }
    }
}

impl<A: ExchangeAdapter> ExecutionGateway<A> {
    /// What one gateway janitor sweep does for a given cutoff: terminal
    /// execution records last updated before the cutoff are removed with
    /// their dedup entries, and the count of removed records is returned.
    pub open spec fn cleanup_outcome(pre: Self, post: Self, r: usize, cutoff_ms: u64) -> bool {
        &&& post.spec_active_orders() == surviving_executions(pre.spec_active_orders(), cutoff_ms)
        &&& post.spec_dedup() == surviving_dedup(pre.spec_dedup(), post.spec_active_orders())
        &&& r == pre.spec_active_orders().len() - post.spec_active_orders().len()
    }

    /// Remove aged terminal execution records and their dedup entries at
    /// the given cutoff, and sweep the lifecycle manager at the same
    /// cutoff; returns how many execution records were removed.
    #[verifier::rlimit(100)]
    pub fn cleanup_completed_orders_at(&mut self, cutoff_ms: u64) -> (r: usize)
        requires
            old(self).wf(),
        ensures
            final(self).wf(),
            final(self).spec_config() == old(self).spec_config(),
            final(self).spec_retry_config() == old(self).spec_retry_config(),
            final(self).spec_adapters() == old(self).spec_adapters(),
            final(self).spec_breakers() == old(self).spec_breakers(),
            final(self).spec_adapter_invocations() == old(self).spec_adapter_invocations(),
            Self::cleanup_outcome(*old(self), *final(self), r, cutoff_ms),
            exists|k: usize|
                crate::order_manager::OrderManager::cleanup_outcome(
                    old(self).spec_manager(),
                    final(self).spec_manager(),
                    k,
                    cutoff_ms,
                ),
    {
        let ghost orig = self.active_orders@;
        let ghost orig_d = self.order_deduplication@;
        let mut pending: Vec<(String, OrderExecution)> = Vec::new();
        core::mem::swap(&mut pending, &mut self.active_orders);
        let n = pending.len();
        let mut idx: usize = 0;
        proof {
            assert(orig.subrange(0, 0) =~= Seq::<(String, OrderExecution)>::empty());
            assert(pending@.subrange(0, n as int) =~= pending@);
        }
        while idx < n
            invariant
                n == orig.len(),
                idx <= n,
                pending@ == orig.subrange(idx as int, n as int),
                self.spec_active_orders() == surviving_executions(
                    orig.subrange(0, idx as int),
                    cutoff_ms,
                ),
                self.spec_dedup() == orig_d,
                self.spec_config() == old(self).spec_config(),
                self.spec_retry_config() == old(self).spec_retry_config(),
                self.spec_adapters() == old(self).spec_adapters(),
                self.spec_breakers() == old(self).spec_breakers(),
                self.spec_manager() == old(self).spec_manager(),
                self.spec_adapter_invocations() == old(self).spec_adapter_invocations(),
            decreases n - idx,
        {
            let entry = pending.remove(0);
            let terminal = match entry.1.status {
                OrderExecutionStatus::Filled => true,
                OrderExecutionStatus::Cancelled => true,
                OrderExecutionStatus::Rejected => true,
                OrderExecutionStatus::Failed => true,
                _ => false,
            };
            let keep = !(terminal && entry.1.updated_at < cutoff_ms);
            proof {
                assert(orig.subrange(idx as int, n as int)[0] == orig[idx as int]);
                assert(orig.subrange(0, idx as int + 1).drop_last() =~= orig.subrange(
                    0,
                    idx as int,
                ));
                assert(orig.subrange(0, idx as int + 1).last() == orig[idx as int]);
                assert(pending@ =~= orig.subrange(idx as int + 1, n as int));
            }
            if keep {
                self.active_orders.push(entry);
            }
            idx = idx + 1;
        }
        proof {
            assert(orig.subrange(0, n as int) =~= orig);
            lemma_surviving_executions_props(orig, cutoff_ms);
        }
        let removed = n - self.active_orders.len();
        let mut pending_d: Vec<(String, String)> = Vec::new();
        core::mem::swap(&mut pending_d, &mut self.order_deduplication);
        let m = pending_d.len();
        let mut cdx: usize = 0;
        proof {
            assert(orig_d.subrange(0, 0) =~= Seq::<(String, String)>::empty());
            assert(pending_d@.subrange(0, m as int) =~= pending_d@);
        }
        while cdx < m
            invariant
                m == orig_d.len(),
                cdx <= m,
                pending_d@ == orig_d.subrange(cdx as int, m as int),
                self.spec_dedup() == surviving_dedup(
                    orig_d.subrange(0, cdx as int),
                    surviving_executions(orig, cutoff_ms),
                ),
                self.spec_active_orders() == surviving_executions(orig, cutoff_ms),
                self.spec_config() == old(self).spec_config(),
                self.spec_retry_config() == old(self).spec_retry_config(),
                self.spec_adapters() == old(self).spec_adapters(),
                self.spec_breakers() == old(self).spec_breakers(),
                self.spec_manager() == old(self).spec_manager(),
                self.spec_adapter_invocations() == old(self).spec_adapter_invocations(),
            decreases m - cdx,
        {
            let entry = pending_d.remove(0);
            let keep = find_index(&self.active_orders, entry.0.as_str()).is_some();
            proof {
                assert(orig_d.subrange(cdx as int, m as int)[0] == orig_d[cdx as int]);
                assert(orig_d.subrange(0, cdx as int + 1).drop_last() =~= orig_d.subrange(
                    0,
                    cdx as int,
                ));
                assert(orig_d.subrange(0, cdx as int + 1).last() == orig_d[cdx as int]);
                assert(pending_d@ =~= orig_d.subrange(cdx as int + 1, m as int));
                if !keep {
                    assert(!has_key(self.spec_active_orders(), orig_d[cdx as int].0@));
                }
            }
            if keep {
                self.order_deduplication.push(entry);
            }
            cdx = cdx + 1;
        }
        let swept = self.order_manager.cleanup_old_orders_at(cutoff_ms);
        proof {
            assert(crate::order_manager::OrderManager::cleanup_outcome(
                old(self).spec_manager(),
                self.spec_manager(),
                swept,
                cutoff_ms,
            ));
        }
        proof {
            assert(orig_d.subrange(0, m as int) =~= orig_d);
            lemma_surviving_executions_props(orig, cutoff_ms);
            lemma_surviving_dedup_props(orig_d, self.spec_active_orders());
            let po = self.spec_active_orders();
            let pd = self.spec_dedup();
            assert forall|x: int| 0 <= x < po.len() implies (#[trigger] po[x]).1.wf()
                && po[x].1.client_id@ == po[x].0@ by {
                let j = choose|j: int| 0 <= j < orig.len() && #[trigger] po[x] == orig[j];
                assert(orig[j].1.wf());
            }
            assert forall|x: int| 0 <= x < pd.len()
                implies #[trigger] self.dedup_entry_matches(x) by {
                let j = choose|j: int| 0 <= j < orig_d.len() && #[trigger] pd[x] == orig_d[j];
                assert(old(self).dedup_entry_matches(j));
                let w = choose|w: int|
                    0 <= w < orig.len() && (#[trigger] orig[w]).0@ == orig_d[j].0@ && orig[
                        w
                    ].1.order_id@ == orig_d[j].1@;
                assert(has_key(orig, orig_d[j].0@));
                lemma_index_of_key(orig, orig_d[j].0@);
                assert(value_of_key(orig, orig_d[j].0@) == orig[w].1);
                assert(has_key(po, pd[x].0@));
                assert(value_of_key(po, pd[x].0@) == orig[w].1);
                lemma_index_of_key(po, pd[x].0@);
                let v = index_of_key(po, pd[x].0@);
                assert(po[v].0@ == pd[x].0@ && po[v].1.order_id@ == pd[x].1@);
            }
            assert forall|x: int| 0 <= x < po.len() implies has_key(
                pd,
                (#[trigger] po[x]).0@,
            ) by {
                let j = choose|j: int| 0 <= j < orig.len() && #[trigger] po[x] == orig[j];
                assert(has_key(orig_d, orig[j].0@));
                lemma_index_of_key(orig_d, orig[j].0@);
                let w = index_of_key(orig_d, orig[j].0@);
                assert(has_key(po, orig_d[w].0@));
                lemma_surviving_dedup_membership(orig_d, po, w);
            }
        }
        removed
    }

    /// Remove aged terminal orders, with the cutoff taken from the wall
    /// clock minus the given number of hours.
    pub fn cleanup_completed_orders(&mut self, max_age_hours: i64) -> (r: usize)
        requires
            old(self).wf(),
        ensures
            final(self).wf(),
            final(self).spec_config() == old(self).spec_config(),
            final(self).spec_adapters() == old(self).spec_adapters(),
            final(self).spec_breakers() == old(self).spec_breakers(),
            final(self).spec_adapter_invocations() == old(self).spec_adapter_invocations(),
            exists|cutoff: u64| Self::cleanup_outcome(*old(self), *final(self), r, cutoff),
    {
        let now = current_millis();
        let cutoff_wide: i128 = now as i128 - (max_age_hours as i128) * 3600000;
        let cutoff: u64 = if cutoff_wide < 0 {
            0
        } else if cutoff_wide > u64::MAX as i128 {
            u64::MAX
        } else {
            cutoff_wide as u64
        };
        let r = self.cleanup_completed_orders_at(cutoff);
        proof {
            assert(Self::cleanup_outcome(*old(self), *self, r, cutoff));
        }
        r
    }
}

/// A dedup entry kept by the sweep stays findable in the swept table.
proof fn lemma_surviving_dedup_membership(
    d: Seq<(String, String)>,
    active: Seq<(String, OrderExecution)>,
    w: int,
)
    requires
        keys_unique(d),
        0 <= w < d.len(),
        has_key(active, d[w].0@),
    ensures
        has_key(surviving_dedup(d, active), d[w].0@),
    decreases d.len(),
{
    let surv = surviving_dedup(d, active);
    let d0 = d.drop_last();
    assert(keys_unique(d0));
    if w == d.len() - 1 {
        assert(surv == surviving_dedup(d0, active).push(d.last()));
        assert(surv.last().0@ == d[w].0@);
    } else {
        assert(d0[w] == d[w]);
        lemma_surviving_dedup_membership(d0, active, w);
        let surv0 = surviving_dedup(d0, active);
        lemma_index_of_key(surv0, d[w].0@);
        let j = index_of_key(surv0, d[w].0@);
        if has_key(active, d.last().0@) {
            assert(surv == surv0.push(d.last()));
            assert(surv[j] == surv0[j]);
        } else {
            assert(surv == surv0);
        }
    }
}


impl<A: ExchangeAdapter> ExecutionGateway<A> {
    /// Cancel an order: refused for an unknown order (the message names
    /// it as not found) and for one already in a terminal state; else the
    /// venue adapter is asked, and on its success the lifecycle moves to
    /// Cancelled where the state machine allows it.
    #[verifier::rlimit(100)]
    pub fn cancel_order(&mut self, order_id: &str) -> (r: Result<(), TradingError>)
        requires
            old(self).wf(),
        ensures
            final(self).wf(),
            final(self).spec_config() == old(self).spec_config(),
            final(self).spec_adapters() == old(self).spec_adapters(),
            final(self).spec_breakers() == old(self).spec_breakers(),
            final(self).spec_active_orders() == old(self).spec_active_orders(),
            final(self).spec_dedup() == old(self).spec_dedup(),
            final(self).spec_adapter_invocations() == old(self).spec_adapter_invocations(),
            !has_key(old(self).spec_manager().spec_orders(), order_id@) ==> (r is Err
                && final(self).spec_manager() == old(self).spec_manager()),
            has_key(old(self).spec_manager().spec_orders(), order_id@)
                && crate::order_manager::spec_is_terminal(
                value_of_key(old(self).spec_manager().spec_orders(), order_id@).state,
            ) ==> (r is Err && final(self).spec_manager() == old(self).spec_manager()),
            r is Ok && has_key(old(self).spec_manager().spec_orders(), order_id@)
                && spec_valid_transition(
                value_of_key(old(self).spec_manager().spec_orders(), order_id@).state,
                OrderLifecycleState::Cancelled,
            ) ==> has_key(final(self).spec_manager().spec_orders(), order_id@) && value_of_key(
                final(self).spec_manager().spec_orders(),
                order_id@,
            ).state is Cancelled,
            r is Ok ==> has_key(old(self).spec_adapters(), "default"@),
            !has_key(old(self).spec_adapters(), "default"@) ==> r is Err,
    {
        let terminal = match self.order_manager.get_order(order_id) {
            Some(lifecycle) => crate::order_manager::is_terminal_state(&lifecycle.state),
            None => {
                let mut message = String::from_str("Order not found: ");
                message.append(order_id);
                return Err(TradingError::ExecutionError { message });
            },
        };
        if terminal {
            let mut message = String::from_str("Order in terminal state cannot be cancelled: ");
            message.append(order_id);
            return Err(TradingError::ExecutionError { message });
        }
        let outcome: Result<(), TradingError> = match find_index(
            &self.exchange_adapters,
            "default",
        ) {
            Some(ai) => self.exchange_adapters[ai].1.cancel_order(order_id),
            None => Err(
                TradingError::ExecutionError {
                    message: String::from_str("Exchange adapter not found: default"),
                },
            ),
        };
        match outcome {
            Ok(()) => {
                self.record_cancellation(order_id);
                Ok(())
            },
            Err(e) => Err(e),
        }
    }

    /// Move an order's lifecycle to Cancelled where the state machine
    /// allows it; an unknown order or an illegal step leaves the
    /// lifecycle alone.
    #[verifier::rlimit(100)]
    fn record_cancellation(&mut self, order_id: &str)
        requires
            old(self).wf(),
        ensures
            final(self).wf(),
            final(self).spec_config() == old(self).spec_config(),
            final(self).spec_retry_config() == old(self).spec_retry_config(),
            final(self).spec_adapters() == old(self).spec_adapters(),
            final(self).spec_breakers() == old(self).spec_breakers(),
            final(self).spec_active_orders() == old(self).spec_active_orders(),
            final(self).spec_dedup() == old(self).spec_dedup(),
            final(self).spec_adapter_invocations() == old(self).spec_adapter_invocations(),
            has_key(old(self).spec_manager().spec_orders(), order_id@) && spec_valid_transition(
                value_of_key(old(self).spec_manager().spec_orders(), order_id@).state,
                OrderLifecycleState::Cancelled,
            ) ==> has_key(final(self).spec_manager().spec_orders(), order_id@) && value_of_key(
                final(self).spec_manager().spec_orders(),
                order_id@,
            ).state is Cancelled,
            !(has_key(old(self).spec_manager().spec_orders(), order_id@) && spec_valid_transition(
                value_of_key(old(self).spec_manager().spec_orders(), order_id@).state,
                OrderLifecycleState::Cancelled,
            )) ==> final(self).spec_manager() == old(self).spec_manager(),
    {
        let allowed = {
            let current = match self.order_manager.get_order(order_id) {
                Some(lifecycle) => Some(lifecycle.state),
                None => None,
            };
            match current {
                Some(state) => crate::order_manager::validate_state_transition(
                    &state,
                    &OrderLifecycleState::Cancelled,
                ),
                None => false,
            }
        };
        if allowed {
            let moved = self.order_manager.transition_state(
                order_id,
                OrderLifecycleState::Cancelled,
                String::from_str("Cancelled by request"),
                None,
            );
            proof {
                Self::lemma_tables_preserved(*old(self), *self);
                assert(moved is Ok);
                lemma_index_of_key(old(self).spec_manager().spec_orders(), order_id@);
                lemma_index_of_key(self.spec_manager().spec_orders(), order_id@);
            }
        }
    }

    /// The status of an order: answered from the lifecycle table for a
    /// known order (the source of truth), and by asking the venue for an
    /// unknown one.
    #[verifier::rlimit(100)]
    pub fn get_order_status(&self, order_id: &str) -> (r: Result<
        OrderExecutionStatus,
        TradingError,
    >)
        requires
            self.wf(),
        ensures
            has_key(self.spec_manager().spec_orders(), order_id@) ==> (r matches Ok(s) && s
                == spec_exec_status_of_lifecycle(
                value_of_key(self.spec_manager().spec_orders(), order_id@).state,
            )),
            !has_key(self.spec_manager().spec_orders(), order_id@) && !has_key(
                self.spec_adapters(),
                "default"@,
            ) ==> r is Err,
    {
        match self.order_manager.get_order(order_id) {
            Some(lifecycle) => {
                let s = match lifecycle.state {
                    OrderLifecycleState::Created => OrderExecutionStatus::Pending,
                    OrderLifecycleState::Validated => OrderExecutionStatus::Pending,
                    OrderLifecycleState::Submitted => OrderExecutionStatus::Submitted,
                    OrderLifecycleState::Acknowledged => OrderExecutionStatus::Submitted,
                    OrderLifecycleState::PartiallyFilled => OrderExecutionStatus::PartiallyFilled,
                    OrderLifecycleState::Filled => OrderExecutionStatus::Filled,
                    OrderLifecycleState::Cancelled => OrderExecutionStatus::Cancelled,
                    OrderLifecycleState::Rejected => OrderExecutionStatus::Rejected,
                    OrderLifecycleState::Expired => OrderExecutionStatus::Cancelled,
                    OrderLifecycleState::Failed => OrderExecutionStatus::Failed,
                };
                Ok(s)
            },
            None => match find_index(&self.exchange_adapters, "default") {
                Some(ai) => match self.exchange_adapters[ai].1.get_order_status(order_id) {
                    Ok(status) => Ok(exec_status_of(status)),
                    Err(e) => Err(e),
                },
                None => Err(
                    TradingError::ExecutionError {
                        message: String::from_str("Exchange adapter not found: default"),
                    },
                ),
            },
        }
    }
}


/// Fill conservation: in a well-formed gateway, every tracked execution's
/// total filled quantity is exactly the sum of its recorded partial
/// fills, and it never exceeds the quantity the decision asked for (nor
/// the tracked range).
pub proof fn lemma_fill_conservation<A: ExchangeAdapter>(g: &ExecutionGateway<A>, i: int)
    requires
        g.wf(),
        0 <= i < g.spec_active_orders().len(),
    ensures
        g.spec_active_orders()[i].1.total_filled as int == sum_fill_quantity(
            g.spec_active_orders()[i].1.partial_fills@,
        ),
        0 <= g.spec_active_orders()[i].1.total_filled <= g.spec_active_orders()[i].1.quantity_cap
            <= MAX_TRACKED_QUANTITY,
{
    assert(g.spec_active_orders()[i].1.wf());
}


impl<A: ExchangeAdapter> Default for ExecutionGateway<A> {
    /// A gateway under the stock configuration, with no venues yet.
    fn default() -> (r: Self)
        ensures
            r.wf(),
            r.spec_adapters().len() == 0,
            r.spec_active_orders().len() == 0,
            r.spec_dedup().len() == 0,
            r.spec_adapter_invocations() == 0,
    {
        Self::new(GatewayConfig::default())
    }
}

} // verus!
