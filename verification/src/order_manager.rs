//! Order lifecycle manager: the state machine every tracked order moves
//! through, its append-only transition history, the per-order table keyed
//! by order id and by client decision id, metadata, expiry and the reaping
//! of aged terminal orders.
use vstd::prelude::*;

use crate::assoc::{find_index, has_key, index_of_key, keys_unique, lemma_index_of_key,
    value_of_key};
use crate::enums::OrderStatus;
use crate::errors::TradingError;
use crate::external::current_millis;

verus! {

/// States of an order lifecycle.
#[derive(Debug, Clone, Copy, PartialEq, Eq, Structural)]
pub enum OrderLifecycleState {
    Created,
    Validated,
    Submitted,
    Acknowledged,
    PartiallyFilled,
    Filled,
    Cancelled,
    Rejected,
    Expired,
    Failed,
}

/// Whether a state is terminal: no transition ever leaves it.
pub open spec fn spec_is_terminal(s: OrderLifecycleState) -> bool {
    match s {
        OrderLifecycleState::Filled => true,
        OrderLifecycleState::Cancelled => true,
        OrderLifecycleState::Rejected => true,
        OrderLifecycleState::Expired => true,
        OrderLifecycleState::Failed => true,
        _ => false,
    }
}

/// The legal transitions of the lifecycle state machine.
pub open spec fn spec_valid_transition(from: OrderLifecycleState, to: OrderLifecycleState) -> bool {
    match from {
        OrderLifecycleState::Created => {
            ||| to is Validated
            ||| to is Rejected
            ||| to is Failed
        },
        OrderLifecycleState::Validated => {
            ||| to is Submitted
            ||| to is Rejected
            ||| to is Failed
        },
        OrderLifecycleState::Submitted => {
            ||| to is Acknowledged
            ||| to is Rejected
            ||| to is Failed
            ||| to is Expired
        },
        OrderLifecycleState::Acknowledged => {
            ||| to is PartiallyFilled
            ||| to is Filled
            ||| to is Cancelled
            ||| to is Rejected
            ||| to is Failed
            ||| to is Expired
        },
        OrderLifecycleState::PartiallyFilled => {
            ||| to is Filled
            ||| to is Cancelled
            ||| to is Failed
            ||| to is Expired
        },
        _ => false,
    }
}

/// State-machine closure: a terminal state admits no transition at all.
pub proof fn lemma_terminal_states_are_closed(from: OrderLifecycleState, to: OrderLifecycleState)
    requires
        spec_is_terminal(from),
    ensures
        !spec_valid_transition(from, to),
{
}

/// One recorded transition of a lifecycle.
#[derive(Debug)]
pub struct StateTransition {
    pub from_state: OrderLifecycleState,
    pub to_state: OrderLifecycleState,
    /// Milliseconds since the Unix epoch.
    pub timestamp: u64,
    pub reason: String,
    /// Free-form annotations attached to the transition.
    pub metadata: Vec<(String, String)>,
}

/// The server-side record of one order.
#[derive(Debug)]
pub struct OrderLifecycle {
    pub order_id: String,
    /// The caller-supplied idempotency key this order answers to.
    pub client_id: String,
    pub symbol: String,
    pub state: OrderLifecycleState,
    /// Append-only history of every transition taken.
    pub state_history: Vec<StateTransition>,
    /// Milliseconds since the Unix epoch.
    pub created_at: u64,
    pub updated_at: u64,
    pub expires_at: Option<u64>,
    /// Free-form annotations, opaque to the core.
    pub metadata: Vec<(String, String)>,
}

impl OrderLifecycle {
    /// Well-formedness: the history is a chain of legal transitions that
    /// starts at Created and ends at the current state, and the update
    /// stamp never precedes creation.
    pub open spec fn wf(self) -> bool {
        &&& (self.state_history@.len() == 0 ==> self.state is Created)
        &&& (self.state_history@.len() > 0 ==> self.state_history@.last().to_state == self.state)
        &&& (self.state_history@.len() > 0 ==> self.state_history@[0].from_state is Created)
        &&& forall|i: int|
            0 <= i < self.state_history@.len() ==> spec_valid_transition(
                (#[trigger] self.state_history@[i]).from_state,
                self.state_history@[i].to_state,
            )
        &&& forall|i: int|
            0 < i < self.state_history@.len() ==> (#[trigger] self.state_history@[i]).from_state
                == self.state_history@[i - 1].to_state
        &&& self.created_at <= self.updated_at
        &&& keys_unique(self.metadata@)
    }

    /// Whether this lifecycle counts as expired at the given instant:
    /// it carries a deadline in the past and has not reached a terminal
    /// state.
    pub open spec fn spec_expired_at(self, now_ms: u64) -> bool {
        &&& self.expires_at matches Some(e) && e < now_ms
        &&& !spec_is_terminal(self.state)
    }
}

/// History completeness: for a well-formed lifecycle that has taken any
/// transition, the last history entry ends at the current state, and a
/// fresh one still stands at Created.
#[verifier::rlimit(60)]
pub proof fn lemma_history_complete(l: OrderLifecycle)
    requires
        l.wf(),
    ensures
        l.state_history@.len() > 0 ==> l.state_history@.last().to_state == l.state,
        l.state_history@.len() == 0 ==> l.state is Created,
{
}

/// Check whether a state is terminal.
pub fn is_terminal_state(state: &OrderLifecycleState) -> (r: bool)
    ensures
        r == spec_is_terminal(*state),
{
    match state {
        OrderLifecycleState::Filled => true,
        OrderLifecycleState::Cancelled => true,
        OrderLifecycleState::Rejected => true,
        OrderLifecycleState::Expired => true,
        OrderLifecycleState::Failed => true,
        _ => false,
    }
}

/// Check whether the state machine allows a transition.
pub fn validate_state_transition(from: &OrderLifecycleState, to: &OrderLifecycleState) -> (r: bool)
    ensures
        r == spec_valid_transition(*from, *to),
{
    match from {
        OrderLifecycleState::Created => match to {
            OrderLifecycleState::Validated => true,
            OrderLifecycleState::Rejected => true,
            OrderLifecycleState::Failed => true,
            _ => false,
        },
        OrderLifecycleState::Validated => match to {
            OrderLifecycleState::Submitted => true,
            OrderLifecycleState::Rejected => true,
            OrderLifecycleState::Failed => true,
            _ => false,
        },
        OrderLifecycleState::Submitted => match to {
            OrderLifecycleState::Acknowledged => true,
            OrderLifecycleState::Rejected => true,
            OrderLifecycleState::Failed => true,
            OrderLifecycleState::Expired => true,
            _ => false,
        },
        OrderLifecycleState::Acknowledged => match to {
            OrderLifecycleState::PartiallyFilled => true,
            OrderLifecycleState::Filled => true,
            OrderLifecycleState::Cancelled => true,
            OrderLifecycleState::Rejected => true,
            OrderLifecycleState::Failed => true,
            OrderLifecycleState::Expired => true,
            _ => false,
        },
        OrderLifecycleState::PartiallyFilled => match to {
            OrderLifecycleState::Filled => true,
            OrderLifecycleState::Cancelled => true,
            OrderLifecycleState::Failed => true,
            OrderLifecycleState::Expired => true,
            _ => false,
        },
        _ => false,
    }
}

/// The lifecycle state that a venue-reported status projects to.
pub open spec fn spec_state_of_status(status: OrderStatus) -> OrderLifecycleState {
    match status {
        OrderStatus::Pending => OrderLifecycleState::Submitted,
        OrderStatus::Open => OrderLifecycleState::Acknowledged,
        OrderStatus::PartiallyFilled => OrderLifecycleState::PartiallyFilled,
        OrderStatus::Filled => OrderLifecycleState::Filled,
        OrderStatus::Cancelled => OrderLifecycleState::Cancelled,
        OrderStatus::Rejected => OrderLifecycleState::Rejected,
        OrderStatus::Expired => OrderLifecycleState::Expired,
    }
}

impl core::convert::From<OrderStatus> for OrderLifecycleState {
    /// Project a venue-reported status onto the lifecycle state machine.
    fn from(status: OrderStatus) -> (r: Self) {
        match status {
            OrderStatus::Pending => OrderLifecycleState::Submitted,
            OrderStatus::Open => OrderLifecycleState::Acknowledged,
            OrderStatus::PartiallyFilled => OrderLifecycleState::PartiallyFilled,
            OrderStatus::Filled => OrderLifecycleState::Filled,
            OrderStatus::Cancelled => OrderLifecycleState::Cancelled,
            OrderStatus::Rejected => OrderLifecycleState::Rejected,
            OrderStatus::Expired => OrderLifecycleState::Expired,
        }
    }
}

impl vstd::std_specs::convert::FromSpecImpl<OrderStatus> for OrderLifecycleState {
    open spec fn obeys_from_spec() -> bool {
        true
    }

    open spec fn from_spec(status: OrderStatus) -> Self {
        spec_state_of_status(status)
    }
}

/// Counts of tracked orders by state.
#[derive(Debug, Clone, Copy, PartialEq, Eq, Structural)]
pub struct OrderStatistics {
    pub total_orders: usize,
    pub created: usize,
    pub validated: usize,
    pub submitted: usize,
    pub acknowledged: usize,
    pub partially_filled: usize,
    pub filled: usize,
    pub cancelled: usize,
    pub rejected: usize,
    pub expired: usize,
    pub failed: usize,
}


/// Whether a lifecycle is exactly a freshly created record for the given
/// identifiers at the given instant.
pub open spec fn is_fresh_lifecycle(
    l: OrderLifecycle,
    order_id: Seq<char>,
    client_id: Seq<char>,
    symbol: Seq<char>,
    now_ms: u64,
    expires_at: Option<u64>,
) -> bool {
    &&& l.order_id@ == order_id
    &&& l.client_id@ == client_id
    &&& l.symbol@ == symbol
    &&& l.state is Created
    &&& l.state_history@.len() == 0
    &&& l.created_at == now_ms
    &&& l.updated_at == now_ms
    &&& l.expires_at == expires_at
    &&& l.metadata@.len() == 0
}

/// The deadline a fresh order gets: the creation instant plus the requested
/// number of seconds, saturating instead of wrapping.
pub open spec fn spec_expiry(now_ms: u64, expires_in_seconds: Option<u64>) -> Option<u64> {
    match expires_in_seconds {
        Some(secs) => if secs <= (u64::MAX - now_ms) / 1000 {
            Some((now_ms + secs * 1000) as u64)
        } else {
            Some(u64::MAX)
        },
        None => None,
    }
}

/// Tracks every order lifecycle, indexed by order id and by client
/// decision id.
pub struct OrderManager {
    orders: Vec<(String, OrderLifecycle)>,
    client_index: Vec<(String, String)>,
}

impl OrderManager {
    /// The table of lifecycles, keyed by order id.
    pub closed spec fn spec_orders(&self) -> Seq<(String, OrderLifecycle)> {
        self.orders@
    }

    /// The index from client decision id to order id.
    pub closed spec fn spec_client_index(&self) -> Seq<(String, String)> {
        self.client_index@
    }

    /// The client-index entry at `i` points at an order whose record
    /// carries that same client decision id.
    pub open spec fn client_entry_matches_order(&self, i: int) -> bool {
        exists|j: int|
            0 <= j < self.spec_orders().len() && (#[trigger] self.spec_orders()[j]).0@
                == self.spec_client_index()[i].1@ && self.spec_orders()[j].1.client_id@
                == self.spec_client_index()[i].0@
    }

    /// Well-formedness: both tables have unique keys, every lifecycle is
    /// well formed and stored under its own order id, and the two tables
    /// are inverse to each other, so each client decision id owns exactly
    /// one order and each order answers to exactly one client decision id.
    pub open spec fn wf(&self) -> bool {
        &&& keys_unique(self.spec_orders())
        &&& keys_unique(self.spec_client_index())
        &&& forall|i: int|
            0 <= i < self.spec_orders().len() ==> (#[trigger] self.spec_orders()[i]).1.wf()
        &&& forall|i: int|
            0 <= i < self.spec_orders().len() ==> (#[trigger] self.spec_orders()[i]).1.order_id@
                == self.spec_orders()[i].0@
        &&& forall|i: int|
            0 <= i < self.spec_client_index().len() ==> #[trigger] self.client_entry_matches_order(
                i,
            )
    }

    pub fn new() -> (r: Self)
        ensures
            r.wf(),
            r.spec_orders().len() == 0,
            r.spec_client_index().len() == 0,
    {
        Self { orders: Vec::new(), client_index: Vec::new() }
    }

    /// Create a lifecycle in state Created at the given instant, indexed
    /// under both identifiers. Refused when either identifier is already
    /// in use: the tables stay one-to-one.
    #[verifier::rlimit(60)]
    pub fn create_order_at(
        &mut self,
        order_id: String,
        client_id: String,
        symbol: String,
        expires_in_seconds: Option<u64>,
        now_ms: u64,
    ) -> (r: Result<(), TradingError>)
        requires
            old(self).wf(),
        ensures
            final(self).wf(),
            match r {
                Ok(()) => {
                    &&& !has_key(old(self).spec_orders(), order_id@)
                    &&& !has_key(old(self).spec_client_index(), client_id@)
                    &&& final(self).spec_orders().len() == old(self).spec_orders().len() + 1
                    &&& final(self).spec_orders().drop_last() == old(self).spec_orders()
                    &&& final(self).spec_orders().last().0@ == order_id@
                    &&& is_fresh_lifecycle(
                        final(self).spec_orders().last().1,
                        order_id@,
                        client_id@,
                        symbol@,
                        now_ms,
                        spec_expiry(now_ms, expires_in_seconds),
                    )
                    &&& final(self).spec_client_index().len() == old(
                        self,
                    ).spec_client_index().len() + 1
                    &&& final(self).spec_client_index().drop_last() == old(
                        self,
                    ).spec_client_index()
                    &&& final(self).spec_client_index().last().0@ == client_id@
                    &&& final(self).spec_client_index().last().1@ == order_id@
                },
                Err(e) => {
                    &&& has_key(old(self).spec_orders(), order_id@) || has_key(
                        old(self).spec_client_index(),
                        client_id@,
                    )
                    &&& e is ExecutionError
                    &&& *final(self) == *old(self)
                },
            },
    {
        if find_index(&self.orders, order_id.as_str()).is_some() || find_index(
            &self.client_index,
            client_id.as_str(),
        ).is_some() {
            return Err(
                TradingError::ExecutionError {
                    message: String::from_str("Order already exists"),
                },
            );
        }
        let expires_at = match expires_in_seconds {
            Some(secs) => if secs <= (u64::MAX - now_ms) / 1000 {
                Some(now_ms + secs * 1000)
            } else {
                Some(u64::MAX)
            },
            None => None,
        };
        let lifecycle = OrderLifecycle {
            order_id: order_id.clone(),
            client_id: client_id.clone(),
            symbol,
            state: OrderLifecycleState::Created,
            state_history: Vec::new(),
            created_at: now_ms,
            updated_at: now_ms,
            expires_at,
            metadata: Vec::new(),
        };
        self.orders.push((order_id.clone(), lifecycle));
        self.client_index.push((client_id, order_id));
        proof {
            let po = self.spec_orders();
            let pc = self.spec_client_index();
            let oo = old(self).spec_orders();
            let oc = old(self).spec_client_index();
            assert(po.drop_last() =~= oo);
            assert(pc.drop_last() =~= oc);
            assert forall|i: int| 0 <= i < pc.len() implies #[trigger] self.client_entry_matches_order(
                i,
            ) by {
                if i < pc.len() - 1 {
                    assert(old(self).client_entry_matches_order(i));
                    let j = choose|j: int|
                        0 <= j < oo.len() && (#[trigger] oo[j]).0@ == oc[i].1@
                            && oo[j].1.client_id@ == oc[i].0@;
                    assert(po[j] == oo[j]);
                } else {
                    let j = po.len() - 1;
                    assert(po[j].0@ == pc[i].1@ && po[j].1.client_id@ == pc[i].0@);
                }
            }
        }
        Ok(())
    }

    /// Create a lifecycle in state Created, stamped with the wall clock.
    pub fn create_order(
        &mut self,
        order_id: String,
        client_id: String,
        symbol: String,
        expires_in_seconds: Option<u64>,
    ) -> (r: Result<(), TradingError>)
        requires
            old(self).wf(),
        ensures
            final(self).wf(),
            r is Ok <==> !has_key(old(self).spec_orders(), order_id@) && !has_key(
                old(self).spec_client_index(),
                client_id@,
            ),
            r is Ok ==> {
                &&& final(self).spec_orders().len() == old(self).spec_orders().len() + 1
                &&& final(self).spec_orders().drop_last() == old(self).spec_orders()
                &&& final(self).spec_orders().last().0@ == order_id@
                &&& exists|now: u64|
                    is_fresh_lifecycle(
                        final(self).spec_orders().last().1,
                        order_id@,
                        client_id@,
                        symbol@,
                        now,
                        spec_expiry(now, expires_in_seconds),
                    )
                &&& final(self).spec_client_index().len() == old(self).spec_client_index().len()
                    + 1
                &&& final(self).spec_client_index().drop_last() == old(self).spec_client_index()
                &&& final(self).spec_client_index().last().0@ == client_id@
                &&& final(self).spec_client_index().last().1@ == order_id@
            },
            r is Err ==> *final(self) == *old(self),
    {
        let ghost oid = order_id@;
        let ghost cid = client_id@;
        let ghost sym = symbol@;
        let now = current_millis();
        let r = self.create_order_at(order_id, client_id, symbol, expires_in_seconds, now);
        proof {
            if r is Ok {
                assert(is_fresh_lifecycle(
                    self.spec_orders().last().1,
                    oid,
                    cid,
                    sym,
                    now,
                    spec_expiry(now, expires_in_seconds),
                ));
            }
        }
        r
    }
}


/// How one lifecycle record changes under a recorded transition: the state
/// becomes the new state, one entry is appended to the history carrying the
/// old and new states, the instant, the reason and the given annotations,
/// the update stamp moves forward to the instant (never backward), and
/// everything else is untouched.
pub open spec fn lifecycle_transitioned(
    pre: OrderLifecycle,
    post: OrderLifecycle,
    new_state: OrderLifecycleState,
    reason: String,
    metadata: Option<Vec<(String, String)>>,
    now_ms: u64,
) -> bool {
    &&& post.order_id == pre.order_id
    &&& post.client_id == pre.client_id
    &&& post.symbol == pre.symbol
    &&& post.state == new_state
    &&& post.state_history@.len() == pre.state_history@.len() + 1
    &&& post.state_history@.drop_last() == pre.state_history@
    &&& post.state_history@.last().from_state == pre.state
    &&& post.state_history@.last().to_state == new_state
    &&& post.state_history@.last().timestamp == now_ms
    &&& post.state_history@.last().reason == reason
    &&& (metadata matches Some(m) ==> post.state_history@.last().metadata == m)
    &&& (metadata is None ==> post.state_history@.last().metadata@.len() == 0)
    &&& post.created_at == pre.created_at
    &&& post.updated_at == if now_ms > pre.updated_at {
        now_ms
    } else {
        pre.updated_at
    }
    &&& post.expires_at == pre.expires_at
    &&& post.metadata == pre.metadata
}

impl OrderManager {
    /// What `transition_state` does for a given clock reading: on success
    /// exactly the addressed record changes, as `lifecycle_transitioned`
    /// says; the call fails, changing nothing, if and only if the order is
    /// unknown or the state machine refuses the step.
    pub open spec fn transition_outcome(
        pre: OrderManager,
        post: OrderManager,
        r: Result<(), TradingError>,
        order_id: Seq<char>,
        new_state: OrderLifecycleState,
        reason: String,
        metadata: Option<Vec<(String, String)>>,
        now_ms: u64,
    ) -> bool {
        match r {
            Ok(()) => {
                &&& has_key(pre.spec_orders(), order_id)
                &&& spec_valid_transition(
                    value_of_key(pre.spec_orders(), order_id).state,
                    new_state,
                )
                &&& post.spec_client_index() == pre.spec_client_index()
                &&& post.spec_orders().len() == pre.spec_orders().len()
                &&& {
                    let i = index_of_key(pre.spec_orders(), order_id);
                    &&& forall|j: int|
                        0 <= j < pre.spec_orders().len() && j != i
                            ==> #[trigger] post.spec_orders()[j] == pre.spec_orders()[j]
                    &&& post.spec_orders()[i].0 == pre.spec_orders()[i].0
                    &&& lifecycle_transitioned(
                        pre.spec_orders()[i].1,
                        post.spec_orders()[i].1,
                        new_state,
                        reason,
                        metadata,
                        now_ms,
                    )
                }
            },
            Err(e) => {
                &&& e is ExecutionError
                &&& post == pre
                &&& !(has_key(pre.spec_orders(), order_id) && spec_valid_transition(
                    value_of_key(pre.spec_orders(), order_id).state,
                    new_state,
                ))
            },
        }
    }

    /// Replacing the record at one index, keeping its key, its order id and
    /// its client id, and leaving the client index alone, preserves the
    /// manager's well-formedness.
    #[verifier::rlimit(100)]
    proof fn lemma_update_one_preserves_wf(pre: OrderManager, post: OrderManager, i: int)
        requires
            pre.wf(),
            0 <= i < pre.spec_orders().len(),
            post.spec_client_index() == pre.spec_client_index(),
            post.spec_orders().len() == pre.spec_orders().len(),
            forall|j: int|
                0 <= j < pre.spec_orders().len() && j != i ==> #[trigger] post.spec_orders()[j]
                    == pre.spec_orders()[j],
            post.spec_orders()[i].0 == pre.spec_orders()[i].0,
            post.spec_orders()[i].1.wf(),
            post.spec_orders()[i].1.order_id == pre.spec_orders()[i].1.order_id,
            post.spec_orders()[i].1.client_id == pre.spec_orders()[i].1.client_id,
        ensures
            post.wf(),
    {
        let po = post.spec_orders();
        let oo = pre.spec_orders();
        assert(forall|j: int| 0 <= j < po.len() ==> (#[trigger] po[j]).0 == oo[j].0);
        assert(forall|j: int|
            0 <= j < po.len() ==> (#[trigger] po[j]).1.order_id == oo[j].1.order_id
                && po[j].1.client_id == oo[j].1.client_id);
        assert(keys_unique(po));
        assert(keys_unique(post.spec_client_index()));
        assert(forall|j: int| 0 <= j < po.len() ==> (#[trigger] po[j]).1.wf());
        assert(forall|j: int| 0 <= j < po.len() ==> (#[trigger] po[j]).1.order_id@ == po[j].0@);
        assert forall|x: int| 0 <= x < post.spec_client_index().len()
            implies #[trigger] post.client_entry_matches_order(x) by {
            assert(pre.client_entry_matches_order(x));
            let j = choose|j: int|
                0 <= j < oo.len() && (#[trigger] oo[j]).0@ == pre.spec_client_index()[x].1@
                    && oo[j].1.client_id@ == pre.spec_client_index()[x].0@;
            assert(po[j].0@ == oo[j].0@ && po[j].1.client_id@ == oo[j].1.client_id@);
        }
    }

    /// Move an order to a new state at the given instant, appending to its
    /// history. Refused, with nothing changed, when the order is unknown or
    /// the lifecycle state machine does not allow the step.
    #[verifier::rlimit(100)]
    pub fn transition_state_at(
        &mut self,
        order_id: &str,
        new_state: OrderLifecycleState,
        reason: String,
        metadata: Option<Vec<(String, String)>>,
        now_ms: u64,
    ) -> (r: Result<(), TradingError>)
        requires
            old(self).wf(),
        ensures
            final(self).wf(),
            Self::transition_outcome(
                *old(self),
                *final(self),
                r,
                order_id@,
                new_state,
                reason,
                metadata,
                now_ms,
            ),
    {
        let i = match find_index(&self.orders, order_id) {
            Some(i) => i,
            None => {
                let mut message = String::from_str("Order not found: ");
                message.append(order_id);
                return Err(TradingError::ExecutionError { message });
            },
        };
        proof {
            lemma_index_of_key(self.spec_orders(), order_id@);
        }
        let cur_state = self.orders[i].1.state;
        if !validate_state_transition(&cur_state, &new_state) {
            let mut message = String::from_str("Invalid state transition for order: ");
            message.append(order_id);
            return Err(TradingError::ExecutionError { message });
        }
        let transition_metadata = match metadata {
            Some(m) => m,
            None => Vec::new(),
        };
        let transition = StateTransition {
            from_state: cur_state,
            to_state: new_state,
            timestamp: now_ms,
            reason,
            metadata: transition_metadata,
        };
        let entry = &mut self.orders[i];
        entry.1.state = new_state;
        entry.1.state_history.push(transition);
        if now_ms > entry.1.updated_at {
            entry.1.updated_at = now_ms;
        }
        proof {
            let po = self.spec_orders();
            let oo = old(self).spec_orders();
            assert(po[i as int].1.state_history@.drop_last() =~= oo[i as int].1.state_history@);
            assert(po[i as int].1.wf());
            Self::lemma_update_one_preserves_wf(*old(self), *self, i as int);
        }
        Ok(())
    }

    /// Move an order to a new state, stamped with the wall clock.
    pub fn transition_state(
        &mut self,
        order_id: &str,
        new_state: OrderLifecycleState,
        reason: String,
        metadata: Option<Vec<(String, String)>>,
    ) -> (r: Result<(), TradingError>)
        requires
            old(self).wf(),
        ensures
            final(self).wf(),
            exists|now: u64|
                Self::transition_outcome(
                    *old(self),
                    *final(self),
                    r,
                    order_id@,
                    new_state,
                    reason,
                    metadata,
                    now,
                ),
            r is Ok <==> has_key(old(self).spec_orders(), order_id@) && spec_valid_transition(
                value_of_key(old(self).spec_orders(), order_id@).state,
                new_state,
            ),
    {
        let ghost reason_snapshot = reason;
        let ghost metadata_snapshot = metadata;
        let now = current_millis();
        let r = self.transition_state_at(order_id, new_state, reason, metadata, now);
        proof {
            assert(Self::transition_outcome(
                *old(self),
                *self,
                r,
                order_id@,
                new_state,
                reason_snapshot,
                metadata_snapshot,
                now,
            ));
        }
        r
    }

    /// Look up a lifecycle by order id.
    #[verifier::rlimit(100)]
    pub fn get_order(&self, order_id: &str) -> (r: Option<&OrderLifecycle>)
        requires
            self.wf(),
        ensures
            match r {
                Some(l) => has_key(self.spec_orders(), order_id@) && *l == value_of_key(
                    self.spec_orders(),
                    order_id@,
                ),
                None => !has_key(self.spec_orders(), order_id@),
            },
    {
        match find_index(&self.orders, order_id) {
            Some(i) => {
                proof {
                    lemma_index_of_key(self.spec_orders(), order_id@);
                }
                Some(&self.orders[i].1)
            },
            None => None,
        }
    }

    /// Look up a lifecycle by the client decision id it answers to.
    #[verifier::rlimit(100)]
    pub fn get_order_by_client_id(&self, client_id: &str) -> (r: Option<&OrderLifecycle>)
        requires
            self.wf(),
        ensures
            match r {
                Some(l) => {
                    &&& has_key(self.spec_client_index(), client_id@)
                    &&& *l == value_of_key(
                        self.spec_orders(),
                        value_of_key(self.spec_client_index(), client_id@)@,
                    )
                    &&& l.client_id@ == client_id@
                },
                None => !has_key(self.spec_client_index(), client_id@),
            },
    {
        let ci = match find_index(&self.client_index, client_id) {
            Some(ci) => ci,
            None => {
                return None;
            },
        };
        proof {
            lemma_index_of_key(self.spec_client_index(), client_id@);
        }
        let order_id: &String = &self.client_index[ci].1;
        match find_index(&self.orders, order_id.as_str()) {
            Some(i) => {
                proof {
                    lemma_index_of_key(self.spec_orders(), order_id@);
                    assert(self.client_entry_matches_order(ci as int));
                }
                Some(&self.orders[i].1)
            },
            None => {
                proof {
                    assert(self.client_entry_matches_order(ci as int));
                    assert(false);
                }
                None
            },
        }
    }

    /// Whether any order answers to the given client decision id (the
    /// idempotency check).
    pub fn order_exists_by_client_id(&self, client_id: &str) -> (r: bool)
        ensures
            r == has_key(self.spec_client_index(), client_id@),
    {
        find_index(&self.client_index, client_id).is_some()
    }
}


/// How many tracked orders stand in the given state.
pub open spec fn count_in_state(
    s: Seq<(String, OrderLifecycle)>,
    st: OrderLifecycleState,
) -> int
    decreases s.len(),
{
    if s.len() == 0 {
        0
    } else {
        count_in_state(s.drop_last(), st) + if s.last().1.state == st {
            1int
        } else {
            0int
        }
    }
}

/// How many tracked orders count as expired at the given instant.
pub open spec fn count_expired(s: Seq<(String, OrderLifecycle)>, now_ms: u64) -> int
    decreases s.len(),
{
    if s.len() == 0 {
        0
    } else {
        count_expired(s.drop_last(), now_ms) + if s.last().1.spec_expired_at(now_ms) {
            1int
        } else {
            0int
        }
    }
}

/// Counting one more entry adds one exactly when it is in the state.
proof fn lemma_count_in_state_step(
    s: Seq<(String, OrderLifecycle)>,
    i: int,
    st: OrderLifecycleState,
)
    requires
        0 <= i < s.len(),
    ensures
        count_in_state(s.subrange(0, i + 1), st) == count_in_state(s.subrange(0, i), st) + if s[
            i
        ].1.state == st {
            1int
        } else {
            0int
        },
{
    assert(s.subrange(0, i + 1).drop_last() =~= s.subrange(0, i));
    assert(s.subrange(0, i + 1).last() == s[i]);
}

/// A count by state never exceeds the number of entries.
proof fn lemma_count_in_state_le(s: Seq<(String, OrderLifecycle)>, st: OrderLifecycleState)
    ensures
        0 <= count_in_state(s, st) <= s.len(),
    decreases s.len(),
{
    if s.len() > 0 {
        lemma_count_in_state_le(s.drop_last(), st);
    }
}

/// Counting one more entry adds one exactly when it is expired.
proof fn lemma_count_expired_step(s: Seq<(String, OrderLifecycle)>, i: int, now_ms: u64)
    requires
        0 <= i < s.len(),
    ensures
        count_expired(s.subrange(0, i + 1), now_ms) == count_expired(s.subrange(0, i), now_ms)
            + if s[i].1.spec_expired_at(now_ms) {
            1int
        } else {
            0int
        },
{
    assert(s.subrange(0, i + 1).drop_last() =~= s.subrange(0, i));
    assert(s.subrange(0, i + 1).last() == s[i]);
}

impl OrderManager {
    /// All orders standing in the given state, in table order.
    pub fn get_orders_by_state(&self, state: OrderLifecycleState) -> (r: Vec<&OrderLifecycle>)
        ensures
            r@.len() == count_in_state(self.spec_orders(), state),
            forall|k: int| 0 <= k < r@.len() ==> (#[trigger] r@[k]).state == state,
            forall|k: int|
                0 <= k < r@.len() ==> exists|j: int|
                    0 <= j < self.spec_orders().len() && *(#[trigger] r@[k]) == (
                    #[trigger] self.spec_orders()[j]).1,
    {
        let n = self.orders.len();
        let mut out: Vec<&OrderLifecycle> = Vec::new();
        let mut i: usize = 0;
        proof {
            assert(self.spec_orders().subrange(0, 0) =~= Seq::empty());
        }
        while i < n
            invariant
                n == self.spec_orders().len(),
                i <= n,
                out@.len() == count_in_state(self.spec_orders().subrange(0, i as int), state),
                forall|k: int| 0 <= k < out@.len() ==> (#[trigger] out@[k]).state == state,
                forall|k: int|
                    0 <= k < out@.len() ==> exists|j: int|
                        0 <= j < self.spec_orders().len() && *(#[trigger] out@[k]) == (
                        #[trigger] self.spec_orders()[j]).1,
            decreases n - i,
        {
            proof {
                lemma_count_in_state_step(self.spec_orders(), i as int, state);
            }
            if self.orders[i].1.state == state {
                out.push(&self.orders[i].1);
            }
            i = i + 1;
        }
        proof {
            assert(self.spec_orders().subrange(0, n as int) =~= self.spec_orders());
        }
        out
    }

    /// All non-terminal orders whose deadline has passed the given instant.
    pub fn get_expired_orders_at(&self, now_ms: u64) -> (r: Vec<&OrderLifecycle>)
        ensures
            r@.len() == count_expired(self.spec_orders(), now_ms),
            forall|k: int| 0 <= k < r@.len() ==> (#[trigger] r@[k]).spec_expired_at(now_ms),
            forall|k: int|
                0 <= k < r@.len() ==> exists|j: int|
                    0 <= j < self.spec_orders().len() && *(#[trigger] r@[k]) == (
                    #[trigger] self.spec_orders()[j]).1,
    {
        let n = self.orders.len();
        let mut out: Vec<&OrderLifecycle> = Vec::new();
        let mut i: usize = 0;
        proof {
            assert(self.spec_orders().subrange(0, 0) =~= Seq::empty());
        }
        while i < n
            invariant
                n == self.spec_orders().len(),
                i <= n,
                out@.len() == count_expired(self.spec_orders().subrange(0, i as int), now_ms),
                forall|k: int|
                    0 <= k < out@.len() ==> (#[trigger] out@[k]).spec_expired_at(now_ms),
                forall|k: int|
                    0 <= k < out@.len() ==> exists|j: int|
                        0 <= j < self.spec_orders().len() && *(#[trigger] out@[k]) == (
                        #[trigger] self.spec_orders()[j]).1,
            decreases n - i,
        {
            proof {
                lemma_count_expired_step(self.spec_orders(), i as int, now_ms);
            }
            let expired = match &self.orders[i].1.expires_at {
                Some(e) => *e < now_ms && !is_terminal_state(&self.orders[i].1.state),
                None => false,
            };
            if expired {
                out.push(&self.orders[i].1);
            }
            i = i + 1;
        }
        proof {
            assert(self.spec_orders().subrange(0, n as int) =~= self.spec_orders());
        }
        out
    }

    /// All non-terminal orders whose deadline has passed, against the wall
    /// clock.
    pub fn get_expired_orders(&self) -> (r: Vec<&OrderLifecycle>)
        ensures
            exists|now: u64|
                {
                    &&& r@.len() == count_expired(self.spec_orders(), now)
                    &&& forall|k: int|
                        0 <= k < r@.len() ==> (#[trigger] r@[k]).spec_expired_at(now)
                },
            forall|k: int|
                0 <= k < r@.len() ==> exists|j: int|
                    0 <= j < self.spec_orders().len() && *(#[trigger] r@[k]) == (
                    #[trigger] self.spec_orders()[j]).1,
    {
        let now = current_millis();
        let r = self.get_expired_orders_at(now);
        proof {
            assert(r@.len() == count_expired(self.spec_orders(), now) && forall|k: int|
                0 <= k < r@.len() ==> (#[trigger] r@[k]).spec_expired_at(now));
        }
        r
    }

    /// Counts of tracked orders by state.
    pub fn get_statistics(&self) -> (r: OrderStatistics)
        ensures
            r.total_orders == self.spec_orders().len(),
            r.created == count_in_state(self.spec_orders(), OrderLifecycleState::Created),
            r.validated == count_in_state(self.spec_orders(), OrderLifecycleState::Validated),
            r.submitted == count_in_state(self.spec_orders(), OrderLifecycleState::Submitted),
            r.acknowledged == count_in_state(
                self.spec_orders(),
                OrderLifecycleState::Acknowledged,
            ),
            r.partially_filled == count_in_state(
                self.spec_orders(),
                OrderLifecycleState::PartiallyFilled,
            ),
            r.filled == count_in_state(self.spec_orders(), OrderLifecycleState::Filled),
            r.cancelled == count_in_state(self.spec_orders(), OrderLifecycleState::Cancelled),
            r.rejected == count_in_state(self.spec_orders(), OrderLifecycleState::Rejected),
            r.expired == count_in_state(self.spec_orders(), OrderLifecycleState::Expired),
            r.failed == count_in_state(self.spec_orders(), OrderLifecycleState::Failed),
    {
        let n = self.orders.len();
        let mut stats = OrderStatistics {
            total_orders: n,
            created: 0,
            validated: 0,
            submitted: 0,
            acknowledged: 0,
            partially_filled: 0,
            filled: 0,
            cancelled: 0,
            rejected: 0,
            expired: 0,
            failed: 0,
        };
        let mut i: usize = 0;
        proof {
            assert(self.spec_orders().subrange(0, 0) =~= Seq::empty());
        }
        while i < n
            invariant
                n == self.spec_orders().len(),
                i <= n,
                stats.total_orders == n,
                stats.created == count_in_state(
                    self.spec_orders().subrange(0, i as int),
                    OrderLifecycleState::Created,
                ),
                stats.validated == count_in_state(
                    self.spec_orders().subrange(0, i as int),
                    OrderLifecycleState::Validated,
                ),
                stats.submitted == count_in_state(
                    self.spec_orders().subrange(0, i as int),
                    OrderLifecycleState::Submitted,
                ),
                stats.acknowledged == count_in_state(
                    self.spec_orders().subrange(0, i as int),
                    OrderLifecycleState::Acknowledged,
                ),
                stats.partially_filled == count_in_state(
                    self.spec_orders().subrange(0, i as int),
                    OrderLifecycleState::PartiallyFilled,
                ),
                stats.filled == count_in_state(
                    self.spec_orders().subrange(0, i as int),
                    OrderLifecycleState::Filled,
                ),
                stats.cancelled == count_in_state(
                    self.spec_orders().subrange(0, i as int),
                    OrderLifecycleState::Cancelled,
                ),
                stats.rejected == count_in_state(
                    self.spec_orders().subrange(0, i as int),
                    OrderLifecycleState::Rejected,
                ),
                stats.expired == count_in_state(
                    self.spec_orders().subrange(0, i as int),
                    OrderLifecycleState::Expired,
                ),
                stats.failed == count_in_state(
                    self.spec_orders().subrange(0, i as int),
                    OrderLifecycleState::Failed,
                ),
            decreases n - i,
        {
            proof {
                lemma_count_in_state_step(
                    self.spec_orders(),
                    i as int,
                    OrderLifecycleState::Created,
                );
                lemma_count_in_state_step(
                    self.spec_orders(),
                    i as int,
                    OrderLifecycleState::Validated,
                );
                lemma_count_in_state_step(
                    self.spec_orders(),
                    i as int,
                    OrderLifecycleState::Submitted,
                );
                lemma_count_in_state_step(
                    self.spec_orders(),
                    i as int,
                    OrderLifecycleState::Acknowledged,
                );
                lemma_count_in_state_step(
                    self.spec_orders(),
                    i as int,
                    OrderLifecycleState::PartiallyFilled,
                );
                lemma_count_in_state_step(
                    self.spec_orders(),
                    i as int,
                    OrderLifecycleState::Filled,
                );
                lemma_count_in_state_step(
                    self.spec_orders(),
                    i as int,
                    OrderLifecycleState::Cancelled,
                );
                lemma_count_in_state_step(
                    self.spec_orders(),
                    i as int,
                    OrderLifecycleState::Rejected,
                );
                lemma_count_in_state_step(
                    self.spec_orders(),
                    i as int,
                    OrderLifecycleState::Expired,
                );
                lemma_count_in_state_step(
                    self.spec_orders(),
                    i as int,
                    OrderLifecycleState::Failed,
                );
                lemma_count_in_state_le(
                    self.spec_orders().subrange(0, i as int),
                    self.spec_orders()[i as int].1.state,
                );
            }
            match self.orders[i].1.state {
                OrderLifecycleState::Created => {
                    stats.created = stats.created + 1;
                },
                OrderLifecycleState::Validated => {
                    stats.validated = stats.validated + 1;
                },
                OrderLifecycleState::Submitted => {
                    stats.submitted = stats.submitted + 1;
                },
                OrderLifecycleState::Acknowledged => {
                    stats.acknowledged = stats.acknowledged + 1;
                },
                OrderLifecycleState::PartiallyFilled => {
                    stats.partially_filled = stats.partially_filled + 1;
                },
                OrderLifecycleState::Filled => {
                    stats.filled = stats.filled + 1;
                },
                OrderLifecycleState::Cancelled => {
                    stats.cancelled = stats.cancelled + 1;
                },
                OrderLifecycleState::Rejected => {
                    stats.rejected = stats.rejected + 1;
                },
                OrderLifecycleState::Expired => {
                    stats.expired = stats.expired + 1;
                },
                OrderLifecycleState::Failed => {
                    stats.failed = stats.failed + 1;
                },
            }
            i = i + 1;
        }
        proof {
            assert(self.spec_orders().subrange(0, n as int) =~= self.spec_orders());
        }
        stats
    }
}


impl OrderManager {
    /// What `update_metadata` does for a given clock reading: on success
    /// exactly the addressed record changes, its annotation under the key
    /// is set to the value (replacing an earlier one, or appended), its
    /// update stamp moves forward, and nothing else changes; the call
    /// fails, changing nothing, if and only if the order is unknown.
    pub open spec fn metadata_outcome(
        pre: OrderManager,
        post: OrderManager,
        r: Result<(), TradingError>,
        order_id: Seq<char>,
        key: String,
        value: String,
        now_ms: u64,
    ) -> bool {
        match r {
            Ok(()) => {
                &&& has_key(pre.spec_orders(), order_id)
                &&& post.spec_client_index() == pre.spec_client_index()
                &&& post.spec_orders().len() == pre.spec_orders().len()
                &&& {
                    let i = index_of_key(pre.spec_orders(), order_id);
                    let lp = pre.spec_orders()[i].1;
                    let lq = post.spec_orders()[i].1;
                    &&& forall|j: int|
                        0 <= j < pre.spec_orders().len() && j != i
                            ==> #[trigger] post.spec_orders()[j] == pre.spec_orders()[j]
                    &&& post.spec_orders()[i].0 == pre.spec_orders()[i].0
                    &&& lq.metadata@ == if has_key(lp.metadata@, key@) {
                        lp.metadata@.update(index_of_key(lp.metadata@, key@), (key, value))
                    } else {
                        lp.metadata@.push((key, value))
                    }
                    &&& lq.updated_at == if now_ms > lp.updated_at {
                        now_ms
                    } else {
                        lp.updated_at
                    }
                    &&& lq.order_id == lp.order_id
                    &&& lq.client_id == lp.client_id
                    &&& lq.symbol == lp.symbol
                    &&& lq.state == lp.state
                    &&& lq.state_history == lp.state_history
                    &&& lq.created_at == lp.created_at
                    &&& lq.expires_at == lp.expires_at
                }
            },
            Err(e) => {
                &&& e is ExecutionError
                &&& post == pre
                &&& !has_key(pre.spec_orders(), order_id)
            },
        }
    }

    /// Set one annotation on an order at the given instant.
    #[verifier::rlimit(100)]
    pub fn update_metadata_at(
        &mut self,
        order_id: &str,
        key: String,
        value: String,
        now_ms: u64,
    ) -> (r: Result<(), TradingError>)
        requires
            old(self).wf(),
        ensures
            final(self).wf(),
            Self::metadata_outcome(*old(self), *final(self), r, order_id@, key, value, now_ms),
    {
        let i = match find_index(&self.orders, order_id) {
            Some(i) => i,
            None => {
                let mut message = String::from_str("Order not found: ");
                message.append(order_id);
                return Err(TradingError::ExecutionError { message });
            },
        };
        proof {
            lemma_index_of_key(self.spec_orders(), order_id@);
        }
        let mi = find_index(&self.orders[i].1.metadata, key.as_str());
        let entry = &mut self.orders[i];
        match mi {
            Some(m) => {
                proof {
                    lemma_index_of_key(old(self).spec_orders()[i as int].1.metadata@, key@);
                }
                entry.1.metadata.set(m, (key, value));
            },
            None => {
                entry.1.metadata.push((key, value));
            },
        }
        if now_ms > entry.1.updated_at {
            entry.1.updated_at = now_ms;
        }
        proof {
            let po = self.spec_orders();
            let oo = old(self).spec_orders();
            let lp = oo[i as int].1;
            let lq = po[i as int].1;
            assert(keys_unique(lq.metadata@)) by {
                if has_key(lp.metadata@, key@) {
                    let m = index_of_key(lp.metadata@, key@);
                    assert(forall|x: int|
                        0 <= x < lq.metadata@.len() && x != m ==> (#[trigger] lq.metadata@[x])
                            == lp.metadata@[x]);
                } else {
                    assert(lq.metadata@.drop_last() =~= lp.metadata@);
                }
            }
            assert(lq.wf());
            Self::lemma_update_one_preserves_wf(*old(self), *self, i as int);
        }
        Ok(())
    }

    /// Set one annotation on an order, stamped with the wall clock.
    pub fn update_metadata(&mut self, order_id: &str, key: String, value: String) -> (r: Result<
        (),
        TradingError,
    >)
        requires
            old(self).wf(),
        ensures
            final(self).wf(),
            exists|now: u64|
                Self::metadata_outcome(*old(self), *final(self), r, order_id@, key, value, now),
            r is Ok <==> has_key(old(self).spec_orders(), order_id@),
    {
        let ghost key_snapshot = key;
        let ghost value_snapshot = value;
        let now = current_millis();
        let r = self.update_metadata_at(order_id, key, value, now);
        proof {
            assert(Self::metadata_outcome(
                *old(self),
                *self,
                r,
                order_id@,
                key_snapshot,
                value_snapshot,
                now,
            ));
        }
        r
    }
}


/// Whether the janitor removes a lifecycle at the given cutoff: only
/// terminal orders whose last update is older than the cutoff are reaped.
pub open spec fn should_reap(l: OrderLifecycle, cutoff_ms: u64) -> bool {
    spec_is_terminal(l.state) && l.updated_at < cutoff_ms
}

/// The order table after a sweep at the given cutoff, in original order.
pub open spec fn surviving_orders(
    s: Seq<(String, OrderLifecycle)>,
    cutoff_ms: u64,
) -> Seq<(String, OrderLifecycle)>
    decreases s.len(),
{
    if s.len() == 0 {
        Seq::empty()
    } else {
        let rest = surviving_orders(s.drop_last(), cutoff_ms);
        if should_reap(s.last().1, cutoff_ms) {
            rest
        } else {
            rest.push(s.last())
        }
    }
}

/// The client index after a sweep: the entries whose order survived.
pub open spec fn surviving_clients(
    ci: Seq<(String, String)>,
    orders: Seq<(String, OrderLifecycle)>,
) -> Seq<(String, String)>
    decreases ci.len(),
{
    if ci.len() == 0 {
        Seq::empty()
    } else {
        let rest = surviving_clients(ci.drop_last(), orders);
        if has_key(orders, ci.last().1@) {
            rest.push(ci.last())
        } else {
            rest
        }
    }
}

/// What survives a sweep: under unique keys, a key survives exactly when
/// its order is not reaped, its record is unchanged, uniqueness is kept,
/// and every surviving entry is one of the original entries.
pub proof fn lemma_surviving_orders_props(s: Seq<(String, OrderLifecycle)>, cutoff_ms: u64)
    requires
        keys_unique(s),
    ensures
        keys_unique(surviving_orders(s, cutoff_ms)),
        surviving_orders(s, cutoff_ms).len() <= s.len(),
        forall|k: Seq<char>|
            #[trigger] has_key(surviving_orders(s, cutoff_ms), k) <==> (has_key(s, k)
                && !should_reap(value_of_key(s, k), cutoff_ms)),
        forall|k: Seq<char>|
            #[trigger] has_key(surviving_orders(s, cutoff_ms), k) ==> value_of_key(
                surviving_orders(s, cutoff_ms),
                k,
            ) == value_of_key(s, k),
        forall|i: int|
            0 <= i < surviving_orders(s, cutoff_ms).len() ==> exists|j: int|
                0 <= j < s.len() && #[trigger] surviving_orders(s, cutoff_ms)[i] == s[j],
    decreases s.len(),
{
    let surv = surviving_orders(s, cutoff_ms);
    if s.len() == 0 {
        assert(forall|k: Seq<char>| !has_key(surv, k));
        assert(forall|k: Seq<char>| !has_key(s, k));
    } else {
        let s0 = s.drop_last();
        let e = s.last();
        assert(keys_unique(s0));
        lemma_surviving_orders_props(s0, cutoff_ms);
        let surv0 = surviving_orders(s0, cutoff_ms);
        assert(forall|j: int| 0 <= j < s0.len() ==> s0[j] == s[j]);
        assert(!has_key(s0, e.0@));
        assert(!has_key(surv0, e.0@));
        assert forall|k: Seq<char>| #[trigger] has_key(s, k) && k != e.0@ implies has_key(s0, k)
            && value_of_key(s0, k) == value_of_key(s, k) by {
            lemma_index_of_key(s, k);
            let j = index_of_key(s, k);
            assert(j < s.len() - 1);
            assert(s0[j].0@ == k);
            assert(has_key(s0, k));
            lemma_index_of_key(s0, k);
        }
        assert(has_key(s, e.0@));
        lemma_index_of_key(s, e.0@);
        assert(value_of_key(s, e.0@) == e.1);
        if should_reap(e.1, cutoff_ms) {
            assert(surv == surv0);
            assert forall|k: Seq<char>| #[trigger] has_key(surv, k) implies (has_key(s, k)
                && !should_reap(value_of_key(s, k), cutoff_ms)) by {
                assert(has_key(s0, k) && !should_reap(value_of_key(s0, k), cutoff_ms));
                lemma_index_of_key(s0, k);
                let j = index_of_key(s0, k);
                assert(s[j].0@ == k);
                assert(has_key(s, k));
                lemma_index_of_key(s, k);
            }
            assert forall|k: Seq<char>| has_key(s, k) && !should_reap(
                value_of_key(s, k),
                cutoff_ms,
            ) implies #[trigger] has_key(surv, k) by {
                assert(k != e.0@);
                assert(has_key(s0, k));
            }
        } else {
            assert(surv == surv0.push(e));
            assert(surv.drop_last() =~= surv0);
            assert(keys_unique(surv)) by {
                assert(forall|j: int| 0 <= j < surv0.len() ==> surv[j] == surv0[j]);
            }
            assert forall|k: Seq<char>| #[trigger] has_key(surv, k) implies (has_key(s, k)
                && !should_reap(value_of_key(s, k), cutoff_ms)) && value_of_key(surv, k)
                == value_of_key(s, k) by {
                lemma_index_of_key(surv, k);
                let j = index_of_key(surv, k);
                if j == surv.len() - 1 {
                    assert(k == e.0@);
                    assert(value_of_key(surv, k) == e.1);
                } else {
                    assert(surv[j] == surv0[j]);
                    assert(has_key(surv0, k));
                    assert(k != e.0@);
                    assert(has_key(s0, k) && !should_reap(value_of_key(s0, k), cutoff_ms));
                    lemma_index_of_key(surv0, k);
                    assert(value_of_key(surv, k) == value_of_key(surv0, k));
                }
            }
            assert forall|k: Seq<char>| has_key(s, k) && !should_reap(
                value_of_key(s, k),
                cutoff_ms,
            ) implies #[trigger] has_key(surv, k) by {
                if k == e.0@ {
                    assert(surv.last().0@ == k);
                } else {
                    assert(has_key(s0, k));
                    assert(has_key(surv0, k));
                    lemma_index_of_key(surv0, k);
                    let j = index_of_key(surv0, k);
                    assert(surv[j].0@ == k);
                }
            }
        }
    }
}

/// What survives the client sweep: entries keep their order and values,
/// uniqueness is kept, each kept entry points at a surviving order, and
/// each surviving entry is one of the original entries.
pub proof fn lemma_surviving_clients_props(
    ci: Seq<(String, String)>,
    orders: Seq<(String, OrderLifecycle)>,
)
    requires
        keys_unique(ci),
    ensures
        keys_unique(surviving_clients(ci, orders)),
        surviving_clients(ci, orders).len() <= ci.len(),
        forall|i: int|
            0 <= i < surviving_clients(ci, orders).len() ==> exists|j: int|
                0 <= j < ci.len() && #[trigger] surviving_clients(ci, orders)[i] == ci[j],
        forall|i: int|
            0 <= i < surviving_clients(ci, orders).len() ==> has_key(
                orders,
                (#[trigger] surviving_clients(ci, orders)[i]).1@,
            ),
    decreases ci.len(),
{
    let surv = surviving_clients(ci, orders);
    if ci.len() == 0 {
    } else {
        let c0 = ci.drop_last();
        let e = ci.last();
        assert(keys_unique(c0));
        lemma_surviving_clients_props(c0, orders);
        let surv0 = surviving_clients(c0, orders);
        assert(forall|j: int| 0 <= j < c0.len() ==> c0[j] == ci[j]);
        if has_key(orders, e.1@) {
            assert(surv == surv0.push(e));
            assert(keys_unique(surv)) by {
                assert(forall|j: int| 0 <= j < surv0.len() ==> surv[j] == surv0[j]);
                assert forall|x: int, y: int| 0 <= x < y < surv.len() implies (#[trigger] surv[x]).0@
                    != (#[trigger] surv[y]).0@ by {
                    if y == surv.len() - 1 {
                        let j = choose|j: int| 0 <= j < c0.len() && #[trigger] surv0[x] == c0[j];
                        assert(c0[j].0@ != e.0@);
                    }
                }
            }
        } else {
            assert(surv == surv0);
        }
    }
}

impl OrderManager {
    /// What one janitor sweep does for a given cutoff: terminal orders
    /// last updated before the cutoff are removed together with their
    /// client-index entries, everything else is kept in order, and the
    /// count of removed orders is returned.
    pub open spec fn cleanup_outcome(
        pre: OrderManager,
        post: OrderManager,
        r: usize,
        cutoff_ms: u64,
    ) -> bool {
        &&& post.spec_orders() == surviving_orders(pre.spec_orders(), cutoff_ms)
        &&& post.spec_client_index() == surviving_clients(
            pre.spec_client_index(),
            post.spec_orders(),
        )
        &&& r == pre.spec_orders().len() - post.spec_orders().len()
    }

    /// Remove every terminal order whose last update is older than the
    /// cutoff, with its client-index entry; returns how many were removed.
    #[verifier::rlimit(100)]
    pub fn cleanup_old_orders_at(&mut self, cutoff_ms: u64) -> (r: usize)
        requires
            old(self).wf(),
        ensures
            final(self).wf(),
            Self::cleanup_outcome(*old(self), *final(self), r, cutoff_ms),
    {
        let ghost orig = self.orders@;
        let ghost orig_ci = self.client_index@;
        let mut pending: Vec<(String, OrderLifecycle)> = Vec::new();
        core::mem::swap(&mut pending, &mut self.orders);
        let n = pending.len();
        let mut idx: usize = 0;
        proof {
            assert(orig.subrange(0, 0) =~= Seq::<(String, OrderLifecycle)>::empty());
            assert(pending@.subrange(0, n as int) =~= pending@);
        }
        while idx < n
            invariant
                n == orig.len(),
                idx <= n,
                pending@ == orig.subrange(idx as int, n as int),
                self.spec_orders() == surviving_orders(orig.subrange(0, idx as int), cutoff_ms),
                self.spec_client_index() == orig_ci,
            decreases n - idx,
        {
            let entry = pending.remove(0);
            let keep = !(is_terminal_state(&entry.1.state) && entry.1.updated_at < cutoff_ms);
            proof {
                assert(orig.subrange(idx as int, n as int)[0] == orig[idx as int]);
                assert(orig.subrange(0, idx as int + 1).drop_last() =~= orig.subrange(
                    0,
                    idx as int,
                ));
                assert(orig.subrange(0, idx as int + 1).last() == orig[idx as int]);
                assert(pending@ =~= orig.subrange(idx as int + 1, n as int));
            }
            if keep {
                self.orders.push(entry);
            }
            idx = idx + 1;
        }
        proof {
            assert(orig.subrange(0, n as int) =~= orig);
            lemma_surviving_orders_props(orig, cutoff_ms);
        }
        let removed = n - self.orders.len();
        let mut pending_ci: Vec<(String, String)> = Vec::new();
        core::mem::swap(&mut pending_ci, &mut self.client_index);
        let m = pending_ci.len();
        let mut cdx: usize = 0;
        proof {
            assert(orig_ci.subrange(0, 0) =~= Seq::<(String, String)>::empty());
            assert(pending_ci@.subrange(0, m as int) =~= pending_ci@);
        }
        while cdx < m
            invariant
                m == orig_ci.len(),
                cdx <= m,
                pending_ci@ == orig_ci.subrange(cdx as int, m as int),
                self.spec_client_index() == surviving_clients(
                    orig_ci.subrange(0, cdx as int),
                    surviving_orders(orig, cutoff_ms),
                ),
                self.spec_orders() == surviving_orders(orig, cutoff_ms),
            decreases m - cdx,
        {
            let entry = pending_ci.remove(0);
            let keep = find_index(&self.orders, entry.1.as_str()).is_some();
            proof {
                assert(orig_ci.subrange(cdx as int, m as int)[0] == orig_ci[cdx as int]);
                assert(orig_ci.subrange(0, cdx as int + 1).drop_last() =~= orig_ci.subrange(
                    0,
                    cdx as int,
                ));
                assert(orig_ci.subrange(0, cdx as int + 1).last() == orig_ci[cdx as int]);
                assert(pending_ci@ =~= orig_ci.subrange(cdx as int + 1, m as int));
                if !keep {
                    assert(!has_key(self.spec_orders(), orig_ci[cdx as int].1@));
                }
            }
            if keep {
                self.client_index.push(entry);
            }
            cdx = cdx + 1;
        }
        proof {
            assert(orig_ci.subrange(0, m as int) =~= orig_ci);
            lemma_surviving_orders_props(orig, cutoff_ms);
            lemma_surviving_clients_props(orig_ci, self.spec_orders());
            let po = self.spec_orders();
            let pc = self.spec_client_index();
            assert forall|x: int| 0 <= x < po.len() implies (#[trigger] po[x]).1.wf()
                && po[x].1.order_id@ == po[x].0@ by {
                let j = choose|j: int| 0 <= j < orig.len() && #[trigger] po[x] == orig[j];
                assert(orig[j].1.wf());
            }
            assert forall|x: int| 0 <= x < pc.len()
                implies #[trigger] self.client_entry_matches_order(x) by {
                let j = choose|j: int| 0 <= j < orig_ci.len() && #[trigger] pc[x] == orig_ci[j];
                assert(old(self).client_entry_matches_order(j));
                let w = choose|w: int|
                    0 <= w < orig.len() && (#[trigger] orig[w]).0@ == orig_ci[j].1@
                        && orig[w].1.client_id@ == orig_ci[j].0@;
                assert(has_key(orig, orig_ci[j].1@));
                lemma_index_of_key(orig, orig_ci[j].1@);
                assert(value_of_key(orig, orig_ci[j].1@) == orig[w].1);
                assert(has_key(po, pc[x].1@));
                assert(value_of_key(po, pc[x].1@) == orig[w].1);
                lemma_index_of_key(po, pc[x].1@);
                let v = index_of_key(po, pc[x].1@);
                assert(po[v].0@ == pc[x].1@ && po[v].1.client_id@ == pc[x].0@);
            }
        }
        removed
    }

    /// Remove aged terminal orders, with the cutoff taken from the wall
    /// clock minus the given number of hours (a negative count pushes the
    /// cutoff into the future, reaping every terminal order).
    pub fn cleanup_old_orders(&mut self, max_age_hours: i64) -> (r: usize)
        requires
            old(self).wf(),
        ensures
            final(self).wf(),
            exists|cutoff: u64| Self::cleanup_outcome(*old(self), *final(self), r, cutoff),
    {
        let now = current_millis();
        let cutoff_wide: i128 = now as i128 - (max_age_hours as i128) * 3600000;
        let cutoff: u64 = if cutoff_wide < 0 {
            0
        } else if cutoff_wide > u64::MAX as i128 {
            u64::MAX
        } else {
            cutoff_wide as u64
        };
        let r = self.cleanup_old_orders_at(cutoff);
        proof {
            assert(Self::cleanup_outcome(*old(self), *self, r, cutoff));
        }
        r
    }
}

impl Default for OrderManager {
    /// An empty manager.
    fn default() -> (r: Self)
        ensures
            r.wf(),
            r.spec_orders().len() == 0,
            r.spec_client_index().len() == 0,
    {
        Self::new()
    }
}

} // verus!
