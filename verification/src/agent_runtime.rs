//! The runtime core: it owns the agent registry, the subscription manager,
//! the pending-envelope queue and the outstanding-work counter, and drives
//! dispatch, fan-out and response correlation.
//!
//! Dispatch is modelled as a ticketed hand-off.  Processing an envelope
//! places deliveries into recipient mailboxes, incrementing the
//! outstanding-work counter once per delivery and stamping each with a
//! fresh ticket.  A driver takes deliveries out agent by agent in
//! first-in-first-out order, lets the agent handle them, and settles each
//! ticket exactly once — either completing it with a response message,
//! which re-enters the queue as a response envelope addressed back to the
//! original sender, or failing it with an error.  Settling decrements the
//! counter, so the counter reads zero exactly when no delivery is waiting
//! or being handled; together with an empty queue that is the runtime's
//! idle state.

use vstd::prelude::*;
use crate::chat_msg_types::ChatMessage;
use crate::envelope::{ChatMessageEnvelope, PublishMessage, ResponseMessage, SendMessage};
use crate::ids::{AgentId, TopicId};
use crate::mailbox::{Delivery, Mailbox};
use crate::msg_types::ChatMessageContext;
use crate::subscription::SubscriptionManager;
use crate::tool::Tool;

verus! {

/// The live count of in-flight dispatch work.
#[derive(Debug)]
pub struct Counter {
    pub count: i64,
}

impl Counter {
    /// A counter starting at zero.
    pub fn new() -> (r: Counter)
        ensures
            r.count == 0,
    {
        Counter { count: 0 }
    }

    /// Notes one more in-flight dispatch.
    pub fn increment(&mut self)
        requires
            old(self).count < i64::MAX,
        ensures
            final(self).count == old(self).count + 1,
    {
        self.count = self.count + 1;
    }

    /// Notes one dispatch as settled.
    pub fn decrement(&mut self)
        requires
            old(self).count > i64::MIN,
        ensures
            final(self).count == old(self).count - 1,
    {
        self.count = self.count - 1;
    }

    /// The current count.
    pub fn value(&self) -> (r: i64)
        ensures
            r == self.count,
    {
        self.count
    }
}

/// What a supervisor has asked of the dispatch loop.
#[derive(Clone, Copy, PartialEq, Eq, Structural, Debug)]
pub enum RunState {
    Running,
    Cancelled,
    UntilIdle,
}

/// The supervisor's handle on the dispatch loop's lifecycle.
#[derive(Clone, Copy, PartialEq, Eq, Structural, Debug)]
pub struct RunContext {
    pub run_state: RunState,
}

impl RunContext {
    /// Lets the loop run freely.
    pub fn run(&mut self)
        ensures
            final(self).run_state == RunState::Running,
    {
        self.run_state = RunState::Running;
    }

    /// Stops the loop, abandoning queued envelopes.
    pub fn stop(&mut self)
        ensures
            final(self).run_state == RunState::Cancelled,
    {
        self.run_state = RunState::Cancelled;
    }

    /// Lets in-flight work finish, taking no new envelopes afterwards.
    pub fn stop_when_idle(&mut self)
        ensures
            final(self).run_state == RunState::UntilIdle,
    {
        self.run_state = RunState::UntilIdle;
    }

    /// Cancels the loop: queued envelopes are dropped without being
    /// dispatched; work already handed to agents is not interrupted.
    pub fn stop_when_cancel(&mut self)
        ensures
            final(self).run_state == RunState::Cancelled,
    {
        self.run_state = RunState::Cancelled;
    }
}

/// The runtime's error taxonomy.
#[derive(Clone, Copy, PartialEq, Eq, Structural, Debug)]
pub enum RouterError {
    /// A send or deregistration named an agent that is not registered.
    UnknownAgent,
    /// Registration was asked twice for the same agent.
    DuplicateAgent,
    /// The recipient's mailbox closed while work for it was in flight.
    RecipientGone,
    /// No response arrived within the caller's deadline.
    Timeout,
    /// The agent's own handling failed; isolated at the dispatch boundary.
    HandlerFailure,
}

/// A hook point for observing messages as they pass; carried for hosts
/// that install one.
#[derive(Debug)]
pub struct InterventionHanlder;

/// A hook point for tracing; carried for hosts that install one.
#[derive(Debug)]
pub struct TraceProvider;

/// A handler registered under a name.
#[derive(Debug)]
pub struct Handler;

/// Bookkeeping for one delivery an agent is currently handling.
#[derive(Clone, Copy, PartialEq, Eq, Structural, Debug)]
pub struct ActiveDispatch {
    pub ticket: u64,
    pub agent: AgentId,
    pub reply_to: Option<AgentId>,
}

/// One recipient a dispatch could not reach, and why.
#[derive(Clone, Copy, PartialEq, Eq, Structural, Debug)]
pub struct DispatchFailure {
    pub recipient: AgentId,
    pub reply_to: Option<AgentId>,
    pub error: RouterError,
}

/// What one dispatch-loop step did.
#[derive(Debug)]
pub enum StepOutcome {
    /// The queue was empty; nothing to do.
    Idle,
    /// The loop is cancelled: the remaining queued envelopes were dropped.
    Aborted { dropped: usize },
    /// Deliveries were placed: one ticket per delivery, one failure per
    /// unreachable recipient, and the recipients deferred for capacity.
    Dispatched { tickets: Vec<u64>, failures: Vec<DispatchFailure>, deferred: Vec<AgentId> },
    /// The recipient's mailbox is full or the runtime is saturated; the
    /// envelope stays at the front of the queue.
    Busy,
    /// A response envelope reached the caller waiting for it.
    Responded { response: ResponseMessage },
    /// A response envelope with no one waiting was dropped; a normal,
    /// non-error outcome.
    Discarded,
}

/// The runtime core.
#[derive(Debug)]
pub struct AgentRuntime {
    pub message_queue: Vec<ChatMessageEnvelope>,
    pub tool_store: Vec<(String, Tool)>,
    pub intervention_handlers: Option<Vec<InterventionHanlder>>,
    pub trace_provider: Option<TraceProvider>,
    pub instantiated_agents: Vec<(AgentId, Mailbox)>,
    pub outstanding_tasks: Counter,
    pub subscription_manager: SubscriptionManager,
    pub run_context: RunContext,
    pub active_dispatches: Vec<ActiveDispatch>,
    pub next_ticket: u64,
}

/// The deliveries waiting in all mailboxes, counted.
pub open spec fn inbox_total(agents: Seq<(AgentId, Mailbox)>) -> int
    decreases agents.len(),
{
    if agents.len() == 0 {
        0
    } else {
        inbox_total(agents.drop_last()) + agents.last().1.inbox@.len()
    }
}

/// The total is never negative.
pub proof fn lemma_inbox_total_nonneg(agents: Seq<(AgentId, Mailbox)>)
    ensures
        inbox_total(agents) >= 0,
    decreases agents.len(),
{
    if agents.len() > 0 {
        lemma_inbox_total_nonneg(agents.drop_last());
    }
}

/// Every mailbox contributes its length to the total.
pub proof fn lemma_inbox_total_at_least(agents: Seq<(AgentId, Mailbox)>, k: int)
    requires
        0 <= k < agents.len(),
    ensures
        inbox_total(agents) >= agents[k].1.inbox@.len(),
    decreases agents.len(),
{
    lemma_inbox_total_nonneg(agents.drop_last());
    if k < agents.len() - 1 {
        lemma_inbox_total_at_least(agents.drop_last(), k);
    }
}

/// A zero total means every mailbox is empty.
pub proof fn lemma_inbox_total_zero(agents: Seq<(AgentId, Mailbox)>)
    requires
        inbox_total(agents) == 0,
    ensures
        forall|k: int| 0 <= k < agents.len() ==> (#[trigger] agents[k]).1.inbox@.len() == 0,
{
    assert forall|k: int| 0 <= k < agents.len() implies (#[trigger] agents[k]).1.inbox@.len()
        == 0 by {
        lemma_inbox_total_at_least(agents, k);
        lemma_inbox_total_nonneg(agents);
    }
}

/// Appending a registry entry adds its mailbox's length to the total.
pub proof fn lemma_inbox_total_push(agents: Seq<(AgentId, Mailbox)>, e: (AgentId, Mailbox))
    ensures
        inbox_total(agents.push(e)) == inbox_total(agents) + e.1.inbox@.len(),
{
    assert(agents.push(e).drop_last() =~= agents);
}

/// Removing a registry entry subtracts its mailbox's length from the total.
pub proof fn lemma_inbox_total_remove(agents: Seq<(AgentId, Mailbox)>, i: int)
    requires
        0 <= i < agents.len(),
    ensures
        inbox_total(agents.remove(i)) == inbox_total(agents) - agents[i].1.inbox@.len(),
    decreases agents.len(),
{
    if i == agents.len() - 1 {
        assert(agents.remove(i) =~= agents.drop_last());
    } else {
        assert(agents.remove(i).drop_last() =~= agents.drop_last().remove(i));
        assert(agents.remove(i).last() == agents.last());
        lemma_inbox_total_remove(agents.drop_last(), i);
    }
}

/// Replacing a registry entry shifts the total by the difference of the
/// two mailboxes' lengths.
pub proof fn lemma_inbox_total_update(
    agents: Seq<(AgentId, Mailbox)>,
    i: int,
    e: (AgentId, Mailbox),
)
    requires
        0 <= i < agents.len(),
    ensures
        inbox_total(agents.update(i, e)) == inbox_total(agents) - agents[i].1.inbox@.len()
            + e.1.inbox@.len(),
    decreases agents.len(),
{
    if i == agents.len() - 1 {
        assert(agents.update(i, e).drop_last() =~= agents.drop_last());
        assert(agents.update(i, e).last() == e);
    } else {
        assert(agents.update(i, e).drop_last() =~= agents.drop_last().update(i, e));
        assert(agents.update(i, e).last() == agents.last());
        lemma_inbox_total_update(agents.drop_last(), i, e);
    }
}

/// Whether `a` has a mailbox among `agents`.
pub open spec fn registered_in(agents: Seq<(AgentId, Mailbox)>, a: AgentId) -> bool {
    exists|k: int| 0 <= k < agents.len() && (#[trigger] agents[k]).0 == a
}

/// The registry position of `a` among `agents`.
pub open spec fn index_of_agent(agents: Seq<(AgentId, Mailbox)>, a: AgentId) -> int {
    choose|k: int| 0 <= k < agents.len() && (#[trigger] agents[k]).0 == a
}

/// The ticket of the `j`-th delivery waiting in the `k`-th mailbox.
pub open spec fn mtick(agents: Seq<(AgentId, Mailbox)>, k: int, j: int) -> u64 {
    agents[k].1.inbox@[j].ticket
}

/// Whether `(k, j)` names a waiting delivery.
pub open spec fn mvalid(agents: Seq<(AgentId, Mailbox)>, k: int, j: int) -> bool {
    0 <= k < agents.len() && 0 <= j < agents[k].1.inbox@.len()
}

/// The ticket of the `j`-th delivery being handled.
pub open spec fn atick(active: Seq<ActiveDispatch>, j: int) -> u64 {
    active[j].ticket
}

/// No agent is registered twice.
pub open spec fn registry_unique(agents: Seq<(AgentId, Mailbox)>) -> bool {
    forall|k1: int, k2: int|
        0 <= k1 < k2 < agents.len() ==> (#[trigger] agents[k1]).0 != (#[trigger] agents[k2]).0
}

/// Every mailbox respects its capacity.
pub open spec fn mailboxes_wf(agents: Seq<(AgentId, Mailbox)>) -> bool {
    forall|k: int| 0 <= k < agents.len() ==> (#[trigger] agents[k]).1.wf()
}

/// Every pending ticket was allocated before the next one to be issued.
pub open spec fn tickets_lt(
    agents: Seq<(AgentId, Mailbox)>,
    active: Seq<ActiveDispatch>,
    next_ticket: u64,
) -> bool {
    &&& forall|k: int, j: int| mvalid(agents, k, j) ==> #[trigger] mtick(agents, k, j) < next_ticket
    &&& forall|j: int| 0 <= j < active.len() ==> #[trigger] atick(active, j) < next_ticket
}

/// No two pending deliveries share a ticket — within mailboxes, within the
/// active set, or across the two.
pub open spec fn tickets_unique(
    agents: Seq<(AgentId, Mailbox)>,
    active: Seq<ActiveDispatch>,
) -> bool {
    &&& forall|k1: int, j1: int, k2: int, j2: int|
        mvalid(agents, k1, j1) && mvalid(agents, k2, j2) && (k1 != k2 || j1 != j2)
            ==> #[trigger] mtick(agents, k1, j1) != #[trigger] mtick(agents, k2, j2)
    &&& forall|j1: int, j2: int|
        0 <= j1 < j2 < active.len() ==> #[trigger] atick(active, j1) != #[trigger] atick(active, j2)
    &&& forall|k: int, j: int, l: int|
        mvalid(agents, k, j) && 0 <= l < active.len() ==> #[trigger] mtick(agents, k, j)
            != #[trigger] atick(active, l)
}

/// Registering an agent under an empty mailbox keeps every pending ticket
/// fresh and unique.
pub proof fn lemma_tickets_push_empty(
    agents: Seq<(AgentId, Mailbox)>,
    active: Seq<ActiveDispatch>,
    next_ticket: u64,
    e: (AgentId, Mailbox),
)
    requires
        tickets_lt(agents, active, next_ticket),
        tickets_unique(agents, active),
        e.1.inbox@.len() == 0,
    ensures
        tickets_lt(agents.push(e), active, next_ticket),
        tickets_unique(agents.push(e), active),
{
    let post = agents.push(e);
    let n = agents.len() as int;
    assert(post[n] == e);
    assert forall|k: int, j: int| mvalid(post, k, j) implies #[trigger] mtick(post, k, j)
        < next_ticket by {
        assert(k < n);
        assert(post[k] == agents[k]);
        assert(mvalid(agents, k, j) && mtick(agents, k, j) == mtick(post, k, j));
    }
    assert forall|k1: int, j1: int, k2: int, j2: int|
        mvalid(post, k1, j1) && mvalid(post, k2, j2) && (k1 != k2 || j1 != j2) implies #[trigger] mtick(
        post,
        k1,
        j1,
    ) != #[trigger] mtick(post, k2, j2) by {
        assert(k1 < n && k2 < n);
        assert(post[k1] == agents[k1] && post[k2] == agents[k2]);
        assert(mvalid(agents, k1, j1) && mvalid(agents, k2, j2));
        assert(mtick(agents, k1, j1) == mtick(post, k1, j1));
        assert(mtick(agents, k2, j2) == mtick(post, k2, j2));
    }
    assert forall|k: int, j: int, l: int|
        mvalid(post, k, j) && 0 <= l < active.len() implies #[trigger] mtick(post, k, j)
        != #[trigger] atick(active, l) by {
        assert(k < n);
        assert(post[k] == agents[k]);
        assert(mvalid(agents, k, j) && mtick(agents, k, j) == mtick(post, k, j));
    }
}

/// Dropping one agent's mailbox keeps every pending ticket fresh and unique.
pub proof fn lemma_tickets_remove_agent(
    agents: Seq<(AgentId, Mailbox)>,
    active: Seq<ActiveDispatch>,
    next_ticket: u64,
    i: int,
)
    requires
        tickets_lt(agents, active, next_ticket),
        tickets_unique(agents, active),
        0 <= i < agents.len(),
    ensures
        tickets_lt(agents.remove(i), active, next_ticket),
        tickets_unique(agents.remove(i), active),
{
    let post = agents.remove(i);
    assert forall|k: int, j: int| mvalid(post, k, j) implies #[trigger] mtick(post, k, j)
        < next_ticket by {
        let o = if k < i {
            k
        } else {
            k + 1
        };
        assert(post[k] == agents[o]);
        assert(mvalid(agents, o, j) && mtick(agents, o, j) == mtick(post, k, j));
    }
    assert forall|k1: int, j1: int, k2: int, j2: int|
        mvalid(post, k1, j1) && mvalid(post, k2, j2) && (k1 != k2 || j1 != j2) implies #[trigger] mtick(
        post,
        k1,
        j1,
    ) != #[trigger] mtick(post, k2, j2) by {
        let o1 = if k1 < i {
            k1
        } else {
            k1 + 1
        };
        let o2 = if k2 < i {
            k2
        } else {
            k2 + 1
        };
        assert(post[k1] == agents[o1] && post[k2] == agents[o2]);
        assert(mvalid(agents, o1, j1) && mvalid(agents, o2, j2));
        assert(mtick(agents, o1, j1) == mtick(post, k1, j1));
        assert(mtick(agents, o2, j2) == mtick(post, k2, j2));
    }
    assert forall|k: int, j: int, l: int|
        mvalid(post, k, j) && 0 <= l < active.len() implies #[trigger] mtick(post, k, j)
        != #[trigger] atick(active, l) by {
        let o = if k < i {
            k
        } else {
            k + 1
        };
        assert(post[k] == agents[o]);
        assert(mvalid(agents, o, j) && mtick(agents, o, j) == mtick(post, k, j));
    }
}

/// The recipients among `recips` that have no mailbox, in order.
pub open spec fn unreachable_of(agents: Seq<(AgentId, Mailbox)>, recips: Seq<AgentId>) -> Seq<
    AgentId,
>
    decreases recips.len(),
{
    if recips.len() == 0 {
        Seq::empty()
    } else {
        let prefix = unreachable_of(agents, recips.drop_last());
        if registered_in(agents, recips.last()) {
            prefix
        } else {
            prefix.push(recips.last())
        }
    }
}

/// Whether `a`'s mailbox among `agents` is at capacity.
pub open spec fn mailbox_full(agents: Seq<(AgentId, Mailbox)>, a: AgentId) -> bool {
    let mb = agents[index_of_agent(agents, a)].1;
    mb.inbox@.len() == mb.capacity
}

/// Two registries with the same agents in the same positions agree on who
/// is registered and where.
pub proof fn lemma_same_keys_registered(a1: Seq<(AgentId, Mailbox)>, a2: Seq<(AgentId, Mailbox)>)
    requires
        a1.len() == a2.len(),
        forall|k: int| 0 <= k < a1.len() ==> (#[trigger] a1[k]).0 == (#[trigger] a2[k]).0,
        registry_unique(a1),
    ensures
        forall|x: AgentId| #[trigger] registered_in(a1, x) == registered_in(a2, x),
        forall|x: AgentId| #[trigger]
            registered_in(a1, x) ==> index_of_agent(a1, x) == index_of_agent(a2, x),
{
    assert forall|x: AgentId| #[trigger] registered_in(a1, x) == registered_in(a2, x) by {
        if registered_in(a1, x) {
            let k = choose|k: int| 0 <= k < a1.len() && (#[trigger] a1[k]).0 == x;
            assert(a2[k].0 == x);
        }
        if registered_in(a2, x) {
            let k = choose|k: int| 0 <= k < a2.len() && (#[trigger] a2[k]).0 == x;
            assert(a1[k].0 == x);
        }
    }
    assert forall|x: AgentId| #[trigger]
        registered_in(a1, x) implies index_of_agent(a1, x) == index_of_agent(a2, x) by {
        let k1 = index_of_agent(a1, x);
        assert(a1[k1].0 == x);
        assert(registered_in(a2, x));
        let k2 = index_of_agent(a2, x);
        assert(a2[k2].0 == x);
        assert(a1[k2].0 == x);
        if k1 != k2 {
            assert(a1[k1].0 == a1[k2].0);
            assert(false);
        }
    }
}

/// Placing a delivery stamped with the next ticket keeps every pending
/// ticket fresh and unique, with the ticket horizon moved past it.
pub proof fn lemma_tickets_dispatch(
    pre_agents: Seq<(AgentId, Mailbox)>,
    post_agents: Seq<(AgentId, Mailbox)>,
    active: Seq<ActiveDispatch>,
    next_ticket: u64,
    new_next: u64,
    i: int,
)
    requires
        tickets_lt(pre_agents, active, next_ticket),
        tickets_unique(pre_agents, active),
        0 <= i < pre_agents.len(),
        next_ticket < u64::MAX,
        new_next == next_ticket + 1,
        post_agents.len() == pre_agents.len(),
        forall|k: int|
            0 <= k < pre_agents.len() && k != i ==> #[trigger] post_agents[k] == pre_agents[k],
        post_agents[i].1.inbox@.len() == pre_agents[i].1.inbox@.len() + 1,
        post_agents[i].1.inbox@.drop_last() == pre_agents[i].1.inbox@,
        post_agents[i].1.inbox@.last().ticket == next_ticket,
    ensures
        tickets_lt(post_agents, active, new_next),
        tickets_unique(post_agents, active),
{
    let pn = pre_agents[i].1.inbox@.len() as int;
    assert forall|k: int, j: int|
        mvalid(post_agents, k, j) implies #[trigger] mtick(post_agents, k, j) < new_next by {
        if k != i {
            assert(post_agents[k] == pre_agents[k]);
            assert(mvalid(pre_agents, k, j) && mtick(pre_agents, k, j) == mtick(post_agents, k, j));
        } else if j < pn {
            assert(post_agents[i].1.inbox@[j] == post_agents[i].1.inbox@.drop_last()[j]);
            assert(mvalid(pre_agents, i, j) && mtick(pre_agents, i, j) == mtick(post_agents, i, j));
        } else {
            assert(mtick(post_agents, k, j) == next_ticket);
        }
    }
    assert forall|j: int| 0 <= j < active.len() implies #[trigger] atick(active, j) < new_next by {
    }
    assert forall|k1: int, j1: int, k2: int, j2: int|
        mvalid(post_agents, k1, j1) && mvalid(post_agents, k2, j2) && (k1 != k2 || j1
            != j2) implies #[trigger] mtick(post_agents, k1, j1) != #[trigger] mtick(
        post_agents,
        k2,
        j2,
    ) by {
        let new1 = k1 == i && j1 == pn;
        let new2 = k2 == i && j2 == pn;
        if !new1 && !new2 {
            if k1 != i {
                assert(post_agents[k1] == pre_agents[k1]);
                assert(mvalid(pre_agents, k1, j1));
                assert(mtick(pre_agents, k1, j1) == mtick(post_agents, k1, j1));
            } else {
                assert(post_agents[i].1.inbox@[j1] == post_agents[i].1.inbox@.drop_last()[j1]);
                assert(mvalid(pre_agents, k1, j1));
                assert(mtick(pre_agents, k1, j1) == mtick(post_agents, k1, j1));
            }
            if k2 != i {
                assert(post_agents[k2] == pre_agents[k2]);
                assert(mvalid(pre_agents, k2, j2));
                assert(mtick(pre_agents, k2, j2) == mtick(post_agents, k2, j2));
            } else {
                assert(post_agents[i].1.inbox@[j2] == post_agents[i].1.inbox@.drop_last()[j2]);
                assert(mvalid(pre_agents, k2, j2));
                assert(mtick(pre_agents, k2, j2) == mtick(post_agents, k2, j2));
            }
        } else if new1 && !new2 {
            assert(mtick(post_agents, k1, j1) == next_ticket);
            if k2 != i {
                assert(post_agents[k2] == pre_agents[k2]);
                assert(mvalid(pre_agents, k2, j2));
                assert(mtick(pre_agents, k2, j2) == mtick(post_agents, k2, j2));
            } else {
                assert(post_agents[i].1.inbox@[j2] == post_agents[i].1.inbox@.drop_last()[j2]);
                assert(mvalid(pre_agents, k2, j2));
                assert(mtick(pre_agents, k2, j2) == mtick(post_agents, k2, j2));
            }
            assert(mtick(post_agents, k2, j2) < next_ticket);
        } else if !new1 && new2 {
            assert(mtick(post_agents, k2, j2) == next_ticket);
            if k1 != i {
                assert(post_agents[k1] == pre_agents[k1]);
                assert(mvalid(pre_agents, k1, j1));
                assert(mtick(pre_agents, k1, j1) == mtick(post_agents, k1, j1));
            } else {
                assert(post_agents[i].1.inbox@[j1] == post_agents[i].1.inbox@.drop_last()[j1]);
                assert(mvalid(pre_agents, k1, j1));
                assert(mtick(pre_agents, k1, j1) == mtick(post_agents, k1, j1));
            }
            assert(mtick(post_agents, k1, j1) < next_ticket);
        }
    }
    assert forall|k: int, j: int, l: int|
        mvalid(post_agents, k, j) && 0 <= l < active.len() implies #[trigger] mtick(
        post_agents,
        k,
        j,
    ) != #[trigger] atick(active, l) by {
        if k == i && j == pn {
            assert(mtick(post_agents, k, j) == next_ticket);
            assert(atick(active, l) < next_ticket);
        } else if k != i {
            assert(post_agents[k] == pre_agents[k]);
            assert(mvalid(pre_agents, k, j) && mtick(pre_agents, k, j) == mtick(post_agents, k, j));
        } else {
            assert(post_agents[i].1.inbox@[j] == post_agents[i].1.inbox@.drop_last()[j]);
            assert(mvalid(pre_agents, k, j) && mtick(pre_agents, k, j) == mtick(post_agents, k, j));
        }
    }
}

/// The position in `active` of the dispatch holding `ticket`.
pub open spec fn active_index_of(active: Seq<ActiveDispatch>, ticket: u64) -> int {
    choose|j: int| 0 <= j < active.len() && (#[trigger] active[j]).ticket == ticket
}

/// Taking the front delivery of one mailbox into the active set keeps every
/// pending ticket fresh and unique.
pub proof fn lemma_tickets_take(
    pre_agents: Seq<(AgentId, Mailbox)>,
    post_agents: Seq<(AgentId, Mailbox)>,
    active: Seq<ActiveDispatch>,
    next_ticket: u64,
    i: int,
    ad: ActiveDispatch,
)
    requires
        tickets_lt(pre_agents, active, next_ticket),
        tickets_unique(pre_agents, active),
        0 <= i < pre_agents.len(),
        pre_agents[i].1.inbox@.len() > 0,
        post_agents.len() == pre_agents.len(),
        forall|k: int|
            0 <= k < pre_agents.len() && k != i ==> #[trigger] post_agents[k] == pre_agents[k],
        post_agents[i].1.inbox@ == pre_agents[i].1.inbox@.drop_first(),
        ad.ticket == pre_agents[i].1.inbox@[0].ticket,
    ensures
        tickets_lt(post_agents, active.push(ad), next_ticket),
        tickets_unique(post_agents, active.push(ad)),
{
    let nact = active.push(ad);
    let an = active.len() as int;
    assert(mvalid(pre_agents, i, 0));
    assert(ad.ticket == mtick(pre_agents, i, 0));
    assert forall|k: int, j: int|
        mvalid(post_agents, k, j) implies #[trigger] mtick(post_agents, k, j) < next_ticket by {
        if k != i {
            assert(post_agents[k] == pre_agents[k]);
            assert(mvalid(pre_agents, k, j) && mtick(pre_agents, k, j) == mtick(post_agents, k, j));
        } else {
            assert(post_agents[i].1.inbox@[j] == pre_agents[i].1.inbox@[j + 1]);
            assert(mvalid(pre_agents, i, j + 1));
            assert(mtick(pre_agents, i, j + 1) == mtick(post_agents, i, j));
        }
    }
    assert forall|j: int| 0 <= j < nact.len() implies #[trigger] atick(nact, j) < next_ticket by {
        if j < an {
            assert(nact[j] == active[j]);
            assert(atick(active, j) == atick(nact, j));
        } else {
            assert(atick(nact, j) == ad.ticket);
        }
    }
    assert forall|k1: int, j1: int, k2: int, j2: int|
        mvalid(post_agents, k1, j1) && mvalid(post_agents, k2, j2) && (k1 != k2 || j1
            != j2) implies #[trigger] mtick(post_agents, k1, j1) != #[trigger] mtick(
        post_agents,
        k2,
        j2,
    ) by {
        let o1 = if k1 == i {
            j1 + 1
        } else {
            j1
        };
        let o2 = if k2 == i {
            j2 + 1
        } else {
            j2
        };
        if k1 != i {
            assert(post_agents[k1] == pre_agents[k1]);
        } else {
            assert(post_agents[i].1.inbox@[j1] == pre_agents[i].1.inbox@[j1 + 1]);
        }
        if k2 != i {
            assert(post_agents[k2] == pre_agents[k2]);
        } else {
            assert(post_agents[i].1.inbox@[j2] == pre_agents[i].1.inbox@[j2 + 1]);
        }
        assert(mvalid(pre_agents, k1, o1) && mvalid(pre_agents, k2, o2));
        assert(mtick(pre_agents, k1, o1) == mtick(post_agents, k1, j1));
        assert(mtick(pre_agents, k2, o2) == mtick(post_agents, k2, j2));
    }
    assert forall|k: int, j: int, l: int|
        mvalid(post_agents, k, j) && 0 <= l < nact.len() implies #[trigger] mtick(post_agents, k, j)
        != #[trigger] atick(nact, l) by {
        let o = if k == i {
            j + 1
        } else {
            j
        };
        if k != i {
            assert(post_agents[k] == pre_agents[k]);
        } else {
            assert(post_agents[i].1.inbox@[j] == pre_agents[i].1.inbox@[j + 1]);
        }
        assert(mvalid(pre_agents, k, o));
        assert(mtick(pre_agents, k, o) == mtick(post_agents, k, j));
        if l < an {
            assert(nact[l] == active[l]);
            assert(atick(active, l) == atick(nact, l));
        } else {
            assert(atick(nact, l) == mtick(pre_agents, i, 0));
            assert(k != i || o != 0);
        }
    }
    assert forall|j1: int, j2: int|
        0 <= j1 < j2 < nact.len() implies #[trigger] atick(nact, j1) != #[trigger] atick(
        nact,
        j2,
    ) by {
        assert(nact[j1] == active[j1]);
        assert(atick(active, j1) == atick(nact, j1));
        if j2 < an {
            assert(nact[j2] == active[j2]);
            assert(atick(active, j2) == atick(nact, j2));
        } else {
            assert(atick(nact, j2) == mtick(pre_agents, i, 0));
        }
    }
}

/// Settling one active dispatch keeps every remaining ticket fresh and
/// unique, and the settled ticket is gone.
pub proof fn lemma_tickets_settle(
    agents: Seq<(AgentId, Mailbox)>,
    active: Seq<ActiveDispatch>,
    next_ticket: u64,
    j: int,
)
    requires
        tickets_lt(agents, active, next_ticket),
        tickets_unique(agents, active),
        0 <= j < active.len(),
    ensures
        tickets_lt(agents, active.remove(j), next_ticket),
        tickets_unique(agents, active.remove(j)),
        forall|l: int|
            0 <= l < active.remove(j).len() ==> (#[trigger] active.remove(j)[l]).ticket
                != active[j].ticket,
{
    let post = active.remove(j);
    assert forall|l: int| 0 <= l < post.len() implies #[trigger] atick(post, l)
        < next_ticket by {
        let o = if l < j {
            l
        } else {
            l + 1
        };
        assert(post[l] == active[o]);
        assert(atick(active, o) == atick(post, l));
    }
    assert forall|l1: int, l2: int|
        0 <= l1 < l2 < post.len() implies #[trigger] atick(post, l1) != #[trigger] atick(
        post,
        l2,
    ) by {
        let o1 = if l1 < j {
            l1
        } else {
            l1 + 1
        };
        let o2 = if l2 < j {
            l2
        } else {
            l2 + 1
        };
        assert(post[l1] == active[o1] && post[l2] == active[o2]);
        assert(atick(active, o1) == atick(post, l1));
        assert(atick(active, o2) == atick(post, l2));
    }
    assert forall|k: int, m: int, l: int|
        mvalid(agents, k, m) && 0 <= l < post.len() implies #[trigger] mtick(agents, k, m)
        != #[trigger] atick(post, l) by {
        let o = if l < j {
            l
        } else {
            l + 1
        };
        assert(post[l] == active[o]);
        assert(atick(active, o) == atick(post, l));
    }
    assert forall|l: int| 0 <= l < post.len() implies (#[trigger] post[l]).ticket
        != active[j].ticket by {
        let o = if l < j {
            l
        } else {
            l + 1
        };
        assert(post[l] == active[o]);
        assert(atick(active, o) != atick(active, j));
    }
}

impl AgentRuntime {
    /// Whether `a` currently has a mailbox.
    pub open spec fn registered(&self, a: AgentId) -> bool {
        registered_in(self.instantiated_agents@, a)
    }

    /// The registry position of `a`.
    pub open spec fn agent_index(&self, a: AgentId) -> int {
        index_of_agent(self.instantiated_agents@, a)
    }

    /// The ticket of the `j`-th delivery waiting in the `k`-th mailbox.
    pub open spec fn mtick(&self, k: int, j: int) -> u64 {
        mtick(self.instantiated_agents@, k, j)
    }

    /// Whether `(k, j)` names a waiting delivery.
    pub open spec fn mvalid(&self, k: int, j: int) -> bool {
        mvalid(self.instantiated_agents@, k, j)
    }

    /// The ticket of the `j`-th delivery being handled.
    pub open spec fn atick(&self, j: int) -> u64 {
        atick(self.active_dispatches@, j)
    }

    /// How many deliveries are waiting or being handled.
    pub open spec fn in_flight(&self) -> int {
        inbox_total(self.instantiated_agents@) + self.active_dispatches@.len()
    }

    /// No agent is registered twice.
    pub open spec fn registry_unique(&self) -> bool {
        registry_unique(self.instantiated_agents@)
    }

    /// Every mailbox respects its capacity.
    pub open spec fn mailboxes_wf(&self) -> bool {
        mailboxes_wf(self.instantiated_agents@)
    }

    /// Every pending ticket was allocated before the next one to be issued.
    pub open spec fn tickets_lt(&self) -> bool {
        tickets_lt(self.instantiated_agents@, self.active_dispatches@, self.next_ticket)
    }

    /// No two pending deliveries share a ticket — within mailboxes, within
    /// the active set, or across the two.
    pub open spec fn tickets_unique(&self) -> bool {
        tickets_unique(self.instantiated_agents@, self.active_dispatches@)
    }

    /// The runtime's invariant: coherent subscription cache, unique
    /// registry, bounded mailboxes, a counter that equals the in-flight
    /// count, and fresh, pairwise-distinct tickets.
    pub open spec fn wf(&self) -> bool {
        &&& self.subscription_manager.wf()
        &&& self.registry_unique()
        &&& self.mailboxes_wf()
        &&& self.outstanding_tasks.count == self.in_flight()
        &&& self.tickets_lt()
        &&& self.tickets_unique()
    }

    /// Queue empty and counter zero: nothing queued, waiting or running.
    pub open spec fn idle_spec(&self) -> bool {
        self.message_queue@.len() == 0 && self.outstanding_tasks.count == 0
    }

    /// A ticket someone may still settle.
    pub open spec fn ticket_active(&self, ticket: u64) -> bool {
        exists|j: int|
            0 <= j < self.active_dispatches@.len() && (#[trigger] self.active_dispatches@[j]).ticket
                == ticket
    }

    /// An empty runtime: nothing registered, nothing queued, counter zero,
    /// running freely.
    pub fn new() -> (r: AgentRuntime)
        ensures
            r.wf(),
            r.message_queue@ == Seq::<ChatMessageEnvelope>::empty(),
            r.instantiated_agents@ == Seq::<(AgentId, Mailbox)>::empty(),
            r.outstanding_tasks.count == 0,
            r.subscription_manager.subscriptions@ == Seq::<
                crate::subscription::Subscription,
            >::empty(),
            r.run_context.run_state == RunState::Running,
            r.active_dispatches@ == Seq::<ActiveDispatch>::empty(),
            r.tool_store@ == Seq::<(String, Tool)>::empty(),
            r.idle_spec(),
    {
        AgentRuntime {
            message_queue: Vec::new(),
            tool_store: Vec::new(),
            intervention_handlers: None,
            trace_provider: None,
            instantiated_agents: Vec::new(),
            outstanding_tasks: Counter::new(),
            subscription_manager: SubscriptionManager::new(),
            run_context: RunContext { run_state: RunState::Running },
            active_dispatches: Vec::new(),
            next_ticket: 0,
        }
    }

    /// The registry position of `agent`, scanned in order.
    fn find_agent_index(&self, agent: &AgentId) -> (r: Option<usize>)
        requires
            self.registry_unique(),
        ensures
            match r {
                Some(i) => i < self.instantiated_agents@.len()
                    && self.instantiated_agents@[i as int].0 == *agent && self.registered(*agent)
                    && self.agent_index(*agent) == i as int,
                None => !self.registered(*agent),
            },
    {
        let mut i: usize = 0;
        while i < self.instantiated_agents.len()
            invariant
                i <= self.instantiated_agents@.len(),
                self.registry_unique(),
                forall|k: int|
                    0 <= k < i ==> (#[trigger] self.instantiated_agents@[k]).0 != *agent,
            decreases self.instantiated_agents@.len() - i,
        {
            if self.instantiated_agents[i].0.id == agent.id {
                proof {
                    assert(self.registered(*agent));
                    let w = self.agent_index(*agent);
                    assert(self.instantiated_agents@[w].0 == *agent);
                    if w < i as int {
                        assert(false);
                    }
                    if w > i as int {
                        assert(self.instantiated_agents@[i as int].0 == *agent);
                        assert(false);
                    }
                }
                return Some(i);
            }
            i = i + 1;
        }
        None
    }

    /// Registers an agent under a fresh mailbox.  Registering the same
    /// agent twice is refused, never silently overwritten.
    pub fn register(&mut self, agent_id: AgentId, mailbox: Mailbox) -> (r: Result<
        (),
        RouterError,
    >)
        requires
            old(self).wf(),
            mailbox.wf(),
            mailbox.inbox@.len() == 0,
        ensures
            final(self).wf(),
            old(self).registered(agent_id) ==> r == Result::<(), RouterError>::Err(
                RouterError::DuplicateAgent,
            ) && *final(self) == *old(self),
            !old(self).registered(agent_id) ==> ({
                let pre = *old(self);
                let post = *final(self);
                &&& r == Result::<(), RouterError>::Ok(())
                &&& post.instantiated_agents@ == pre.instantiated_agents@.push((agent_id, mailbox))
                &&& post.message_queue@ == pre.message_queue@
                &&& post.outstanding_tasks == pre.outstanding_tasks
                &&& post.subscription_manager == pre.subscription_manager
                &&& post.run_context == pre.run_context
                &&& post.active_dispatches@ == pre.active_dispatches@
                &&& post.next_ticket == pre.next_ticket
            }),
            forall|a: AgentId|
                #[trigger] final(self).registered(a) == (old(self).registered(a) || a == agent_id),
    {
        match self.find_agent_index(&agent_id) {
            Some(_) => Err(RouterError::DuplicateAgent),
            None => {
                proof {
                    lemma_inbox_total_push(
                        self.instantiated_agents@,
                        (agent_id, mailbox),
                    );
                }
                self.instantiated_agents.push((agent_id, mailbox));
                proof {
                    let post = *self;
                    let pre_len = post.instantiated_agents@.len() - 1;
                    assert forall|k1: int, k2: int|
                        0 <= k1 < k2 < post.instantiated_agents@.len() implies (
                    #[trigger] post.instantiated_agents@[k1]).0
                        != (#[trigger] post.instantiated_agents@[k2]).0 by {
                        if k2 == pre_len {
                            assert(old(self).registered(post.instantiated_agents@[k1].0));
                        }
                    }
                    assert(post.instantiated_agents@[pre_len] == (agent_id, mailbox));
                    lemma_tickets_push_empty(
                        old(self).instantiated_agents@,
                        old(self).active_dispatches@,
                        old(self).next_ticket,
                        (agent_id, mailbox),
                    );
                    assert forall|a: AgentId| #[trigger]
                        post.registered(a) == (old(self).registered(a) || a == agent_id) by {
                        if post.registered(a) {
                            let k = choose|k: int|
                                0 <= k < post.instantiated_agents@.len() && (
                                #[trigger] post.instantiated_agents@[k]).0 == a;
                            if k < pre_len {
                                assert(old(self).instantiated_agents@[k].0 == a);
                                assert(old(self).registered(a));
                            }
                        }
                        if old(self).registered(a) {
                            let k = choose|k: int|
                                0 <= k < old(self).instantiated_agents@.len() && (#[trigger] old(
                                    self,
                                ).instantiated_agents@[k]).0 == a;
                            assert(post.instantiated_agents@[k].0 == a);
                        }
                        if a == agent_id {
                            assert(post.instantiated_agents@[pre_len].0 == a);
                        }
                    }
                }
                Ok(())
            },
        }
    }

    /// Enqueues a point-to-point send envelope.  A send to an agent that is
    /// not registered is refused synchronously and enqueues nothing.
    pub fn send_message(
        &mut self,
        message: ChatMessage,
        recipient: AgentId,
        sender: Option<AgentId>,
    ) -> (r: Result<(), RouterError>)
        requires
            old(self).wf(),
        ensures
            final(self).wf(),
            !old(self).registered(recipient) ==> r == Result::<(), RouterError>::Err(
                RouterError::UnknownAgent,
            ) && *final(self) == *old(self),
            old(self).registered(recipient) ==> ({
                let pre = *old(self);
                let post = *final(self);
                &&& r == Result::<(), RouterError>::Ok(())
                &&& post.message_queue@ == pre.message_queue@.push(
                    ChatMessageEnvelope::SendMessageEnvelope(
                        SendMessage { message, sender, recipient, parent: None },
                    ),
                )
                &&& post.instantiated_agents@ == pre.instantiated_agents@
                &&& post.outstanding_tasks == pre.outstanding_tasks
                &&& post.subscription_manager == pre.subscription_manager
                &&& post.run_context == pre.run_context
                &&& post.active_dispatches@ == pre.active_dispatches@
                &&& post.next_ticket == pre.next_ticket
            }),
    {
        match self.find_agent_index(&recipient) {
            None => Err(RouterError::UnknownAgent),
            Some(_) => {
                self.message_queue.push(
                    ChatMessageEnvelope::SendMessageEnvelope(
                        SendMessage { message, sender, recipient, parent: None },
                    ),
                );
                Ok(())
            },
        }
    }

    /// Enqueues a broadcast envelope.  Publishing never fails synchronously:
    /// the topic is resolved at dispatch time, since subscribers may appear
    /// between publishing and dispatching.
    pub fn publish_message(
        &mut self,
        message: ChatMessage,
        topic_id: TopicId,
        sender: Option<AgentId>,
    )
        requires
            old(self).wf(),
        ensures
            final(self).wf(),
            ({
                let pre = *old(self);
                let post = *final(self);
                &&& post.message_queue@ == pre.message_queue@.push(
                    ChatMessageEnvelope::PublishMessageEnvelope(
                        PublishMessage { message, sender, topic_id },
                    ),
                )
                &&& post.instantiated_agents@ == pre.instantiated_agents@
                &&& post.outstanding_tasks == pre.outstanding_tasks
                &&& post.subscription_manager == pre.subscription_manager
                &&& post.run_context == pre.run_context
                &&& post.active_dispatches@ == pre.active_dispatches@
                &&& post.next_ticket == pre.next_ticket
            }),
    {
        self.message_queue.push(
            ChatMessageEnvelope::PublishMessageEnvelope(
                PublishMessage { message, sender, topic_id },
            ),
        );
    }

    /// Registers a subscription with the subscription manager, invalidating
    /// the resolution cache.
    pub fn add_subscription(&mut self, subscription: crate::subscription::Subscription)
        requires
            old(self).wf(),
        ensures
            final(self).wf(),
            final(self).subscription_manager.subscriptions@ == old(
                self,
            ).subscription_manager.subscriptions@.push(subscription),
            final(self).subscription_manager.seen_topics@ == Seq::<TopicId>::empty(),
            final(self).message_queue@ == old(self).message_queue@,
            final(self).instantiated_agents@ == old(self).instantiated_agents@,
            final(self).outstanding_tasks == old(self).outstanding_tasks,
            final(self).run_context == old(self).run_context,
            final(self).active_dispatches@ == old(self).active_dispatches@,
            final(self).next_ticket == old(self).next_ticket,
    {
        self.subscription_manager.add_subscription(subscription);
    }

    /// Removes the one subscription registered under `sub_id`, leaving
    /// other subscriptions of the same topic, and invalidates the cache.
    pub fn remove_subscription(&mut self, sub_id: crate::ids::SubscriptionId)
        requires
            old(self).wf(),
        ensures
            final(self).wf(),
            final(self).subscription_manager.subscriptions@ == crate::subscription::remove_spec(
                old(self).subscription_manager.subscriptions@,
                sub_id,
            ),
            final(self).message_queue@ == old(self).message_queue@,
            final(self).instantiated_agents@ == old(self).instantiated_agents@,
            final(self).outstanding_tasks == old(self).outstanding_tasks,
            final(self).run_context == old(self).run_context,
            final(self).active_dispatches@ == old(self).active_dispatches@,
            final(self).next_ticket == old(self).next_ticket,
    {
        self.subscription_manager.remove_subscription(sub_id);
    }

    /// Persistence extension point for the excluded agent layer; the core
    /// itself persists nothing.
    pub fn save_state(&self) {
    }

    /// Persistence extension point for the excluded agent layer; the core
    /// itself restores nothing.
    pub fn load_state(&self) {
    }

    /// Whether the runtime has settled: nothing queued and nothing in
    /// flight.  This is the only valid reading of "idle".
    pub fn is_idle(&self) -> (r: bool)
        ensures
            r == self.idle_spec(),
    {
        self.message_queue.len() == 0 && self.outstanding_tasks.value() == 0
    }

    /// Hands back the envelopes still waiting to be dispatched.
    pub fn unprocessed_messages(self) -> (r: Vec<ChatMessageEnvelope>)
        ensures
            r@ == self.message_queue@,
    {
        self.message_queue
    }

    /// The agents currently registered, in registration order.
    pub fn known_agent_names(&self) -> (r: Vec<AgentId>)
        ensures
            r@ == self.instantiated_agents@.map_values(|p: (AgentId, Mailbox)| p.0),
    {
        let mut r: Vec<AgentId> = Vec::new();
        let mut i: usize = 0;
        while i < self.instantiated_agents.len()
            invariant
                i <= self.instantiated_agents@.len(),
                r@.len() == i,
                forall|k: int| 0 <= k < i ==> r@[k] == (#[trigger] self.instantiated_agents@[k]).0,
            decreases self.instantiated_agents@.len() - i,
        {
            r.push(self.instantiated_agents[i].0);
            i = i + 1;
        }
        proof {
            assert(r@ =~= self.instantiated_agents@.map_values(|p: (AgentId, Mailbox)| p.0));
        }
        r
    }

    /// The names of the registered tools, in registration order.
    pub fn known_tools(&self) -> (r: Vec<String>)
        ensures
            r@.map_values(|s: String| s@) == self.tool_store@.map_values(|p: (String, Tool)| p.0@),
    {
        let mut r: Vec<String> = Vec::new();
        let mut i: usize = 0;
        while i < self.tool_store.len()
            invariant
                i <= self.tool_store@.len(),
                r@.len() == i,
                forall|k: int| 0 <= k < i ==> r@[k]@ == (#[trigger] self.tool_store@[k]).0@,
            decreases self.tool_store@.len() - i,
        {
            r.push(self.tool_store[i].0.clone());
            i = i + 1;
        }
        proof {
            assert(r@.map_values(|s: String| s@) =~= self.tool_store@.map_values(
                |p: (String, Tool)| p.0@,
            ));
        }
        r
    }

    /// Settles a response envelope: a response addressed to someone is
    /// handed out for its waiting caller; one addressed to no one is
    /// discarded, a normal, non-error outcome.
    pub fn process_response(&mut self, rm: ResponseMessage) -> (r: StepOutcome)
        requires
            old(self).wf(),
        ensures
            final(self).wf(),
            *final(self) == *old(self),
            rm.recipient is Some ==> r == (StepOutcome::Responded { response: rm }),
            rm.recipient is None ==> r == StepOutcome::Discarded,
    {
        if rm.recipient.is_some() {
            StepOutcome::Responded { response: rm }
        } else {
            StepOutcome::Discarded
        }
    }

    /// Removes an agent's mailbox, closing it: every delivery still waiting
    /// in it is aborted and reported as one `RecipientGone` failure; work
    /// the agent already took out is not interrupted and settles normally.
    pub fn deregister(&mut self, agent_id: AgentId) -> (r: Result<Vec<DispatchFailure>, RouterError>)
        requires
            old(self).wf(),
        ensures
            final(self).wf(),
            !old(self).registered(agent_id) ==> r == Result::<
                Vec<DispatchFailure>,
                RouterError,
            >::Err(RouterError::UnknownAgent) && *final(self) == *old(self),
            old(self).registered(agent_id) ==> {
                let i = old(self).agent_index(agent_id);
                let gone = old(self).instantiated_agents@[i].1.inbox@;
                &&& r is Ok
                &&& r->Ok_0@.len() == gone.len()
                &&& forall|k: int|
                    0 <= k < gone.len() ==> (#[trigger] r->Ok_0@[k]) == (DispatchFailure {
                        recipient: agent_id,
                        reply_to: gone[k].reply_to,
                        error: RouterError::RecipientGone,
                    })
                &&& final(self).instantiated_agents@ == old(self).instantiated_agents@.remove(i)
                &&& final(self).outstanding_tasks.count == old(self).outstanding_tasks.count
                    - gone.len()
                &&& final(self).message_queue@ == old(self).message_queue@
                &&& final(self).subscription_manager == old(self).subscription_manager
                &&& final(self).run_context == old(self).run_context
                &&& final(self).active_dispatches@ == old(self).active_dispatches@
                &&& final(self).next_ticket == old(self).next_ticket
                &&& !final(self).registered(agent_id)
            },
    {
        match self.find_agent_index(&agent_id) {
            None => Err(RouterError::UnknownAgent),
            Some(i) => {
                let ghost pre = *old(self);
                proof {
                    lemma_inbox_total_remove(pre.instantiated_agents@, i as int);
                    lemma_inbox_total_nonneg(pre.instantiated_agents@.remove(i as int));
                    lemma_inbox_total_at_least(pre.instantiated_agents@, i as int);
                }
                let entry = self.instantiated_agents.remove(i);
                let gone_len = entry.1.inbox.len();
                proof {
                    assert(gone_len <= pre.outstanding_tasks.count);
                }
                self.outstanding_tasks.count = self.outstanding_tasks.count - (gone_len as i64);
                let mut aborted: Vec<DispatchFailure> = Vec::new();
                let mut k: usize = 0;
                while k < gone_len
                    invariant
                        gone_len == entry.1.inbox@.len(),
                        k <= gone_len,
                        aborted@.len() == k,
                        forall|q: int|
                            0 <= q < k ==> (#[trigger] aborted@[q]) == (DispatchFailure {
                                recipient: agent_id,
                                reply_to: entry.1.inbox@[q].reply_to,
                                error: RouterError::RecipientGone,
                            }),
                    decreases gone_len - k,
                {
                    aborted.push(
                        DispatchFailure {
                            recipient: agent_id,
                            reply_to: entry.1.inbox[k].reply_to,
                            error: RouterError::RecipientGone,
                        },
                    );
                    k = k + 1;
                }
                proof {
                    let post = *self;
                    let iw = i as int;
                    assert(pre.instantiated_agents@[iw].0 == agent_id);
                    assert forall|k1: int, k2: int|
                        0 <= k1 < k2 < post.instantiated_agents@.len() implies (
                    #[trigger] post.instantiated_agents@[k1]).0
                        != (#[trigger] post.instantiated_agents@[k2]).0 by {
                        let o1 = if k1 < iw { k1 } else { k1 + 1 };
                        let o2 = if k2 < iw { k2 } else { k2 + 1 };
                        assert(post.instantiated_agents@[k1] == pre.instantiated_agents@[o1]);
                        assert(post.instantiated_agents@[k2] == pre.instantiated_agents@[o2]);
                    }
                    assert forall|k: int| 0 <= k < post.instantiated_agents@.len() implies (
                    #[trigger] post.instantiated_agents@[k]).1.wf() by {
                        let o = if k < iw { k } else { k + 1 };
                        assert(post.instantiated_agents@[k] == pre.instantiated_agents@[o]);
                    }
                    lemma_tickets_remove_agent(
                        pre.instantiated_agents@,
                        pre.active_dispatches@,
                        pre.next_ticket,
                        iw,
                    );
                    if post.registered(agent_id) {
                        let k = choose|k: int|
                            0 <= k < post.instantiated_agents@.len() && (
                            #[trigger] post.instantiated_agents@[k]).0 == agent_id;
                        let o = if k < iw { k } else { k + 1 };
                        assert(post.instantiated_agents@[k] == pre.instantiated_agents@[o]);
                        assert(o != iw);
                        assert(pre.instantiated_agents@[o].0 == pre.instantiated_agents@[iw].0);
                        assert(false);
                    }
                }
                Ok(aborted)
            },
        }
    }

    /// What dispatching one send envelope does to everything but the
    /// envelope queue: the recipient's mailbox gains the delivery under a
    /// fresh ticket and the counter rises by one; a recipient that
    /// deregistered since the send was accepted yields exactly one
    /// `RecipientGone` failure; a full mailbox or a saturated runtime defers
    /// the whole dispatch.
    pub open spec fn send_post(
        pre: AgentRuntime,
        post: AgentRuntime,
        sm: SendMessage,
        r: StepOutcome,
    ) -> bool {
        &&& post.subscription_manager == pre.subscription_manager
        &&& post.run_context == pre.run_context
        &&& post.tool_store@ == pre.tool_store@
        &&& post.active_dispatches@ == pre.active_dispatches@
        &&& (r is Busy <==> pre.registered(sm.recipient) && ({
            let mb = pre.instantiated_agents@[pre.agent_index(sm.recipient)].1;
            ||| mb.inbox@.len() == mb.capacity
            ||| pre.outstanding_tasks.count == i64::MAX
            ||| pre.next_ticket == u64::MAX
        }))
        &&& (r is Busy ==> post.instantiated_agents@ == pre.instantiated_agents@
            && post.outstanding_tasks == pre.outstanding_tasks && post.next_ticket
            == pre.next_ticket)
        &&& (!pre.registered(sm.recipient) ==> (r matches StepOutcome::Dispatched {
            tickets,
            failures,
            deferred,
        } && tickets@ == Seq::<u64>::empty() && failures@ == seq![
            (DispatchFailure {
                recipient: sm.recipient,
                reply_to: sm.sender,
                error: RouterError::RecipientGone,
            }),
        ] && deferred@ == Seq::<AgentId>::empty()) && post.instantiated_agents@
            == pre.instantiated_agents@ && post.outstanding_tasks == pre.outstanding_tasks
            && post.next_ticket == pre.next_ticket)
        &&& (pre.registered(sm.recipient) && !(r is Busy) ==> ({
            let i = pre.agent_index(sm.recipient);
            let d = (Delivery {
                ticket: pre.next_ticket,
                message: sm.message,
                context: ChatMessageContext { sender: sm.sender, topic_id: None, is_rpc: true },
                reply_to: sm.sender,
            });
            &&& (r matches StepOutcome::Dispatched { tickets, failures, deferred } && tickets@
                == seq![pre.next_ticket] && failures@ == Seq::<DispatchFailure>::empty()
                && deferred@ == Seq::<AgentId>::empty())
            &&& post.instantiated_agents@.len() == pre.instantiated_agents@.len()
            &&& forall|k: int|
                0 <= k < pre.instantiated_agents@.len() && k != i
                    ==> #[trigger] post.instantiated_agents@[k] == pre.instantiated_agents@[k]
            &&& post.instantiated_agents@[i].0 == sm.recipient
            &&& post.instantiated_agents@[i].1.capacity == pre.instantiated_agents@[i].1.capacity
            &&& post.instantiated_agents@[i].1.inbox@ == pre.instantiated_agents@[i].1.inbox@.push(
                d,
            )
            &&& post.outstanding_tasks.count == pre.outstanding_tasks.count + 1
            &&& post.next_ticket == pre.next_ticket + 1
        }))
    }

    /// Dispatches one send envelope, placing the delivery — message plus a
    /// context telling the agent who sent it and that a direct reply is
    /// awaited — into the recipient's mailbox under a fresh ticket.
    pub fn process_send(&mut self, sm: SendMessage) -> (r: StepOutcome)
        requires
            old(self).wf(),
        ensures
            final(self).wf(),
            final(self).message_queue@ == old(self).message_queue@,
            AgentRuntime::send_post(*old(self), *final(self), sm, r),
    {
        let ghost pre = *old(self);
        match self.find_agent_index(&sm.recipient) {
            None => {
                let mut failures: Vec<DispatchFailure> = Vec::new();
                failures.push(
                    DispatchFailure {
                        recipient: sm.recipient,
                        reply_to: sm.sender,
                        error: RouterError::RecipientGone,
                    },
                );
                proof {
                    assert(failures@ =~= seq![
                        (DispatchFailure {
                            recipient: sm.recipient,
                            reply_to: sm.sender,
                            error: RouterError::RecipientGone,
                        }),
                    ]);
                }
                StepOutcome::Dispatched { tickets: Vec::new(), failures, deferred: Vec::new() }
            },
            Some(i) => {
                let full = !self.instantiated_agents[i].1.has_space();
                if full || self.outstanding_tasks.value() == i64::MAX || self.next_ticket
                    == u64::MAX {
                    return StepOutcome::Busy;
                }
                let ticket = self.next_ticket;
                self.next_ticket = ticket + 1;
                let d = Delivery {
                    ticket,
                    message: sm.message,
                    context: ChatMessageContext {
                        sender: sm.sender,
                        topic_id: None,
                        is_rpc: true,
                    },
                    reply_to: sm.sender,
                };
                let slot = &mut self.instantiated_agents[i];
                slot.1.inbox.push(d);
                self.outstanding_tasks.increment();
                let mut tickets: Vec<u64> = Vec::new();
                tickets.push(ticket);
                proof {
                    let post = *self;
                    assert(tickets@ =~= seq![pre.next_ticket]);
                    lemma_inbox_total_update(
                        pre.instantiated_agents@,
                        i as int,
                        post.instantiated_agents@[i as int],
                    );
                    assert(post.instantiated_agents@ =~= pre.instantiated_agents@.update(
                        i as int,
                        post.instantiated_agents@[i as int],
                    ));
                    assert(post.instantiated_agents@[i as int].1.inbox@.drop_last() =~= pre
                        .instantiated_agents@[i as int]
                        .1
                        .inbox@);
                    lemma_tickets_dispatch(
                        pre.instantiated_agents@,
                        post.instantiated_agents@,
                        pre.active_dispatches@,
                        pre.next_ticket,
                        post.next_ticket,
                        i as int,
                    );
                    assert forall|k1: int, k2: int|
                        0 <= k1 < k2 < post.instantiated_agents@.len() implies (
                    #[trigger] post.instantiated_agents@[k1]).0
                        != (#[trigger] post.instantiated_agents@[k2]).0 by {
                        assert(post.instantiated_agents@[k1].0 == pre.instantiated_agents@[k1].0);
                        assert(post.instantiated_agents@[k2].0 == pre.instantiated_agents@[k2].0);
                    }
                    assert forall|k: int| 0 <= k < post.instantiated_agents@.len() implies (
                    #[trigger] post.instantiated_agents@[k]).1.wf() by {
                        if k != i as int {
                            assert(post.instantiated_agents@[k] == pre.instantiated_agents@[k]);
                        }
                    }
                }
                StepOutcome::Dispatched { tickets, failures: Vec::new(), deferred: Vec::new() }
            },
        }
    }

    /// What dispatching one publish envelope does to everything but the
    /// envelope queue.  The topic is resolved (and cached) now; every
    /// resolved, registered recipient with room gets one delivery under a
    /// fresh consecutive ticket, with the counter raised once per
    /// delivery; recipients without a mailbox are reported one by one as
    /// `RecipientGone` failures, in resolution order; recipients are
    /// deferred only while their mailbox is full or the runtime is
    /// saturated.  Recipients are independent: one recipient's failure or
    /// deferral never touches another's delivery.
    pub open spec fn publish_post(
        pre: AgentRuntime,
        post: AgentRuntime,
        pm: PublishMessage,
        r: StepOutcome,
    ) -> bool {
        let recips = crate::subscription::resolve_spec(
            pre.subscription_manager.subscriptions@,
            pm.topic_id,
        );
        &&& SubscriptionManager::resolve_post(
            pre.subscription_manager,
            post.subscription_manager,
            pm.topic_id,
            recips,
        )
        &&& post.run_context == pre.run_context
        &&& post.tool_store@ == pre.tool_store@
        &&& post.active_dispatches@ == pre.active_dispatches@
        &&& (r matches StepOutcome::Dispatched { tickets, failures, deferred } && ({
            &&& tickets@.len() + failures@.len() + deferred@.len() == recips.len()
            &&& forall|q: int|
                0 <= q < tickets@.len() ==> #[trigger] tickets@[q] == pre.next_ticket + q
            &&& post.next_ticket == pre.next_ticket + tickets@.len()
            &&& post.outstanding_tasks.count == pre.outstanding_tasks.count + tickets@.len()
            &&& failures@.map_values(|x: DispatchFailure| x.recipient) == unreachable_of(
                pre.instantiated_agents@,
                recips,
            )
            &&& forall|q: int|
                0 <= q < failures@.len() ==> (#[trigger] failures@[q]).error
                    == RouterError::RecipientGone && failures@[q].reply_to == pm.sender
                    && recips.contains(failures@[q].recipient)
            &&& forall|q: int|
                0 <= q < deferred@.len() ==> recips.contains(#[trigger] deferred@[q])
                    && pre.registered(deferred@[q]) && (mailbox_full(
                    pre.instantiated_agents@,
                    deferred@[q],
                ) || post.outstanding_tasks.count == i64::MAX || post.next_ticket == u64::MAX)
            &&& post.instantiated_agents@.len() == pre.instantiated_agents@.len()
            &&& forall|k: int|
                0 <= k < pre.instantiated_agents@.len() ==> ({
                    let pa = (#[trigger] pre.instantiated_agents@[k]);
                    let sa = post.instantiated_agents@[k];
                    &&& sa.0 == pa.0
                    &&& sa.1.capacity == pa.1.capacity
                    &&& (recips.contains(pa.0) && !deferred@.contains(pa.0) ==> sa.1.inbox@.len()
                        == pa.1.inbox@.len() + 1 && sa.1.inbox@.drop_last() == pa.1.inbox@
                        && sa.1.inbox@.last().message@ == pm.message@ && sa.1.inbox@.last().context
                        == (ChatMessageContext {
                        sender: pm.sender,
                        topic_id: Some(pm.topic_id),
                        is_rpc: false,
                    }) && sa.1.inbox@.last().reply_to == pm.sender && tickets@.contains(
                        sa.1.inbox@.last().ticket,
                    ))
                    &&& (!(recips.contains(pa.0) && !deferred@.contains(pa.0)) ==> sa == pa)
                })
        }))
    }

    /// Dispatches one publish envelope: resolves the topic through the
    /// subscription manager and fans the message out to every resolved
    /// recipient independently, each under its own fresh ticket and with a
    /// context telling the agent the topic and that no direct reply is
    /// awaited.
    pub fn process_publish(&mut self, pm: PublishMessage) -> (r: StepOutcome)
        requires
            old(self).wf(),
        ensures
            final(self).wf(),
            final(self).message_queue@ == old(self).message_queue@,
            AgentRuntime::publish_post(*old(self), *final(self), pm, r),
    {
        let ghost pre = *old(self);
        let recipients = self.subscription_manager.get_subscribed_recipients(&pm.topic_id);
        let ghost recips = recipients@;
        proof {
            crate::subscription::lemma_resolve_spec_no_dups(
                pre.subscription_manager.subscriptions@,
                pm.topic_id,
            );
        }
        let mut tickets: Vec<u64> = Vec::new();
        let mut failures: Vec<DispatchFailure> = Vec::new();
        let mut deferred: Vec<AgentId> = Vec::new();
        let mut p: usize = 0;
        while p < recipients.len()
            invariant
                pre.wf(),
                recipients@ == recips,
                recips == crate::subscription::resolve_spec(
                    pre.subscription_manager.subscriptions@,
                    pm.topic_id,
                ),
                forall|q1: int, q2: int| 0 <= q1 < q2 < recips.len() ==> recips[q1] != recips[q2],
                p <= recips.len(),
                SubscriptionManager::resolve_post(
                    pre.subscription_manager,
                    self.subscription_manager,
                    pm.topic_id,
                    recips,
                ),
                self.message_queue@ == pre.message_queue@,
                self.run_context == pre.run_context,
                self.tool_store@ == pre.tool_store@,
                self.active_dispatches@ == pre.active_dispatches@,
                self.wf(),
                tickets@.len() + failures@.len() + deferred@.len() == p,
                forall|q: int|
                    0 <= q < tickets@.len() ==> #[trigger] tickets@[q] == pre.next_ticket + q,
                self.next_ticket == pre.next_ticket + tickets@.len(),
                self.outstanding_tasks.count == pre.outstanding_tasks.count + tickets@.len(),
                failures@.map_values(|x: DispatchFailure| x.recipient) == unreachable_of(
                    pre.instantiated_agents@,
                    recips.subrange(0, p as int),
                ),
                forall|q: int|
                    0 <= q < failures@.len() ==> (#[trigger] failures@[q]).error
                        == RouterError::RecipientGone && failures@[q].reply_to == pm.sender
                        && recips.contains(failures@[q].recipient),
                forall|q: int|
                    0 <= q < deferred@.len() ==> recips.subrange(0, p as int).contains(
                        #[trigger] deferred@[q],
                    ) && pre.registered(deferred@[q]) && (mailbox_full(
                        pre.instantiated_agents@,
                        deferred@[q],
                    ) || self.outstanding_tasks.count == i64::MAX || self.next_ticket
                        == u64::MAX),
                self.instantiated_agents@.len() == pre.instantiated_agents@.len(),
                forall|k: int|
                    0 <= k < pre.instantiated_agents@.len() ==> ({
                        let pa = (#[trigger] pre.instantiated_agents@[k]);
                        let sa = self.instantiated_agents@[k];
                        &&& sa.0 == pa.0
                        &&& sa.1.capacity == pa.1.capacity
                        &&& (recips.subrange(0, p as int).contains(pa.0) && !deferred@.contains(
                            pa.0,
                        ) ==> sa.1.inbox@.len() == pa.1.inbox@.len() + 1 && sa.1.inbox@.drop_last()
                            == pa.1.inbox@ && sa.1.inbox@.last().message@ == pm.message@
                            && sa.1.inbox@.last().context == (ChatMessageContext {
                            sender: pm.sender,
                            topic_id: Some(pm.topic_id),
                            is_rpc: false,
                        }) && sa.1.inbox@.last().reply_to == pm.sender && tickets@.contains(
                            sa.1.inbox@.last().ticket,
                        ))
                        &&& (!(recips.subrange(0, p as int).contains(pa.0) && !deferred@.contains(
                            pa.0,
                        )) ==> sa == pa)
                    }),
            decreases recips.len() - p,
        {
            let ghost pfx = recips.subrange(0, p as int);
            let ghost pfx1 = recips.subrange(0, p + 1);
            proof {
                assert(pfx1.drop_last() =~= pfx);
                assert(pfx1.last() == recips[p as int]);
                lemma_same_keys_registered(pre.instantiated_agents@, self.instantiated_agents@);
            }
            let a = recipients[p];
            let ghost mid = *self;
            let ghost tickets_mid = tickets@;
            let ghost deferred_mid = deferred@;
            match self.find_agent_index(&a) {
                None => {
                    failures.push(
                        DispatchFailure {
                            recipient: a,
                            reply_to: pm.sender,
                            error: RouterError::RecipientGone,
                        },
                    );
                    proof {
                        assert(!registered_in(pre.instantiated_agents@, a));
                        assert(failures@.map_values(|x: DispatchFailure| x.recipient)
                            =~= unreachable_of(pre.instantiated_agents@, pfx1));
                        assert(recips.contains(a)) by {
                            assert(recips[p as int] == a);
                        }
                    }
                },
                Some(i) => {
                    proof {
                        assert(registered_in(pre.instantiated_agents@, a));
                        assert(unreachable_of(pre.instantiated_agents@, pfx1) =~= unreachable_of(
                            pre.instantiated_agents@,
                            pfx,
                        ));
                        assert(recips.contains(a)) by {
                            assert(recips[p as int] == a);
                        }
                    }
                    let full = !self.instantiated_agents[i].1.has_space();
                    if full || self.outstanding_tasks.value() == i64::MAX || self.next_ticket
                        == u64::MAX {
                        proof {
                            if full {
                                assert(index_of_agent(pre.instantiated_agents@, a) == i as int);
                                assert(!pfx.contains(a)) by {
                                    if pfx.contains(a) {
                                        let q = choose|q: int|
                                            0 <= q < pfx.len() && pfx[q] == a;
                                        assert(recips[q] == a && recips[p as int] == a);
                                    }
                                }
                                assert(self.instantiated_agents@[i as int]
                                    == pre.instantiated_agents@[i as int]);
                                assert(mailbox_full(pre.instantiated_agents@, a));
                            }
                        }
                        deferred.push(a);
                        proof {
                            assert(pfx1.contains(a)) by {
                                assert(pfx1[p as int] == a);
                            }
                            assert forall|q: int|
                                0 <= q < deferred@.len() implies recips.subrange(
                                0,
                                p + 1,
                            ).contains(#[trigger] deferred@[q]) by {
                                if q < deferred@.len() - 1 {
                                    assert(deferred@[q] == deferred_mid[q]);
                                    let w = choose|w: int|
                                        0 <= w < pfx.len() && pfx[w] == deferred_mid[q];
                                    assert(pfx1[w] == deferred_mid[q]);
                                }
                            }
                            assert forall|k: int|
                                0 <= k < pre.instantiated_agents@.len() implies ({
                                let pa = (#[trigger] pre.instantiated_agents@[k]);
                                let sa = self.instantiated_agents@[k];
                                !(pfx1.contains(pa.0) && !deferred@.contains(pa.0)) ==> sa
                                    == pa
                            }) by {
                                let pa = pre.instantiated_agents@[k];
                                if !(pfx1.contains(pa.0) && !deferred@.contains(pa.0)) {
                                    if pfx.contains(pa.0) && !deferred_mid.contains(pa.0) {
                                        assert(deferred@.contains(pa.0) || !pfx1.contains(pa.0));
                                        if deferred@.contains(pa.0) {
                                            let w = choose|w: int|
                                                0 <= w < deferred@.len() && deferred@[w] == pa.0;
                                            if w < deferred@.len() - 1 {
                                                assert(deferred_mid[w] == pa.0);
                                                assert(false);
                                            } else {
                                                assert(pa.0 == a);
                                                let u = choose|u: int|
                                                    0 <= u < pfx.len() && pfx[u] == pa.0;
                                                assert(recips[u] == a && recips[p as int] == a);
                                                assert(false);
                                            }
                                        } else {
                                            let u = choose|u: int|
                                                0 <= u < pfx.len() && pfx[u] == pa.0;
                                            assert(pfx1[u] == pa.0);
                                            assert(false);
                                        }
                                    }
                                }
                            }
                            assert forall|k: int|
                                0 <= k < pre.instantiated_agents@.len() implies ({
                                let pa = (#[trigger] pre.instantiated_agents@[k]);
                                let sa = self.instantiated_agents@[k];
                                pfx1.contains(pa.0) && !deferred@.contains(pa.0)
                                    ==> sa.1.inbox@.len() == pa.1.inbox@.len() + 1
                                    && sa.1.inbox@.drop_last() == pa.1.inbox@
                                    && sa.1.inbox@.last().message@ == pm.message@
                                    && sa.1.inbox@.last().context == (ChatMessageContext {
                                    sender: pm.sender,
                                    topic_id: Some(pm.topic_id),
                                    is_rpc: false,
                                }) && sa.1.inbox@.last().reply_to == pm.sender
                                    && tickets@.contains(sa.1.inbox@.last().ticket)
                            }) by {
                                let pa = pre.instantiated_agents@[k];
                                if pfx1.contains(pa.0) && !deferred@.contains(pa.0) {
                                    let w = choose|w: int|
                                        0 <= w < pfx1.len() && pfx1[w] == pa.0;
                                    if w == p as int {
                                        assert(pa.0 == a);
                                        assert(deferred@[deferred@.len() - 1] == a);
                                        assert(deferred@.contains(pa.0));
                                        assert(false);
                                    } else {
                                        assert(pfx[w] == pa.0);
                                        assert(pfx.contains(pa.0));
                                        assert(!deferred_mid.contains(pa.0)) by {
                                            if deferred_mid.contains(pa.0) {
                                                let u = choose|u: int|
                                                    0 <= u < deferred_mid.len() && deferred_mid[u]
                                                        == pa.0;
                                                assert(deferred@[u] == pa.0);
                                            }
                                        }
                                    }
                                }
                            }
                        }
                    } else {
                        let ticket = self.next_ticket;
                        self.next_ticket = ticket + 1;
                        let d = Delivery {
                            ticket,
                            message: pm.message.clone(),
                            context: ChatMessageContext {
                                sender: pm.sender,
                                topic_id: Some(pm.topic_id),
                                is_rpc: false,
                            },
                            reply_to: pm.sender,
                        };
                        let slot = &mut self.instantiated_agents[i];
                        slot.1.inbox.push(d);
                        self.outstanding_tasks.increment();
                        tickets.push(ticket);
                        proof {
                            let post = *self;
                            let iw = i as int;
                            assert(post.instantiated_agents@ =~= mid.instantiated_agents@.update(
                                iw,
                                post.instantiated_agents@[iw],
                            ));
                            assert(post.instantiated_agents@[iw].1.inbox@.drop_last() =~= mid
                                .instantiated_agents@[iw]
                                .1
                                .inbox@);
                            lemma_inbox_total_update(
                                mid.instantiated_agents@,
                                iw,
                                post.instantiated_agents@[iw],
                            );
                            lemma_tickets_dispatch(
                                mid.instantiated_agents@,
                                post.instantiated_agents@,
                                mid.active_dispatches@,
                                mid.next_ticket,
                                post.next_ticket,
                                iw,
                            );
                            assert forall|k1: int, k2: int|
                                0 <= k1 < k2 < post.instantiated_agents@.len() implies (
                            #[trigger] post.instantiated_agents@[k1]).0
                                != (#[trigger] post.instantiated_agents@[k2]).0 by {
                                assert(post.instantiated_agents@[k1].0
                                    == mid.instantiated_agents@[k1].0);
                                assert(post.instantiated_agents@[k2].0
                                    == mid.instantiated_agents@[k2].0);
                            }
                            assert forall|k: int|
                                0 <= k < post.instantiated_agents@.len() implies (
                            #[trigger] post.instantiated_agents@[k]).1.wf() by {
                                if k != iw {
                                    assert(post.instantiated_agents@[k]
                                        == mid.instantiated_agents@[k]);
                                }
                            }
                            assert(!pfx.contains(a)) by {
                                if pfx.contains(a) {
                                    let q = choose|q: int| 0 <= q < pfx.len() && pfx[q] == a;
                                    assert(recips[q] == a && recips[p as int] == a);
                                }
                            }
                            assert(index_of_agent(pre.instantiated_agents@, a) == iw);
                            assert(mid.instantiated_agents@[iw] == pre.instantiated_agents@[iw]);
                            assert forall|q: int|
                                0 <= q < tickets@.len() implies #[trigger] tickets@[q]
                                == pre.next_ticket + q by {
                                if q < tickets@.len() - 1 {
                                    assert(tickets@[q] == tickets_mid[q]);
                                }
                            }
                            assert forall|q: int|
                                0 <= q < deferred@.len() implies recips.subrange(
                                0,
                                p + 1,
                            ).contains(#[trigger] deferred@[q]) && pre.registered(deferred@[q])
                                && (mailbox_full(pre.instantiated_agents@, deferred@[q])
                                || self.outstanding_tasks.count == i64::MAX || self.next_ticket
                                == u64::MAX) by {
                                let w = choose|w: int|
                                    0 <= w < pfx.len() && pfx[w] == deferred@[q];
                                assert(pfx1[w] == deferred@[q]);
                                assert(mailbox_full(pre.instantiated_agents@, deferred@[q])
                                    || mid.outstanding_tasks.count == i64::MAX
                                    || mid.next_ticket == u64::MAX);
                            }
                            assert forall|k: int|
                                0 <= k < pre.instantiated_agents@.len() implies ({
                                let pa = (#[trigger] pre.instantiated_agents@[k]);
                                let sa = post.instantiated_agents@[k];
                                &&& sa.0 == pa.0
                                &&& sa.1.capacity == pa.1.capacity
                                &&& (pfx1.contains(pa.0) && !deferred@.contains(pa.0)
                                    ==> sa.1.inbox@.len() == pa.1.inbox@.len() + 1
                                    && sa.1.inbox@.drop_last() == pa.1.inbox@
                                    && sa.1.inbox@.last().message@ == pm.message@
                                    && sa.1.inbox@.last().context == (ChatMessageContext {
                                    sender: pm.sender,
                                    topic_id: Some(pm.topic_id),
                                    is_rpc: false,
                                }) && sa.1.inbox@.last().reply_to == pm.sender
                                    && tickets@.contains(sa.1.inbox@.last().ticket))
                                &&& (!(pfx1.contains(pa.0) && !deferred@.contains(pa.0)) ==> sa
                                    == pa)
                            }) by {
                                let pa = pre.instantiated_agents@[k];
                                let sa = post.instantiated_agents@[k];
                                if k == iw {
                                    assert(pa.0 == a);
                                    assert(pfx1.contains(a)) by {
                                        assert(pfx1[p as int] == a);
                                    }
                                    assert(!deferred@.contains(a)) by {
                                        if deferred@.contains(a) {
                                            let u = choose|u: int|
                                                0 <= u < deferred@.len() && deferred@[u] == a;
                                            let w = choose|w: int|
                                                0 <= w < pfx.len() && pfx[w] == a;
                                            assert(recips[w] == a && recips[p as int] == a);
                                        }
                                    }
                                    assert(mid.instantiated_agents@[iw].1.inbox@ == pa.1.inbox@);
                                    assert(sa.1.inbox@.last() == d);
                                    assert(tickets@[tickets@.len() - 1] == ticket);
                                    assert(tickets@.contains(ticket));
                                } else {
                                    assert(sa == mid.instantiated_agents@[k]);
                                    if pfx1.contains(pa.0) && !deferred@.contains(pa.0) {
                                        assert(pfx.contains(pa.0)) by {
                                            let w = choose|w: int|
                                                0 <= w < pfx1.len() && pfx1[w] == pa.0;
                                            if w == p as int {
                                                assert(pa.0 == a);
                                                assert(false);
                                            } else {
                                                assert(pfx[w] == pa.0);
                                            }
                                        }
                                        assert(!deferred_mid.contains(pa.0)) by {
                                            if deferred_mid.contains(pa.0) {
                                                let u = choose|u: int|
                                                    0 <= u < deferred_mid.len() && deferred_mid[u]
                                                        == pa.0;
                                                assert(deferred@[u] == pa.0);
                                            }
                                        }
                                        assert(tickets_mid.contains(sa.1.inbox@.last().ticket));
                                        let u = choose|u: int|
                                            0 <= u < tickets_mid.len() && tickets_mid[u]
                                                == sa.1.inbox@.last().ticket;
                                        assert(tickets@[u] == sa.1.inbox@.last().ticket);
                                        assert(tickets@.contains(sa.1.inbox@.last().ticket));
                                    } else {
                                        if pfx.contains(pa.0) && !deferred_mid.contains(pa.0) {
                                            assert(pfx1.contains(pa.0)) by {
                                                let w = choose|w: int|
                                                    0 <= w < pfx.len() && pfx[w] == pa.0;
                                                assert(pfx1[w] == pa.0);
                                            }
                                            assert(deferred@.contains(pa.0));
                                            assert(deferred_mid =~= deferred@);
                                            assert(false);
                                        }
                                        assert(sa == pa);
                                    }
                                }
                            }
                        }
                    }
                },
            }
            p = p + 1;
        }
        proof {
            assert(recips.subrange(0, recips.len() as int) =~= recips);
        }
        StepOutcome::Dispatched { tickets, failures, deferred }
    }

    /// Takes the next waiting delivery out of `agent`'s mailbox, in
    /// first-in-first-out order, marking its ticket as being handled.  The
    /// counter does not move: the work is still in flight until the ticket
    /// is settled.
    pub fn next_delivery(&mut self, agent: AgentId) -> (r: Option<Delivery>)
        requires
            old(self).wf(),
        ensures
            final(self).wf(),
            (!old(self).registered(agent) || old(self).instantiated_agents@[old(self).agent_index(
                agent,
            )].1.inbox@.len() == 0) ==> r is None && *final(self) == *old(self),
            (old(self).registered(agent) && old(self).instantiated_agents@[old(self).agent_index(
                agent,
            )].1.inbox@.len() > 0) ==> ({
                let pre = *old(self);
                let post = *final(self);
                let i = pre.agent_index(agent);
                let d = pre.instantiated_agents@[i].1.inbox@[0];
                &&& r == Some(d)
                &&& post.instantiated_agents@.len() == pre.instantiated_agents@.len()
                &&& forall|k: int|
                    0 <= k < pre.instantiated_agents@.len() && k != i
                        ==> #[trigger] post.instantiated_agents@[k] == pre.instantiated_agents@[k]
                &&& post.instantiated_agents@[i].0 == agent
                &&& post.instantiated_agents@[i].1.capacity == pre.instantiated_agents@[
                    i].1.capacity
                &&& post.instantiated_agents@[i].1.inbox@ == pre.instantiated_agents@[
                    i].1.inbox@.drop_first()
                &&& post.active_dispatches@ == pre.active_dispatches@.push(
                    ActiveDispatch { ticket: d.ticket, agent, reply_to: d.reply_to },
                )
                &&& post.outstanding_tasks == pre.outstanding_tasks
                &&& post.message_queue@ == pre.message_queue@
                &&& post.subscription_manager == pre.subscription_manager
                &&& post.run_context == pre.run_context
                &&& post.tool_store@ == pre.tool_store@
                &&& post.next_ticket == pre.next_ticket
            }),
    {
        let ghost pre = *old(self);
        match self.find_agent_index(&agent) {
            None => None,
            Some(i) => {
                if self.instantiated_agents[i].1.len() == 0 {
                    return None;
                }
                let slot = &mut self.instantiated_agents[i];
                let d = slot.1.inbox.remove(0);
                let ad = ActiveDispatch { ticket: d.ticket, agent, reply_to: d.reply_to };
                self.active_dispatches.push(ad);
                proof {
                    let post = *self;
                    let iw = i as int;
                    assert(post.instantiated_agents@ =~= pre.instantiated_agents@.update(
                        iw,
                        post.instantiated_agents@[iw],
                    ));
                    assert(post.instantiated_agents@[iw].1.inbox@ =~= pre.instantiated_agents@[
                        iw].1.inbox@.drop_first());
                    lemma_inbox_total_update(
                        pre.instantiated_agents@,
                        iw,
                        post.instantiated_agents@[iw],
                    );
                    lemma_tickets_take(
                        pre.instantiated_agents@,
                        post.instantiated_agents@,
                        pre.active_dispatches@,
                        pre.next_ticket,
                        iw,
                        ad,
                    );
                    assert forall|k1: int, k2: int|
                        0 <= k1 < k2 < post.instantiated_agents@.len() implies (
                    #[trigger] post.instantiated_agents@[k1]).0
                        != (#[trigger] post.instantiated_agents@[k2]).0 by {
                        assert(post.instantiated_agents@[k1].0 == pre.instantiated_agents@[k1].0);
                        assert(post.instantiated_agents@[k2].0 == pre.instantiated_agents@[k2].0);
                    }
                    assert forall|k: int| 0 <= k < post.instantiated_agents@.len() implies (
                    #[trigger] post.instantiated_agents@[k]).1.wf() by {
                        if k != iw {
                            assert(post.instantiated_agents@[k] == pre.instantiated_agents@[k]);
                        }
                    }
                }
                Some(d)
            },
        }
    }

    /// The active position of `ticket`, scanned in order.
    fn find_active_index(&self, ticket: u64) -> (r: Option<usize>)
        requires
            tickets_unique(self.instantiated_agents@, self.active_dispatches@),
        ensures
            match r {
                Some(j) => j < self.active_dispatches@.len()
                    && self.active_dispatches@[j as int].ticket == ticket && self.ticket_active(
                    ticket,
                ) && active_index_of(self.active_dispatches@, ticket) == j as int,
                None => !self.ticket_active(ticket),
            },
    {
        let mut j: usize = 0;
        while j < self.active_dispatches.len()
            invariant
                j <= self.active_dispatches@.len(),
                tickets_unique(self.instantiated_agents@, self.active_dispatches@),
                forall|l: int|
                    0 <= l < j ==> (#[trigger] self.active_dispatches@[l]).ticket != ticket,
            decreases self.active_dispatches@.len() - j,
        {
            if self.active_dispatches[j].ticket == ticket {
                proof {
                    assert(self.ticket_active(ticket));
                    let w = active_index_of(self.active_dispatches@, ticket);
                    assert(self.active_dispatches@[w].ticket == ticket);
                    if w != j as int {
                        assert(atick(self.active_dispatches@, w) == atick(
                            self.active_dispatches@,
                            j as int,
                        ));
                        assert(false);
                    }
                }
                return Some(j);
            }
            j = j + 1;
        }
        None
    }

    /// What settling a ticket with a response does: exactly one response
    /// envelope, addressed back to the original sender recorded for the
    /// ticket, re-enters the queue; the ticket stops being active and the
    /// counter falls by one.  An unknown ticket settles nothing.
    pub open spec fn complete_post(
        pre: AgentRuntime,
        post: AgentRuntime,
        ticket: u64,
        response: ChatMessage,
        r: bool,
    ) -> bool {
        &&& r == pre.ticket_active(ticket)
        &&& (!r ==> post == pre)
        &&& (r ==> ({
            let j = active_index_of(pre.active_dispatches@, ticket);
            &&& post.active_dispatches@ == pre.active_dispatches@.remove(j)
            &&& post.outstanding_tasks.count == pre.outstanding_tasks.count - 1
            &&& post.message_queue@ == pre.message_queue@.push(
                ChatMessageEnvelope::ResponseMessageEnvelope(
                    ResponseMessage {
                        message: response,
                        sender: pre.active_dispatches@[j].agent,
                        recipient: pre.active_dispatches@[j].reply_to,
                    },
                ),
            )
            &&& post.instantiated_agents@ == pre.instantiated_agents@
            &&& post.subscription_manager == pre.subscription_manager
            &&& post.run_context == pre.run_context
            &&& post.tool_store@ == pre.tool_store@
            &&& post.next_ticket == pre.next_ticket
            &&& !post.ticket_active(ticket)
        }))
    }

    /// Settles a ticket with the agent's response, which re-enters the
    /// queue as a response envelope addressed back to the original sender.
    /// Hands back whether the ticket was active; a ticket can be settled at
    /// most once.
    pub fn complete_delivery(&mut self, ticket: u64, response: ChatMessage) -> (r: bool)
        requires
            old(self).wf(),
        ensures
            final(self).wf(),
            AgentRuntime::complete_post(*old(self), *final(self), ticket, response, r),
    {
        let ghost pre = *old(self);
        match self.find_active_index(ticket) {
            None => false,
            Some(j) => {
                let ad = self.active_dispatches.remove(j);
                proof {
                    lemma_inbox_total_nonneg(pre.instantiated_agents@);
                }
                self.outstanding_tasks.decrement();
                self.message_queue.push(
                    ChatMessageEnvelope::ResponseMessageEnvelope(
                        ResponseMessage {
                            message: response,
                            sender: ad.agent,
                            recipient: ad.reply_to,
                        },
                    ),
                );
                proof {
                    lemma_tickets_settle(
                        pre.instantiated_agents@,
                        pre.active_dispatches@,
                        pre.next_ticket,
                        j as int,
                    );
                    lemma_inbox_total_nonneg(pre.instantiated_agents@);
                    let post = *self;
                    if post.ticket_active(ticket) {
                        let l = choose|l: int|
                            0 <= l < post.active_dispatches@.len() && (
                            #[trigger] post.active_dispatches@[l]).ticket == ticket;
                        assert(post.active_dispatches@[l].ticket != ticket);
                        assert(false);
                    }
                }
                true
            },
        }
    }

    /// What settling a ticket with an error does: the failure is handed
    /// back for reporting — carrying the recipient that was handling the
    /// work and the party awaiting the response — the ticket stops being
    /// active and the counter falls by one; nothing re-enters the queue and
    /// no other delivery is touched.  An unknown ticket settles nothing.
    pub open spec fn fail_post(
        pre: AgentRuntime,
        post: AgentRuntime,
        ticket: u64,
        error: RouterError,
        r: Option<DispatchFailure>,
    ) -> bool {
        &&& (r is Some) == pre.ticket_active(ticket)
        &&& (r is None ==> post == pre)
        &&& (r is Some ==> ({
            let j = active_index_of(pre.active_dispatches@, ticket);
            &&& r == Some(
                DispatchFailure {
                    recipient: pre.active_dispatches@[j].agent,
                    reply_to: pre.active_dispatches@[j].reply_to,
                    error,
                },
            )
            &&& post.active_dispatches@ == pre.active_dispatches@.remove(j)
            &&& post.outstanding_tasks.count == pre.outstanding_tasks.count - 1
            &&& post.message_queue@ == pre.message_queue@
            &&& post.instantiated_agents@ == pre.instantiated_agents@
            &&& post.subscription_manager == pre.subscription_manager
            &&& post.run_context == pre.run_context
            &&& post.tool_store@ == pre.tool_store@
            &&& post.next_ticket == pre.next_ticket
            &&& !post.ticket_active(ticket)
        }))
    }

    /// Settles a ticket with an error — a handler failure, a timeout the
    /// driver enforced, or a recipient gone mid-flight.  The failure is
    /// isolated to this one ticket; nothing else is touched.
    pub fn fail_delivery(&mut self, ticket: u64, error: RouterError) -> (r: Option<
        DispatchFailure,
    >)
        requires
            old(self).wf(),
        ensures
            final(self).wf(),
            AgentRuntime::fail_post(*old(self), *final(self), ticket, error, r),
    {
        let ghost pre = *old(self);
        match self.find_active_index(ticket) {
            None => None,
            Some(j) => {
                let ad = self.active_dispatches.remove(j);
                proof {
                    lemma_inbox_total_nonneg(pre.instantiated_agents@);
                }
                self.outstanding_tasks.decrement();
                proof {
                    lemma_tickets_settle(
                        pre.instantiated_agents@,
                        pre.active_dispatches@,
                        pre.next_ticket,
                        j as int,
                    );
                    lemma_inbox_total_nonneg(pre.instantiated_agents@);
                    let post = *self;
                    if post.ticket_active(ticket) {
                        let l = choose|l: int|
                            0 <= l < post.active_dispatches@.len() && (
                            #[trigger] post.active_dispatches@[l]).ticket == ticket;
                        assert(post.active_dispatches@[l].ticket != ticket);
                        assert(false);
                    }
                }
                Some(DispatchFailure { recipient: ad.agent, reply_to: ad.reply_to, error })
            },
        }
    }

    /// Whether dispatching a send to `recipient` would have to wait: the
    /// recipient is registered but its mailbox is full or the runtime is
    /// saturated.
    fn send_would_block(&self, recipient: &AgentId) -> (r: bool)
        requires
            self.registry_unique(),
            self.mailboxes_wf(),
        ensures
            r == (self.registered(*recipient) && ({
                let mb = self.instantiated_agents@[self.agent_index(*recipient)].1;
                ||| mb.inbox@.len() == mb.capacity
                ||| self.outstanding_tasks.count == i64::MAX
                ||| self.next_ticket == u64::MAX
            })),
    {
        match self.find_agent_index(recipient) {
            None => false,
            Some(i) => {
                proof {
                    assert(self.instantiated_agents@[i as int].1.wf());
                }
                let full = !self.instantiated_agents[i].1.has_space();
                full || self.outstanding_tasks.value() == i64::MAX || self.next_ticket == u64::MAX
            },
        }
    }

    /// One dispatch-loop step.  A cancelled loop drops what is still
    /// queued without awaiting in-flight work.  Otherwise the envelope at
    /// the front of the queue is taken and handled by its shape: a send is
    /// placed in its recipient's mailbox (or left at the front while the
    /// recipient's mailbox is full), a publish fans out to every resolved
    /// subscriber, and a response reaches whoever is waiting or is
    /// discarded.
    pub fn process_next(&mut self) -> (r: StepOutcome)
        requires
            old(self).wf(),
        ensures
            final(self).wf(),
            old(self).run_context.run_state == RunState::Cancelled ==> ({
                let pre = *old(self);
                let post = *final(self);
                &&& (r matches StepOutcome::Aborted { dropped } && dropped
                    == pre.message_queue@.len())
                &&& post.message_queue@ == Seq::<ChatMessageEnvelope>::empty()
                &&& post.instantiated_agents@ == pre.instantiated_agents@
                &&& post.outstanding_tasks == pre.outstanding_tasks
                &&& post.subscription_manager == pre.subscription_manager
                &&& post.run_context == pre.run_context
                &&& post.active_dispatches@ == pre.active_dispatches@
                &&& post.next_ticket == pre.next_ticket
            }),
            old(self).run_context.run_state != RunState::Cancelled && old(
                self,
            ).message_queue@.len() == 0 ==> r == StepOutcome::Idle && *final(self) == *old(self),
            old(self).run_context.run_state != RunState::Cancelled && old(
                self,
            ).message_queue@.len() > 0 ==> ({
                let pre = *old(self);
                let post = *final(self);
                let head = pre.message_queue@[0];
                &&& (head matches ChatMessageEnvelope::SendMessageEnvelope(sm) ==> ({
                    &&& AgentRuntime::send_post(pre, post, sm, r)
                    &&& (r is Busy ==> post.message_queue@ == pre.message_queue@)
                    &&& (!(r is Busy) ==> post.message_queue@ == pre.message_queue@.drop_first())
                }))
                &&& (head matches ChatMessageEnvelope::PublishMessageEnvelope(pm) ==> ({
                    &&& AgentRuntime::publish_post(pre, post, pm, r)
                    &&& post.message_queue@ == pre.message_queue@.drop_first()
                }))
                &&& (head matches ChatMessageEnvelope::ResponseMessageEnvelope(rm) ==> ({
                    &&& (rm.recipient is Some ==> r == (StepOutcome::Responded { response: rm }))
                    &&& (rm.recipient is None ==> r == StepOutcome::Discarded)
                    &&& post.message_queue@ == pre.message_queue@.drop_first()
                    &&& post.instantiated_agents@ == pre.instantiated_agents@
                    &&& post.outstanding_tasks == pre.outstanding_tasks
                    &&& post.subscription_manager == pre.subscription_manager
                    &&& post.run_context == pre.run_context
                    &&& post.active_dispatches@ == pre.active_dispatches@
                    &&& post.next_ticket == pre.next_ticket
                }))
            }),
    {
        let cancelled = match self.run_context.run_state {
            RunState::Cancelled => true,
            _ => false,
        };
        if cancelled {
            let dropped = self.message_queue.len();
            self.message_queue.clear();
            return StepOutcome::Aborted { dropped };
        }
        if self.message_queue.len() == 0 {
            return StepOutcome::Idle;
        }
        let block = match &self.message_queue[0] {
            ChatMessageEnvelope::SendMessageEnvelope(sm) => self.send_would_block(&sm.recipient),
            _ => false,
        };
        if block {
            return StepOutcome::Busy;
        }
        let envelope = self.message_queue.remove(0);
        match envelope {
            ChatMessageEnvelope::SendMessageEnvelope(sm) => self.process_send(sm),
            ChatMessageEnvelope::PublishMessageEnvelope(pm) => self.process_publish(pm),
            ChatMessageEnvelope::ResponseMessageEnvelope(rm) => self.process_response(rm),
        }
    }
}

/// Exactly-one correlation, completion side: settling a ticket with a
/// response appends exactly one response envelope, addressed back to the
/// party recorded for the ticket, and removes the ticket — so settling the
/// same ticket a second time finds nothing and changes nothing.
pub proof fn lemma_exactly_one_completion(
    pre: AgentRuntime,
    mid: AgentRuntime,
    post: AgentRuntime,
    ticket: u64,
    resp1: ChatMessage,
    resp2: ChatMessage,
    r2: bool,
)
    requires
        AgentRuntime::complete_post(pre, mid, ticket, resp1, true),
        AgentRuntime::complete_post(mid, post, ticket, resp2, r2),
    ensures
        r2 == false,
        post == mid,
        ({
            let j = active_index_of(pre.active_dispatches@, ticket);
            mid.message_queue@ == pre.message_queue@.push(
                ChatMessageEnvelope::ResponseMessageEnvelope(
                    ResponseMessage {
                        message: resp1,
                        sender: pre.active_dispatches@[j].agent,
                        recipient: pre.active_dispatches@[j].reply_to,
                    },
                ),
            )
        }),
{
}

/// Exactly-one correlation, error side: a ticket settled with an error —
/// timeout or recipient gone included — yields exactly one reported
/// failure, and the same ticket can never be settled again, with an error
/// or with a response.
pub proof fn lemma_exactly_one_failure(
    pre: AgentRuntime,
    mid: AgentRuntime,
    post: AgentRuntime,
    ticket: u64,
    error: RouterError,
    f: Option<DispatchFailure>,
    resp: ChatMessage,
    r2: bool,
)
    requires
        AgentRuntime::fail_post(pre, mid, ticket, error, f),
        f is Some,
        AgentRuntime::complete_post(mid, post, ticket, resp, r2),
    ensures
        r2 == false,
        post == mid,
        mid.message_queue@ == pre.message_queue@,
{
}

/// Fan-out independence: settling one delivery with an error touches only
/// that ticket — every delivery still waiting in any mailbox is untouched,
/// and every other dispatch being handled stays active.
pub proof fn lemma_failure_isolated(
    pre: AgentRuntime,
    post: AgentRuntime,
    ticket: u64,
    error: RouterError,
    f: Option<DispatchFailure>,
)
    requires
        pre.wf(),
        AgentRuntime::fail_post(pre, post, ticket, error, f),
        f is Some,
    ensures
        post.instantiated_agents@ == pre.instantiated_agents@,
        forall|l: int|
            0 <= l < pre.active_dispatches@.len() && (#[trigger] pre.active_dispatches@[l]).ticket
                != ticket ==> post.active_dispatches@.contains(pre.active_dispatches@[l]),
{
    let j = active_index_of(pre.active_dispatches@, ticket);
    assert(pre.active_dispatches@[j].ticket == ticket);
    assert forall|l: int|
        0 <= l < pre.active_dispatches@.len() && (#[trigger] pre.active_dispatches@[l]).ticket
            != ticket implies post.active_dispatches@.contains(pre.active_dispatches@[l]) by {
        let o = if l < j {
            l
        } else {
            l - 1
        };
        assert(l != j);
        assert(post.active_dispatches@[o] == pre.active_dispatches@[l]);
    }
}

/// Idle detection: with the runtime well-formed, the outstanding-work
/// counter reads exactly zero precisely when every mailbox is empty and no
/// delivery is being handled; together with an empty envelope queue that is
/// the runtime's idle state.
pub proof fn lemma_idle_detection(rt: AgentRuntime)
    requires
        rt.wf(),
    ensures
        (rt.outstanding_tasks.count == 0) <==> ((forall|k: int|
            0 <= k < rt.instantiated_agents@.len() ==> (
            #[trigger] rt.instantiated_agents@[k]).1.inbox@.len() == 0)
            && rt.active_dispatches@.len() == 0),
        rt.idle_spec() <==> (rt.message_queue@.len() == 0 && (forall|k: int|
            0 <= k < rt.instantiated_agents@.len() ==> (
            #[trigger] rt.instantiated_agents@[k]).1.inbox@.len() == 0)
            && rt.active_dispatches@.len() == 0),
{
    lemma_inbox_total_nonneg(rt.instantiated_agents@);
    if rt.outstanding_tasks.count == 0 {
        lemma_inbox_total_zero(rt.instantiated_agents@);
    }
    if (forall|k: int|
        0 <= k < rt.instantiated_agents@.len() ==> (
        #[trigger] rt.instantiated_agents@[k]).1.inbox@.len() == 0)
        && rt.active_dispatches@.len() == 0 {
        lemma_inbox_total_empty(rt.instantiated_agents@);
    }
}

/// All mailboxes empty means a zero total.
pub proof fn lemma_inbox_total_empty(agents: Seq<(AgentId, Mailbox)>)
    requires
        forall|k: int| 0 <= k < agents.len() ==> (#[trigger] agents[k]).1.inbox@.len() == 0,
    ensures
        inbox_total(agents) == 0,
    decreases agents.len(),
{
    if agents.len() > 0 {
        assert(agents.drop_last() =~= agents.subrange(0, agents.len() - 1));
        assert forall|k: int|
            0 <= k < agents.drop_last().len() implies (
        #[trigger] agents.drop_last()[k]).1.inbox@.len() == 0 by {
            assert(agents.drop_last()[k] == agents[k]);
        }
        lemma_inbox_total_empty(agents.drop_last());
    }
}

} // verus!
