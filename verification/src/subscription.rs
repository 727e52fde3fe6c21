//! The subscription manager: it owns the mapping from topic to subscriber
//! set and resolves it lazily, caching each topic's subscriber list the
//! first time the topic is seen and invalidating the whole cache whenever a
//! subscription is added or removed.
//!
//! Matching is exact: a subscription matches a topic iff its stored topic
//! pattern equals the topic.  When several subscriptions match, recipients
//! come in registration order with duplicate agents collapsed to one.

use vstd::prelude::*;
use crate::ids::{AgentId, SubscriptionId, TopicId};

verus! {

/// One subscription registration: a topic pattern matched exactly, the
/// target agent, and the handle under which the registration can be removed.
#[derive(Clone, Copy, PartialEq, Eq, Structural, Hash, Debug)]
pub struct Subscription {
    pub id: TopicId,
    pub agent_id: AgentId,
    pub subscription_id: SubscriptionId,
}

impl Subscription {
    /// Whether this subscription matches the topic (exact-match semantics).
    pub fn is_match(&self, topic_id: &TopicId) -> (r: bool)
        ensures
            r == (self.id == *topic_id),
    {
        self.id.id == topic_id.id
    }

    /// The agent this subscription delivers the topic's messages to.
    pub fn map_to_agent(&self, topic_id: &TopicId) -> (r: AgentId)
        ensures
            r == self.agent_id,
    {
        self.agent_id
    }
}

/// The agents subscribed to `topic` among `subs`: registration order, with
/// a duplicate agent collapsed to its first occurrence.
pub open spec fn resolve_spec(subs: Seq<Subscription>, topic: TopicId) -> Seq<AgentId>
    decreases subs.len(),
{
    if subs.len() == 0 {
        Seq::empty()
    } else {
        let prefix = resolve_spec(subs.drop_last(), topic);
        let s = subs.last();
        if s.id == topic && !prefix.contains(s.agent_id) {
            prefix.push(s.agent_id)
        } else {
            prefix
        }
    }
}

/// A resolved recipient list never repeats an agent.
pub proof fn lemma_resolve_spec_no_dups(subs: Seq<Subscription>, topic: TopicId)
    ensures
        forall|i: int, j: int|
            0 <= i < j < resolve_spec(subs, topic).len() ==> resolve_spec(subs, topic)[i]
                != resolve_spec(subs, topic)[j],
    decreases subs.len(),
{
    if subs.len() > 0 {
        lemma_resolve_spec_no_dups(subs.drop_last(), topic);
        let prefix = resolve_spec(subs.drop_last(), topic);
        let r = resolve_spec(subs, topic);
        let s = subs.last();
        if s.id == topic && !prefix.contains(s.agent_id) {
            assert forall|i: int, j: int| 0 <= i < j < r.len() implies r[i] != r[j] by {
                if j < r.len() - 1 {
                    assert(r[i] == prefix[i] && r[j] == prefix[j]);
                } else {
                    assert(r[j] == s.agent_id);
                    assert(r[i] == prefix[i]);
                    assert(prefix.contains(prefix[i]));
                }
            }
        }
    }
}

/// A subscription appended for `topic` puts its agent in the resolved list.
pub proof fn lemma_resolve_spec_push(subs: Seq<Subscription>, topic: TopicId, sub: Subscription)
    requires
        sub.id == topic,
    ensures
        resolve_spec(subs.push(sub), topic).contains(sub.agent_id),
{
    let whole = subs.push(sub);
    assert(whole.drop_last() =~= subs);
    assert(whole.last() == sub);
    let prefix = resolve_spec(subs, topic);
    if prefix.contains(sub.agent_id) {
        let i = choose|i: int| 0 <= i < prefix.len() && prefix[i] == sub.agent_id;
        assert(resolve_spec(whole, topic)[i] == sub.agent_id);
    } else {
        let r = resolve_spec(whole, topic);
        assert(r.last() == sub.agent_id);
    }
}

/// `subs` without every subscription registered under `id`.
pub open spec fn remove_spec(subs: Seq<Subscription>, id: SubscriptionId) -> Seq<Subscription>
    decreases subs.len(),
{
    if subs.len() == 0 {
        Seq::empty()
    } else {
        let prefix = remove_spec(subs.drop_last(), id);
        if subs.last().subscription_id == id {
            prefix
        } else {
            prefix.push(subs.last())
        }
    }
}

/// Owns the subscription set, the set of topics already resolved, and the
/// cached recipient list of each seen topic.
#[derive(Debug)]
pub struct SubscriptionManager {
    pub subscriptions: Vec<Subscription>,
    pub seen_topics: Vec<TopicId>,
    pub subscribed_recipients: Vec<(TopicId, Vec<AgentId>)>,
}

impl SubscriptionManager {
    /// Cache coherence: seen topics and cache entries line up, and every
    /// cached list is exactly what resolving against the current
    /// subscription set gives.
    pub open spec fn wf(&self) -> bool {
        &&& self.subscribed_recipients@.len() == self.seen_topics@.len()
        &&& forall|k: int|
            0 <= k < self.seen_topics@.len() ==> (#[trigger] self.subscribed_recipients@[k]).0
                == self.seen_topics@[k] && self.subscribed_recipients@[k].1@ == resolve_spec(
                self.subscriptions@,
                self.seen_topics@[k],
            )
    }

    /// An empty manager: no subscriptions, nothing seen, nothing cached.
    pub fn new() -> (r: SubscriptionManager)
        ensures
            r.subscriptions@ == Seq::<Subscription>::empty(),
            r.seen_topics@ == Seq::<TopicId>::empty(),
            r.subscribed_recipients@ == Seq::<(TopicId, Vec<AgentId>)>::empty(),
            r.wf(),
    {
        SubscriptionManager {
            subscriptions: Vec::new(),
            seen_topics: Vec::new(),
            subscribed_recipients: Vec::new(),
        }
    }

    /// Inserts a subscription and invalidates the whole resolution cache.
    pub fn add_subscription(&mut self, subscription: Subscription)
        ensures
            final(self).subscriptions@ == old(self).subscriptions@.push(subscription),
            final(self).seen_topics@ == Seq::<TopicId>::empty(),
            final(self).subscribed_recipients@ == Seq::<(TopicId, Vec<AgentId>)>::empty(),
            final(self).wf(),
    {
        self.subscriptions.push(subscription);
        self.seen_topics.clear();
        self.subscribed_recipients.clear();
    }

    /// Removes every subscription registered under `id` — other
    /// subscriptions of the same topic stay — and invalidates the cache.
    pub fn remove_subscription(&mut self, id: SubscriptionId)
        ensures
            final(self).subscriptions@ == remove_spec(old(self).subscriptions@, id),
            final(self).seen_topics@ == Seq::<TopicId>::empty(),
            final(self).subscribed_recipients@ == Seq::<(TopicId, Vec<AgentId>)>::empty(),
            final(self).wf(),
    {
        let mut kept: Vec<Subscription> = Vec::new();
        let mut i: usize = 0;
        while i < self.subscriptions.len()
            invariant
                i <= self.subscriptions@.len(),
                kept@ == remove_spec(self.subscriptions@.subrange(0, i as int), id),
            decreases self.subscriptions@.len() - i,
        {
            proof {
                assert(self.subscriptions@.subrange(0, i + 1).drop_last() =~= self
                    .subscriptions@
                    .subrange(0, i as int));
                assert(self.subscriptions@.subrange(0, i + 1).last() == self.subscriptions@[
                    i as int]);
            }
            let s = self.subscriptions[i];
            if s.subscription_id.id != id.id {
                kept.push(s);
            }
            i = i + 1;
        }
        proof {
            assert(self.subscriptions@.subrange(0, self.subscriptions@.len() as int) =~= self
                .subscriptions@);
        }
        self.subscriptions = kept;
        self.seen_topics.clear();
        self.subscribed_recipients.clear();
    }

    /// Whether `topic` has been resolved since the cache was last cleared.
    pub fn topic_seen(&self, topic: &TopicId) -> (r: bool)
        ensures
            r == self.seen_topics@.contains(*topic),
    {
        let mut i: usize = 0;
        while i < self.seen_topics.len()
            invariant
                i <= self.seen_topics@.len(),
                forall|k: int| 0 <= k < i ==> self.seen_topics@[k] != *topic,
            decreases self.seen_topics@.len() - i,
        {
            if self.seen_topics[i].id == topic.id {
                return true;
            }
            i = i + 1;
        }
        false
    }

    /// Scans the subscription set for `topic_id`'s matches, records the
    /// topic as seen and caches the resolved list.
    pub fn build_for_new_topic(&mut self, topic_id: TopicId)
        requires
            old(self).wf(),
            !old(self).seen_topics@.contains(topic_id),
        ensures
            final(self).wf(),
            final(self).subscriptions@ == old(self).subscriptions@,
            final(self).seen_topics@ == old(self).seen_topics@.push(topic_id),
            final(self).subscribed_recipients@.len() == old(self).subscribed_recipients@.len() + 1,
            forall|k: int|
                0 <= k < old(self).subscribed_recipients@.len()
                    ==> (#[trigger] final(self).subscribed_recipients@[k]) == old(
                    self,
                ).subscribed_recipients@[k],
    {
        let list = self.resolve_now(&topic_id);
        self.seen_topics.push(topic_id);
        self.subscribed_recipients.push((topic_id, list));
    }

    /// Resolves `topic_id` against the current subscription set, without
    /// touching the cache.
    fn resolve_now(&self, topic_id: &TopicId) -> (r: Vec<AgentId>)
        ensures
            r@ == resolve_spec(self.subscriptions@, *topic_id),
    {
        let mut list: Vec<AgentId> = Vec::new();
        let mut i: usize = 0;
        while i < self.subscriptions.len()
            invariant
                i <= self.subscriptions@.len(),
                list@ == resolve_spec(self.subscriptions@.subrange(0, i as int), *topic_id),
            decreases self.subscriptions@.len() - i,
        {
            proof {
                assert(self.subscriptions@.subrange(0, i + 1).drop_last() =~= self
                    .subscriptions@
                    .subrange(0, i as int));
                assert(self.subscriptions@.subrange(0, i + 1).last() == self.subscriptions@[
                    i as int]);
            }
            let s = &self.subscriptions[i];
            if s.is_match(topic_id) {
                let agent = s.map_to_agent(topic_id);
                if !contains_agent(&list, agent) {
                    list.push(agent);
                }
            }
            i = i + 1;
        }
        proof {
            assert(self.subscriptions@.subrange(0, self.subscriptions@.len() as int) =~= self
                .subscriptions@);
        }
        list
    }

    /// The ensures of one `get_subscribed_recipients` call, as a relation
    /// between the state before, the state after, and the returned list.
    pub open spec fn resolve_post(
        pre: SubscriptionManager,
        post: SubscriptionManager,
        topic: TopicId,
        r: Seq<AgentId>,
    ) -> bool {
        &&& post.wf()
        &&& post.subscriptions@ == pre.subscriptions@
        &&& r == resolve_spec(pre.subscriptions@, topic)
        &&& post.seen_topics@.contains(topic)
        &&& (pre.seen_topics@.contains(topic) ==> post.seen_topics@ == pre.seen_topics@
            && post.subscribed_recipients@ == pre.subscribed_recipients@)
        &&& (!pre.seen_topics@.contains(topic) ==> post.seen_topics@ == pre.seen_topics@.push(
            topic,
        ))
    }

    /// The subscribers of `topic_id`: the cached list if the topic was seen,
    /// otherwise the list resolved now and cached from here on.
    pub fn get_subscribed_recipients(&mut self, topic_id: &TopicId) -> (r: Vec<AgentId>)
        requires
            old(self).wf(),
        ensures
            SubscriptionManager::resolve_post(*old(self), *final(self), *topic_id, r@),
    {
        let mut i: usize = 0;
        while i < self.seen_topics.len()
            invariant
                i <= self.seen_topics@.len(),
                forall|k: int| 0 <= k < i ==> self.seen_topics@[k] != *topic_id,
                self.wf(),
            decreases self.seen_topics@.len() - i,
        {
            if self.seen_topics[i].id == topic_id.id {
                proof {
                    assert(self.seen_topics@.contains(*topic_id));
                }
                return copy_agents(&self.subscribed_recipients[i].1);
            }
            i = i + 1;
        }
        proof {
            assert(!self.seen_topics@.contains(*topic_id));
        }
        let list = self.resolve_now(topic_id);
        let out = copy_agents(&list);
        self.seen_topics.push(*topic_id);
        self.subscribed_recipients.push((*topic_id, list));
        proof {
            assert(final(self).seen_topics@.last() == *topic_id);
            assert(final(self).seen_topics@.contains(*topic_id));
        }
        out
    }
}

/// Whether the list holds the agent.
pub fn contains_agent(v: &Vec<AgentId>, a: AgentId) -> (r: bool)
    ensures
        r == v@.contains(a),
{
    let mut i: usize = 0;
    while i < v.len()
        invariant
            i <= v@.len(),
            forall|k: int| 0 <= k < i ==> v@[k] != a,
        decreases v@.len() - i,
    {
        if v[i].id == a.id {
            return true;
        }
        i = i + 1;
    }
    false
}

/// An element-for-element copy of an agent list.
pub fn copy_agents(v: &Vec<AgentId>) -> (r: Vec<AgentId>)
    ensures
        r@ == v@,
{
    let mut r: Vec<AgentId> = Vec::new();
    let mut i: usize = 0;
    while i < v.len()
        invariant
            i <= v@.len(),
            r@ == v@.subrange(0, i as int),
        decreases v@.len() - i,
    {
        r.push(v[i]);
        proof {
            assert(r@ =~= v@.subrange(0, i + 1));
        }
        i = i + 1;
    }
    proof {
        assert(v@.subrange(0, v@.len() as int) =~= v@);
    }
    r
}

/// Idempotent topic resolution: two resolutions of the same topic with no
/// intervening subscription change return the same list both times, and
/// that list never repeats an agent.
pub proof fn lemma_resolve_idempotent(
    m0: SubscriptionManager,
    m1: SubscriptionManager,
    m2: SubscriptionManager,
    topic: TopicId,
    r1: Seq<AgentId>,
    r2: Seq<AgentId>,
)
    requires
        SubscriptionManager::resolve_post(m0, m1, topic, r1),
        SubscriptionManager::resolve_post(m1, m2, topic, r2),
    ensures
        r2 == r1,
        forall|i: int, j: int| 0 <= i < j < r1.len() ==> r1[i] != r1[j],
{
    lemma_resolve_spec_no_dups(m0.subscriptions@, topic);
}

/// Cache invalidation: adding a subscription for a topic after that topic
/// was already resolved makes the next resolution deliver to the new
/// subscriber as well.
pub proof fn lemma_add_subscription_invalidates(
    m0: SubscriptionManager,
    m1: SubscriptionManager,
    m2: SubscriptionManager,
    sub: Subscription,
    topic: TopicId,
    r: Seq<AgentId>,
)
    requires
        m1.subscriptions@ == m0.subscriptions@.push(sub),
        sub.id == topic,
        SubscriptionManager::resolve_post(m1, m2, topic, r),
    ensures
        r.contains(sub.agent_id),
{
    lemma_resolve_spec_push(m0.subscriptions@, topic, sub);
}

} // verus!
