//! The gateway engine: the protocol state machine.
//!
//! One gateway owns one connection. Its state is the agent identity,
//! the set of local agents it answers discovery for, the subscription
//! set, and the inbox of received messages not yet consumed. Every
//! transition is a synchronous function from the state and one input
//! (an inbound frame, a receive filter, an interrupt event) to the new
//! state and the outbound work; the surrounding tasks perform the I/O
//! and feed these functions.

use vstd::prelude::*;

use crate::frame::clone_strings;
use crate::frame::strings_view;
use crate::frame::Frame;
use crate::frame::FrameView;
use crate::frame::RequestFrame;
use crate::frame::RequestFrameView;
use crate::frame::ResponseFrame;
use crate::frame::ResponseFrameView;
use crate::json::JsonValue;
use crate::message::fresh_uuid;
use crate::message::Message;
use crate::message::MessageView;
use crate::message::PayloadView;

verus! {

/// The event a blocked receiver wakes on: a new message is available, or
/// the wait is cancelled.
#[allow(non_camel_case_types)]
#[derive(Clone, Copy, Debug, PartialEq, Eq, Structural)]
pub enum GatewayReceiveInterrupt {
    MESSAGE,
    CANCEL,
}

/// The engine state of one gateway.
#[derive(Debug)]
pub struct GatewayCore {
    agent_id: String,
    agents: Vec<String>,
    subscriptions: Vec<String>,
    inbox: Vec<Message>,
}

/// The mathematical model of a gateway's state.
#[verifier::ext_equal]
pub struct GatewayCoreView {
    pub agent_id: Seq<char>,
    pub agents: Seq<Seq<char>>,
    pub subscriptions: Seq<Seq<char>>,
    pub inbox: Seq<MessageView>,
}

impl View for GatewayCore {
    type V = GatewayCoreView;

    closed spec fn view(&self) -> GatewayCoreView {
        GatewayCoreView {
            agent_id: self.agent_id@,
            agents: strings_view(self.agents@),
            subscriptions: strings_view(self.subscriptions@),
            inbox: msgs_view(self.inbox@),
        }
    }
}

impl GatewayCoreView {
    /// Well-formed: the agent identity is never empty, and every queued
    /// message is well-formed.
    pub open spec fn wf(self) -> bool {
        &&& self.agent_id.len() > 0
        &&& forall|i: int| 0 <= i < self.inbox.len() ==> (#[trigger] self.inbox[i]).wf()
    }
}

/// The models of a vector of messages.
pub open spec fn msgs_view(v: Seq<Message>) -> Seq<MessageView> {
    Seq::new(v.len(), |i: int| v[i]@)
}

/// Derives the notification topic of an agent: `#<agent id>__ntf`.
pub open spec fn spec_agent_topic(aid: Seq<char>) -> Seq<char> {
    "#"@ + aid + "__ntf"@
}

/// Builds the notification topic of an agent.
pub fn agent_topic(aid: &str) -> (r: String)
    ensures
        r@ == spec_agent_topic(aid@),
{
    let mut topic = String::from_str("#");
    topic.append(aid);
    topic.append("__ntf");
    topic
}

/// Whether a vector of strings holds the given text.
pub fn contains_str(v: &Vec<String>, x: &str) -> (r: bool)
    ensures
        r == strings_view(v@).contains(x@),
{
    let needle = String::from_str(x);
    let mut i: usize = 0;
    while i < v.len()
        invariant
            i <= v@.len(),
            needle@ == x@,
            forall|j: int| 0 <= j < i ==> strings_view(v@)[j] != x@,
        decreases v@.len() - i,
    {
        if v[i] == needle {
            proof {
                assert(strings_view(v@)[i as int] == x@);
            }
            return true;
        }
        i += 1;
    }
    proof {
        assert(forall|j: int| 0 <= j < strings_view(v@).len() ==> strings_view(v@)[j] != x@);
    }
    false
}

/// The identifiers left after removing every occurrence of one value.
pub open spec fn spec_without(s: Seq<Seq<char>>, x: Seq<char>) -> Seq<Seq<char>>
    decreases s.len(),
{
    if s.len() == 0 {
        s
    } else if s[0] == x {
        spec_without(s.drop_first(), x)
    } else {
        seq![s[0]] + spec_without(s.drop_first(), x)
    }
}

/// A step of removal restricted to a suffix.
pub proof fn lemma_without_skip(s: Seq<Seq<char>>, x: Seq<char>, i: int)
    requires
        0 <= i < s.len(),
    ensures
        s[i] == x ==> spec_without(s.skip(i), x) == spec_without(s.skip(i + 1), x),
        s[i] != x ==> spec_without(s.skip(i), x) == seq![s[i]] + spec_without(s.skip(i + 1), x),
{
    assert(s.skip(i).drop_first() =~= s.skip(i + 1));
    assert(s.skip(i)[0] == s[i]);
}

/// Removal takes out exactly the occurrences of the value: what is left
/// is every other element, in order.
pub proof fn lemma_without_membership(s: Seq<Seq<char>>, x: Seq<char>, y: Seq<char>)
    ensures
        spec_without(s, x).contains(y) == (y != x && s.contains(y)),
    decreases s.len(),
{
    if s.len() == 0 {
    } else {
        lemma_without_membership(s.drop_first(), x, y);
        let rest = spec_without(s.drop_first(), x);
        if s[0] == x {
            if y != x && s.contains(y) {
                let w = choose|w: int| 0 <= w < s.len() && s[w] == y;
                assert(s.drop_first()[w - 1] == y);
            }
        } else {
            assert(spec_without(s, x)[0] == s[0]);
            if y != x && s.contains(y) {
                let w = choose|w: int| 0 <= w < s.len() && s[w] == y;
                if w > 0 {
                    assert(s.drop_first()[w - 1] == y);
                    let u = choose|u: int| 0 <= u < rest.len() && rest[u] == y;
                    assert(spec_without(s, x)[u + 1] == y);
                }
            }
            if spec_without(s, x).contains(y) {
                let u = choose|u: int| 0 <= u < spec_without(s, x).len() && spec_without(s, x)[u]
                    == y;
                if u == 0 {
                    assert(s[0] == y);
                } else {
                    assert(rest[u - 1] == y);
                    assert(y != x && s.drop_first().contains(y));
                    let w = choose|w: int| 0 <= w < s.drop_first().len() && s.drop_first()[w] == y;
                    assert(s[w + 1] == y);
                }
            }
        }
    }
}

/// Removes every occurrence of one value from a vector of strings.
fn remove_all(v: &mut Vec<String>, x: &str)
    ensures
        strings_view(final(v)@) == spec_without(strings_view(old(v)@), x@),
{
    let ghost sv = strings_view(old(v)@);
    let needle = String::from_str(x);
    let mut out: Vec<String> = Vec::new();
    let mut i: usize = 0;
    proof {
        assert(sv.skip(0) =~= sv);
        assert(strings_view(out@) =~= Seq::<Seq<char>>::empty());
    }
    while i < v.len()
        invariant
            i <= v@.len(),
            needle@ == x@,
            *v == *old(v),
            sv == strings_view(v@),
            sv.len() == v@.len(),
            strings_view(out@) + spec_without(sv.skip(i as int), x@) == spec_without(sv, x@),
        decreases v@.len() - i,
    {
        proof {
            lemma_without_skip(sv, x@, i as int);
        }
        let ghost pre = out@;
        if !(v[i] == needle) {
            out.push(v[i].clone());
            proof {
                assert(strings_view(out@) =~= strings_view(pre) + seq![sv[i as int]]);
                assert(strings_view(pre) + spec_without(sv.skip(i as int), x@)
                    =~= strings_view(out@) + spec_without(sv.skip(i as int + 1), x@));
            }
        }
        i += 1;
    }
    proof {
        assert(sv.skip(sv.len() as int) =~= Seq::<Seq<char>>::empty());
        assert(strings_view(out@) + spec_without(sv.skip(sv.len() as int), x@)
            =~= strings_view(out@));
    }
    *v = out;
}

impl GatewayCore {
    /// Builds a fresh gateway core around a generated agent identity, and
    /// the two frames the engine announces itself with on connect: the
    /// liveness ping, then the first full-set subscription resync (the
    /// gateway subscribes to its own identity so that self-addressed
    /// notifications are received). The identity names the gateway's own
    /// agent, seeded into the local agent list.
    pub fn new() -> (r: (GatewayCore, Vec<Frame>))
        ensures
            ({
                let (core, frames) = r;
                &&& core@.wf()
                &&& core@.agent_id.len() == 43
                &&& core@.agent_id.subrange(0, 7) == "RustGW-"@
                &&& core@.agents == seq![core@.agent_id]
                &&& core@.subscriptions == seq![core@.agent_id]
                &&& core@.inbox == Seq::<MessageView>::empty()
                &&& frames@.len() == 2
                &&& frames@[0]@ == FrameView::Alive(true)
                &&& frames@[1]@ == FrameView::Request(
                    RequestFrameView::wantsMessagesFor { agentIDs: core@.subscriptions },
                )
            }),
    {
        let mut agent_id = String::from_str("RustGW-");
        let suffix = fresh_uuid();
        agent_id.append(suffix.as_str());
        proof {
            reveal_strlit("RustGW-");
            assert(agent_id@.len() == 43);
            assert(agent_id@.subrange(0, 7) =~= "RustGW-"@);
        }
        let mut agents: Vec<String> = Vec::new();
        agents.push(agent_id.clone());
        let mut subscriptions: Vec<String> = Vec::new();
        subscriptions.push(agent_id.clone());
        let core = GatewayCore { agent_id, agents, subscriptions, inbox: Vec::new() };
        let mut frames: Vec<Frame> = Vec::new();
        frames.push(Frame::Alive(true));
        frames.push(
            Frame::Request(
                RequestFrame::wantsMessagesFor { agentIDs: clone_strings(&core.subscriptions) },
            ),
        );
        proof {
            assert(core@.agents =~= seq![core@.agent_id]);
            assert(core@.subscriptions =~= seq![core@.agent_id]);
            assert(core@.inbox =~= Seq::<MessageView>::empty());
        }
        (core, frames)
    }

    /// The gateway's own agent identity.
    pub fn get_agent_id(&self) -> (r: String)
        ensures
            r@ == self@.agent_id,
    {
        self.agent_id.clone()
    }

    /// Whether an identifier is currently subscribed.
    pub fn is_subscribed(&self, aid: &str) -> (r: bool)
        ensures
            r == self@.subscriptions.contains(aid@),
    {
        contains_str(&self.subscriptions, aid)
    }

    /// Registers one more local agent for the discovery answers.
    pub fn add_agent(&mut self, aid: &str)
        ensures
            final(self)@ == (GatewayCoreView {
                agents: old(self)@.agents.push(aid@),
                ..old(self)@
            }),
            old(self)@.wf() ==> final(self)@.wf(),
    {
        self.agents.push(String::from_str(aid));
        proof {
            assert(final(self)@.agents =~= old(self)@.agents.push(aid@));
            assert(final(self)@ =~= GatewayCoreView {
                agents: old(self)@.agents.push(aid@),
                ..old(self)@
            });
        }
    }

    /// The full-set subscription resync frame: every mutation of the
    /// subscription set re-announces the complete current set, so the
    /// remote side replaces, never merges, its knowledge.
    pub fn update_watch(&self) -> (f: Frame)
        ensures
            f@ == FrameView::Request(
                RequestFrameView::wantsMessagesFor { agentIDs: self@.subscriptions },
            ),
    {
        Frame::Request(RequestFrame::wantsMessagesFor { agentIDs: clone_strings(&self.subscriptions) })
    }

    /// Adds one identifier to the subscription set and returns the
    /// resync frame announcing the complete new set.
    pub fn subscribe(&mut self, aid: &str) -> (f: Frame)
        ensures
            final(self)@ == (GatewayCoreView {
                subscriptions: old(self)@.subscriptions.push(aid@),
                ..old(self)@
            }),
            f@ == FrameView::Request(
                RequestFrameView::wantsMessagesFor { agentIDs: final(self)@.subscriptions },
            ),
            old(self)@.wf() ==> final(self)@.wf(),
    {
        self.subscriptions.push(String::from_str(aid));
        proof {
            assert(final(self)@.subscriptions =~= old(self)@.subscriptions.push(aid@));
            assert(final(self)@ =~= GatewayCoreView {
                subscriptions: old(self)@.subscriptions.push(aid@),
                ..old(self)@
            });
        }
        self.update_watch()
    }

    /// Removes an identifier from the subscription set (removing a
    /// non-member changes nothing) and returns the resync frame
    /// announcing the complete new set.
    pub fn unsubscribe(&mut self, aid: &str) -> (f: Frame)
        ensures
            final(self)@ == (GatewayCoreView {
                subscriptions: spec_without(old(self)@.subscriptions, aid@),
                ..old(self)@
            }),
            f@ == FrameView::Request(
                RequestFrameView::wantsMessagesFor { agentIDs: final(self)@.subscriptions },
            ),
            old(self)@.wf() ==> final(self)@.wf(),
    {
        remove_all(&mut self.subscriptions, aid);
        proof {
            assert(final(self)@ =~= GatewayCoreView {
                subscriptions: spec_without(old(self)@.subscriptions, aid@),
                ..old(self)@
            });
        }
        self.update_watch()
    }

    /// Subscribes to an agent's notification topic `#<agent id>__ntf`.
    pub fn subscribe_agent(&mut self, aid: &str) -> (f: Frame)
        ensures
            final(self)@ == (GatewayCoreView {
                subscriptions: old(self)@.subscriptions.push(spec_agent_topic(aid@)),
                ..old(self)@
            }),
            f@ == FrameView::Request(
                RequestFrameView::wantsMessagesFor { agentIDs: final(self)@.subscriptions },
            ),
            old(self)@.wf() ==> final(self)@.wf(),
    {
        let topic = agent_topic(aid);
        self.subscribe(topic.as_str())
    }

    /// Unsubscribes from an agent's notification topic, removing exactly
    /// that entry and announcing one full-set resync without it.
    pub fn unsubscribe_agent(&mut self, aid: &str) -> (f: Frame)
        ensures
            final(self)@ == (GatewayCoreView {
                subscriptions: spec_without(old(self)@.subscriptions, spec_agent_topic(aid@)),
                ..old(self)@
            }),
            f@ == FrameView::Request(
                RequestFrameView::wantsMessagesFor { agentIDs: final(self)@.subscriptions },
            ),
            old(self)@.wf() ==> final(self)@.wf(),
    {
        let topic = agent_topic(aid);
        self.unsubscribe(topic.as_str())
    }
}

/// Whether a message passes a receive filter: an absent class filter and
/// an absent correlation filter match everything; a class filter matches
/// the message's class against any of its entries; a correlation filter
/// matches the message's in-reply-to id exactly.
pub open spec fn msg_matches(
    m: MessageView,
    clazzes: Option<Seq<Seq<char>>>,
    id: Option<Seq<char>>,
) -> bool {
    &&& match clazzes {
        None => true,
        Some(cs) => cs.contains(m.clazz),
    }
    &&& match id {
        None => true,
        Some(i) => m.data.inReplyTo == Some(i),
    }
}

/// The model of an optional class filter.
pub open spec fn clazzes_view(c: Option<Vec<String>>) -> Option<Seq<Seq<char>>> {
    match c {
        Some(v) => Some(strings_view(v@)),
        None => None,
    }
}

/// The model of an optional correlation filter.
pub open spec fn id_view(c: Option<String>) -> Option<Seq<char>> {
    match c {
        Some(s) => Some(s@),
        None => None,
    }
}

/// Whether a message passes a receive filter.
pub fn message_matches(m: &Message, clazzes: &Option<Vec<String>>, id: &Option<String>) -> (r:
    bool)
    ensures
        r == msg_matches(m@, clazzes_view(*clazzes), id_view(*id)),
{
    let class_ok = match clazzes {
        None => true,
        Some(cs) => contains_str(cs, m.clazz.as_str()),
    };
    if !class_ok {
        return false;
    }
    match id {
        None => true,
        Some(want) => match &m.data.inReplyTo {
            Some(have) => *have == *want,
            None => false,
        },
    }
}

/// The position of the oldest message passing the filter, if any does.
pub open spec fn spec_first_match(
    inbox: Seq<MessageView>,
    clazzes: Option<Seq<Seq<char>>>,
    id: Option<Seq<char>>,
) -> Option<int>
    decreases inbox.len(),
{
    if inbox.len() == 0 {
        None
    } else if msg_matches(inbox[0], clazzes, id) {
        Some(0)
    } else {
        match spec_first_match(inbox.drop_first(), clazzes, id) {
            Some(i) => Some(i + 1),
            None => None,
        }
    }
}

/// Receive order within a filter is first-in first-out: the claimed
/// position holds the oldest message passing the filter, every younger
/// position fails the filter and stays queued, and when no position
/// passes, nothing is claimed.
pub proof fn lemma_first_match_is_fifo(
    inbox: Seq<MessageView>,
    clazzes: Option<Seq<Seq<char>>>,
    id: Option<Seq<char>>,
)
    ensures
        match spec_first_match(inbox, clazzes, id) {
            Some(i) => 0 <= i < inbox.len() && msg_matches(inbox[i], clazzes, id) && forall|
                j: int,
            | 0 <= j < i ==> !msg_matches(#[trigger] inbox[j], clazzes, id),
            None => forall|j: int|
                0 <= j < inbox.len() ==> !msg_matches(#[trigger] inbox[j], clazzes, id),
        },
    decreases inbox.len(),
{
    if inbox.len() > 0 {
        lemma_first_match_is_fifo(inbox.drop_first(), clazzes, id);
        if !msg_matches(inbox[0], clazzes, id) {
            match spec_first_match(inbox.drop_first(), clazzes, id) {
                Some(i) => {
                    assert(inbox[i + 1] == inbox.drop_first()[i]);
                    assert forall|j: int| 0 <= j < i + 1 implies !msg_matches(
                        #[trigger] inbox[j],
                        clazzes,
                        id,
                    ) by {
                        if j > 0 {
                            assert(inbox[j] == inbox.drop_first()[j - 1]);
                        }
                    }
                },
                None => {
                    assert forall|j: int| 0 <= j < inbox.len() implies !msg_matches(
                        #[trigger] inbox[j],
                        clazzes,
                        id,
                    ) by {
                        if j > 0 {
                            assert(inbox[j] == inbox.drop_first()[j - 1]);
                        }
                    }
                },
            }
        }
    }
}

/// A message passing the filter ahead of only non-passing ones is the
/// first match.
pub proof fn lemma_first_match_found(
    inbox: Seq<MessageView>,
    clazzes: Option<Seq<Seq<char>>>,
    id: Option<Seq<char>>,
    i: int,
)
    requires
        0 <= i < inbox.len(),
        msg_matches(inbox[i], clazzes, id),
        forall|j: int| 0 <= j < i ==> !msg_matches(#[trigger] inbox[j], clazzes, id),
    ensures
        spec_first_match(inbox, clazzes, id) == Some(i),
    decreases i,
{
    if i > 0 {
        lemma_first_match_found(inbox.drop_first(), clazzes, id, i - 1);
    }
}

/// When nothing passes the filter, there is no first match.
pub proof fn lemma_first_match_none(
    inbox: Seq<MessageView>,
    clazzes: Option<Seq<Seq<char>>>,
    id: Option<Seq<char>>,
)
    requires
        forall|j: int| 0 <= j < inbox.len() ==> !msg_matches(#[trigger] inbox[j], clazzes, id),
    ensures
        spec_first_match(inbox, clazzes, id) is None,
    decreases inbox.len(),
{
    if inbox.len() > 0 {
        lemma_first_match_none(inbox.drop_first(), clazzes, id);
    }
}

/// The position of the first cancel event in an event queue.
pub open spec fn spec_first_cancel(events: Seq<GatewayReceiveInterrupt>) -> Option<int>
    decreases events.len(),
{
    if events.len() == 0 {
        None
    } else if events[0] is CANCEL {
        Some(0)
    } else {
        match spec_first_cancel(events.drop_first()) {
            Some(i) => Some(i + 1),
            None => None,
        }
    }
}

/// A cancel event behind only message events is the first cancel.
pub proof fn lemma_first_cancel_found(events: Seq<GatewayReceiveInterrupt>, i: int)
    requires
        0 <= i < events.len(),
        events[i] is CANCEL,
        forall|j: int| 0 <= j < i ==> !((#[trigger] events[j]) is CANCEL),
    ensures
        spec_first_cancel(events) == Some(i),
    decreases i,
{
    if i > 0 {
        lemma_first_cancel_found(events.drop_first(), i - 1);
    }
}

/// With no cancel event there is no first cancel.
pub proof fn lemma_first_cancel_none(events: Seq<GatewayReceiveInterrupt>)
    requires
        forall|j: int| 0 <= j < events.len() ==> !((#[trigger] events[j]) is CANCEL),
    ensures
        spec_first_cancel(events) is None,
    decreases events.len(),
{
    if events.len() > 0 {
        lemma_first_cancel_none(events.drop_first());
    }
}

/// What one received message gives back to the engine's surroundings.
#[derive(Debug)]
pub enum RecvOutcome {
    Received(Message),
    Cancelled,
    Blocked,
}

/// What the dispatch of one inbound frame asks the surroundings to do:
/// nothing, send a reply frame back, publish a response to the pending
/// queries, or wake a blocked receiver because the inbox grew.
#[derive(Debug)]
pub enum Dispatch {
    Ignored,
    Reply(Frame),
    Publish(ResponseFrame),
    Enqueued,
}

impl GatewayCore {
    /// Claims the oldest message passing the filter out of the inbox:
    /// first-in first-out within the filter. Messages failing the filter
    /// are skipped, not discarded: an older non-matching message stays
    /// queued for a later receive with another filter.
    pub fn try_claim(&mut self, clazzes: &Option<Vec<String>>, id: &Option<String>) -> (r: Option<
        Message,
    >)
        ensures
            final(self)@.agent_id == old(self)@.agent_id,
            final(self)@.agents == old(self)@.agents,
            final(self)@.subscriptions == old(self)@.subscriptions,
            match spec_first_match(old(self)@.inbox, clazzes_view(*clazzes), id_view(*id)) {
                Some(i) => r matches Some(m) && m@ == old(self)@.inbox[i] && final(self)@.inbox
                    == old(self)@.inbox.remove(i),
                None => r is None && final(self)@.inbox == old(self)@.inbox,
            },
            old(self)@.wf() ==> final(self)@.wf(),
    {
        let ghost iv = old(self)@.inbox;
        let ghost cv = clazzes_view(*clazzes);
        let ghost idv = id_view(*id);
        let mut i: usize = 0;
        while i < self.inbox.len()
            invariant
                i <= self.inbox@.len(),
                *self == *old(self),
                iv == msgs_view(self.inbox@),
                iv.len() == self.inbox@.len(),
                cv == clazzes_view(*clazzes),
                idv == id_view(*id),
                forall|j: int| 0 <= j < i ==> !msg_matches(#[trigger] iv[j], cv, idv),
            decreases self.inbox@.len() - i,
        {
            if message_matches(&self.inbox[i], clazzes, id) {
                proof {
                    assert(iv[i as int] == self.inbox@[i as int]@);
                    lemma_first_match_found(iv, cv, idv, i as int);
                }
                let m = self.inbox.remove(i);
                proof {
                    assert(msgs_view(self.inbox@) =~= iv.remove(i as int));
                }
                return Some(m);
            }
            i += 1;
        }
        proof {
            lemma_first_match_none(iv, cv, idv);
        }
        None
    }

    /// Runs the receive loop against a queue of already-delivered wake
    /// events: claim the oldest matching message if one is queued; else
    /// consume events in order, returning empty-handed at the first
    /// cancel; with the events exhausted the receiver would stay
    /// blocked. Exactly the cancel events up to and including the one
    /// consumed leave the queue, so one cancel releases exactly one
    /// blocked receive.
    pub fn recv_with_events(
        &mut self,
        clazzes: &Option<Vec<String>>,
        id: &Option<String>,
        events: &mut Vec<GatewayReceiveInterrupt>,
    ) -> (r: RecvOutcome)
        ensures
            final(self)@.agent_id == old(self)@.agent_id,
            final(self)@.agents == old(self)@.agents,
            final(self)@.subscriptions == old(self)@.subscriptions,
            (match spec_first_match(old(self)@.inbox, clazzes_view(*clazzes), id_view(*id)) {
                Some(i) => {
                    &&& r matches RecvOutcome::Received(m)
                    &&& m@ == old(self)@.inbox[i]
                    &&& final(self)@.inbox == old(self)@.inbox.remove(i)
                    &&& final(events)@ == old(events)@
                },
                None => {
                    &&& final(self)@.inbox == old(self)@.inbox
                    &&& (match spec_first_cancel(old(events)@) {
                        Some(k) => r is Cancelled && final(events)@ == old(events)@.skip(k + 1),
                        None => {
                            &&& r is Blocked
                            &&& final(events)@ == Seq::<GatewayReceiveInterrupt>::empty()
                        },
                    })
                },
            }),
            old(self)@.wf() ==> final(self)@.wf(),
    {
        match self.try_claim(clazzes, id) {
            Some(m) => {
                return RecvOutcome::Received(m);
            },
            None => {},
        }
        let ghost evs = old(events)@;
        let evs_len_exec = events.len();
        proof {
            assert(evs.len() == evs_len_exec);
        }
        let mut consumed: usize = 0;
        proof {
            assert(evs.skip(0) =~= evs);
        }
        while events.len() > 0
            invariant
                evs == old(events)@,
                evs.len() <= usize::MAX,
                consumed <= evs.len(),
                events@ == evs.skip(consumed as int),
                events@.len() == evs.len() - consumed,
                forall|j: int| 0 <= j < consumed ==> !((#[trigger] evs[j]) is CANCEL),
                self@.inbox == old(self)@.inbox,
                self@.agent_id == old(self)@.agent_id,
                self@.agents == old(self)@.agents,
                self@.subscriptions == old(self)@.subscriptions,
                old(self)@.wf() ==> self@.wf(),
                spec_first_match(old(self)@.inbox, clazzes_view(*clazzes), id_view(*id))
                    is None,
            decreases events@.len(),
        {
            let e = events.remove(0);
            proof {
                assert(evs.skip(consumed as int)[0] == evs[consumed as int]);
                assert(evs.skip(consumed as int).remove(0) =~= evs.skip(consumed as int + 1));
            }
            match e {
                GatewayReceiveInterrupt::CANCEL => {
                    proof {
                        lemma_first_cancel_found(evs, consumed as int);
                        assert(spec_first_cancel(evs) == Some(consumed as int));
                        assert(events@ == evs.skip(consumed as int + 1));
                    }
                    return RecvOutcome::Cancelled;
                },
                GatewayReceiveInterrupt::MESSAGE => {
                    let again = self.try_claim(clazzes, id);
                    proof {
                        assert(again is None);
                    }
                },
            }
            consumed += 1;
        }
        proof {
            assert(evs.skip(consumed as int).len() == 0);
            assert(consumed == evs.len());
            lemma_first_cancel_none(evs);
            assert(events@ =~= Seq::<GatewayReceiveInterrupt>::empty());
        }
        RecvOutcome::Blocked
    }
}

impl GatewayCore {
    /// Answers one inbound request, acting as a trivial discovery server
    /// for the local agent list. Service discovery is deliberately
    /// stubbed: this client never advertises services, so
    /// `agentForService` answers nothing and `agentsForService` answers
    /// an empty list. A `send` request has its message's typed-array
    /// fields decoded and appended to the inbox (the surroundings then
    /// wake one blocked receiver); `wantsMessagesFor` is informational
    /// and ignored.
    pub fn process_request(&mut self, req: RequestFrame) -> (r: Option<ResponseFrame>)
        ensures
            final(self)@.agent_id == old(self)@.agent_id,
            final(self)@.agents == old(self)@.agents,
            final(self)@.subscriptions == old(self)@.subscriptions,
            (match req@ {
                RequestFrameView::send { message, .. } => final(self)@.inbox == old(
                    self,
                )@.inbox.push(message.decoded()),
                _ => final(self)@.inbox == old(self)@.inbox,
            }),
            (match req@ {
                RequestFrameView::agents { id } => {
                    &&& r matches Some(rsp)
                    &&& rsp@ == (ResponseFrameView::agents {
                        id,
                        agentIDs: old(self)@.agents,
                    })
                },
                RequestFrameView::containsAgent { id, agentID } => {
                    &&& r matches Some(rsp)
                    &&& rsp@ == (ResponseFrameView::containsAgent {
                        id,
                        answer: old(self)@.agents.contains(agentID),
                    })
                },
                RequestFrameView::services { id } => {
                    &&& r matches Some(rsp)
                    &&& rsp@ == (ResponseFrameView::services {
                        id,
                        services: Seq::<Seq<char>>::empty(),
                    })
                },
                RequestFrameView::agentForService { id, .. } => {
                    &&& r matches Some(rsp)
                    &&& rsp@ == (ResponseFrameView::agentForService { id, agentID: None })
                },
                RequestFrameView::agentsForService { id, .. } => {
                    &&& r matches Some(rsp)
                    &&& rsp@ == (ResponseFrameView::agentsForService {
                        id,
                        agentIDs: Seq::<Seq<char>>::empty(),
                    })
                },
                RequestFrameView::send { .. } => r is None,
                RequestFrameView::wantsMessagesFor { .. } => r is None,
            }),
            old(self)@.wf() && (req@ matches RequestFrameView::send { message, .. }
                ==> message.wf()) ==> final(self)@.wf(),
    {
        match req {
            RequestFrame::agents { id } => Some(
                ResponseFrame::agents { id, agentIDs: clone_strings(&self.agents) },
            ),
            RequestFrame::containsAgent { id, agentID } => {
                let answer = contains_str(&self.agents, agentID.as_str());
                Some(ResponseFrame::containsAgent { id, answer })
            },
            RequestFrame::services { id } => {
                let rsp = ResponseFrame::services { id, services: Vec::new() };
                proof {
                    assert(strings_view(Seq::<String>::empty()) =~= Seq::<Seq<char>>::empty());
                }
                Some(rsp)
            },
            RequestFrame::agentForService { id, .. } => Some(
                ResponseFrame::agentForService { id, agentID: None },
            ),
            RequestFrame::agentsForService { id, .. } => {
                let rsp = ResponseFrame::agentsForService { id, agentIDs: Vec::new() };
                proof {
                    assert(strings_view(Seq::<String>::empty()) =~= Seq::<Seq<char>>::empty());
                }
                Some(rsp)
            },
            RequestFrame::send { mut message, .. } => {
                let ghost mv = message@;
                message.decode_java_classes();
                proof {
                    assert(message@ =~= mv.decoded());
                    if mv.wf() {
                        crate::json::lemma_entries_view(Seq::<(String, JsonValue)>::empty());
                        assert(message@.wf());
                    }
                }
                self.inbox.push(message);
                proof {
                    assert(final(self)@.inbox =~= old(self)@.inbox.push(mv.decoded()));
                }
                None
            },
            RequestFrame::wantsMessagesFor { .. } => None,
        }
    }

    /// Dispatches one inbound frame, in arrival order: a liveness ping
    /// is ignored; a response is published to the pending queries (a
    /// response nobody awaits is then silently dropped); a request is
    /// answered locally, and a delivered message asks for one wake of a
    /// blocked receiver.
    pub fn handle_frame(&mut self, frame: Frame) -> (d: Dispatch)
        ensures
            final(self)@.agent_id == old(self)@.agent_id,
            final(self)@.agents == old(self)@.agents,
            final(self)@.subscriptions == old(self)@.subscriptions,
            (match frame@ {
                FrameView::Alive(_) => d is Ignored && final(self)@.inbox == old(self)@.inbox,
                FrameView::Response(rsp) => {
                    &&& d matches Dispatch::Publish(p)
                    &&& p@ == rsp
                    &&& final(self)@.inbox == old(self)@.inbox
                },
                FrameView::Request(req) => match req {
                    RequestFrameView::send { message, .. } => {
                        &&& d is Enqueued
                        &&& final(self)@.inbox == old(self)@.inbox.push(message.decoded())
                    },
                    RequestFrameView::wantsMessagesFor { .. } => {
                        &&& d is Ignored
                        &&& final(self)@.inbox == old(self)@.inbox
                    },
                    _ => {
                        &&& d matches Dispatch::Reply(f)
                        &&& f@ is Response
                        &&& final(self)@.inbox == old(self)@.inbox
                        &&& (match spec_process_response(req, old(self)@.agents) {
                            Some(rv) => f@ == FrameView::Response(rv),
                            None => false,
                        })
                    },
                },
            }),
            old(self)@.wf() && frame@.wf() ==> final(self)@.wf(),
    {
        match frame {
            Frame::Alive(_) => Dispatch::Ignored,
            Frame::Response(rsp) => Dispatch::Publish(rsp),
            Frame::Request(req) => {
                let is_send = match &req {
                    RequestFrame::send { .. } => true,
                    _ => false,
                };
                match self.process_request(req) {
                    Some(rsp) => Dispatch::Reply(Frame::Response(rsp)),
                    None => {
                        if is_send {
                            Dispatch::Enqueued
                        } else {
                            Dispatch::Ignored
                        }
                    },
                }
            },
        }
    }
}

/// The response the engine gives to one discovery request, as a function
/// of the request and the local agent list.
pub open spec fn spec_process_response(
    req: RequestFrameView,
    agents: Seq<Seq<char>>,
) -> Option<ResponseFrameView> {
    match req {
        RequestFrameView::agents { id } => Some(ResponseFrameView::agents { id, agentIDs: agents }),
        RequestFrameView::containsAgent { id, agentID } => Some(
            ResponseFrameView::containsAgent { id, answer: agents.contains(agentID) },
        ),
        RequestFrameView::services { id } => Some(
            ResponseFrameView::services { id, services: Seq::<Seq<char>>::empty() },
        ),
        RequestFrameView::agentForService { id, .. } => Some(
            ResponseFrameView::agentForService { id, agentID: None },
        ),
        RequestFrameView::agentsForService { id, .. } => Some(
            ResponseFrameView::agentsForService { id, agentIDs: Seq::<Seq<char>>::empty() },
        ),
        RequestFrameView::send { .. } => None,
        RequestFrameView::wantsMessagesFor { .. } => None,
    }
}

impl GatewayCore {
    /// Prepares and wraps one outbound message: the sender is filled with
    /// the gateway's identity when blank, the recipient is set to the
    /// target, the send timestamp is stamped, and the message goes out as
    /// a fire-and-forget relayed `send` request. Nothing is awaited.
    pub fn send(&self, to: &str, msg: Message, now: i64) -> (f: Frame)
        ensures
            f@ == FrameView::Request(
                RequestFrameView::send { message: spec_sent(msg@, self@, to@, now), relay: true },
            ),
            msg@.wf() ==> spec_sent(msg@, self@, to@, now).wf(),
    {
        let mut msg = msg;
        let ghost mv = msg@;
        if msg.data.sender.as_str().is_empty() {
            msg.data.sender = self.agent_id.clone();
        }
        msg.data.recipient = String::from_str(to);
        msg.data.sentAt = Some(now);
        proof {
            assert(msg@ =~= spec_sent(mv, self@, to@, now));
        }
        Frame::Request(RequestFrame::send { message: msg, relay: true })
    }

    /// Prepares and wraps one outbound message without touching its
    /// recipient: the sender is filled with the gateway's identity when
    /// blank and the send timestamp is stamped. For a caller that
    /// addressed the message itself.
    pub fn send_raw(&self, msg: Message, now: i64) -> (f: Frame)
        ensures
            f@ == FrameView::Request(
                RequestFrameView::send {
                    message: spec_sent(msg@, self@, msg@.data.recipient, now),
                    relay: true,
                },
            ),
            msg@.wf() ==> spec_sent(msg@, self@, msg@.data.recipient, now).wf(),
    {
        let mut msg = msg;
        let ghost mv = msg@;
        if msg.data.sender.as_str().is_empty() {
            msg.data.sender = self.agent_id.clone();
        }
        msg.data.sentAt = Some(now);
        proof {
            assert(msg@ =~= spec_sent(mv, self@, mv.data.recipient, now));
        }
        Frame::Request(RequestFrame::send { message: msg, relay: true })
    }

    /// Sends a request message and runs the receive loop for its reply:
    /// the reply filter is the sent message's own id, so concurrent
    /// requests with distinct ids never claim each other's replies.
    pub fn request_with_events(
        &mut self,
        to: &str,
        msg: Message,
        now: i64,
        events: &mut Vec<GatewayReceiveInterrupt>,
    ) -> (r: (Frame, RecvOutcome))
        ensures
            r.0@ == FrameView::Request(
                RequestFrameView::send {
                    message: spec_sent(msg@, old(self)@, to@, now),
                    relay: true,
                },
            ),
            final(self)@.agent_id == old(self)@.agent_id,
            final(self)@.agents == old(self)@.agents,
            final(self)@.subscriptions == old(self)@.subscriptions,
            (match spec_first_match(old(self)@.inbox, None, Some(msg@.data.msgID)) {
                Some(i) => {
                    &&& r.1 matches RecvOutcome::Received(m)
                    &&& m@ == old(self)@.inbox[i]
                    &&& final(self)@.inbox == old(self)@.inbox.remove(i)
                    &&& final(events)@ == old(events)@
                },
                None => {
                    &&& final(self)@.inbox == old(self)@.inbox
                    &&& (match spec_first_cancel(old(events)@) {
                        Some(k) => r.1 is Cancelled && final(events)@ == old(events)@.skip(k + 1),
                        None => {
                            &&& r.1 is Blocked
                            &&& final(events)@ == Seq::<GatewayReceiveInterrupt>::empty()
                        },
                    })
                },
            }),
            old(self)@.wf() ==> final(self)@.wf(),
    {
        let id = msg.data.msgID.clone();
        let f = self.send(to, msg, now);
        let no_class: Option<Vec<String>> = None;
        let want = Some(id);
        let outcome = self.recv_with_events(&no_class, &want, events);
        (f, outcome)
    }
}

/// The message as it leaves the gateway: sender filled when blank,
/// recipient set to the target, and the send timestamp stamped.
pub open spec fn spec_sent(
    m: MessageView,
    g: GatewayCoreView,
    to: Seq<char>,
    now: i64,
) -> MessageView {
    MessageView {
        clazz: m.clazz,
        data: PayloadView {
            sender: if m.data.sender.len() == 0 {
                g.agent_id
            } else {
                m.data.sender
            },
            recipient: to,
            sentAt: Some(now),
            ..m.data
        },
    }
}

/// Whether a broadcast response completes the query waiting on an id:
/// exactly when the response carries that id.
pub fn response_matches(rsp: &ResponseFrame, id: &str) -> (r: bool)
    ensures
        r == (rsp@.spec_id() == id@),
{
    crate::json::str_eq(rsp.id().as_str(), id)
}

/// A sent message reaches the wire with its envelope completed: the
/// recipient is the send target, the timestamp is stamped, the sender
/// is filled with the gateway's identity exactly when it was blank, and
/// everything else about the message is untouched.
pub proof fn lemma_send_fills_envelope(m: MessageView, g: GatewayCoreView, to: Seq<char>, now: i64)
    ensures
        spec_sent(m, g, to, now).data.recipient == to,
        spec_sent(m, g, to, now).data.sentAt == Some(now),
        m.data.sender.len() == 0 ==> spec_sent(m, g, to, now).data.sender == g.agent_id,
        m.data.sender.len() > 0 ==> spec_sent(m, g, to, now).data.sender == m.data.sender,
        spec_sent(m, g, to, now).clazz == m.clazz,
        spec_sent(m, g, to, now).data.msgID == m.data.msgID,
        spec_sent(m, g, to, now).data.inReplyTo == m.data.inReplyTo,
        spec_sent(m, g, to, now).data.fields == m.data.fields,
{
}

/// A sent message is the one a matching receive claims: delivered into
/// an inbox whose earlier entries all fail the filter, the sent
/// message (decoded, as the dispatch queues it) is the first match;
/// the claim hands it back with recipient equal to the send target,
/// the timestamp stamped, the sender filled exactly when it was blank,
/// and its id kept; and removing it restores the inbox.
pub proof fn lemma_sent_message_received(
    m: MessageView,
    g: GatewayCoreView,
    to: Seq<char>,
    now: i64,
    inbox: Seq<MessageView>,
    clazzes: Option<Seq<Seq<char>>>,
    id: Option<Seq<char>>,
)
    requires
        msg_matches(spec_sent(m, g, to, now).decoded(), clazzes, id),
        forall|j: int| 0 <= j < inbox.len() ==> !msg_matches(#[trigger] inbox[j], clazzes, id),
    ensures
        ({
            let delivered = spec_sent(m, g, to, now).decoded();
            let queued = inbox.push(delivered);
            &&& spec_first_match(queued, clazzes, id) == Some(inbox.len() as int)
            &&& delivered.data.recipient == to
            &&& delivered.data.sentAt == Some(now)
            &&& (m.data.sender.len() == 0 ==> delivered.data.sender == g.agent_id)
            &&& (m.data.sender.len() > 0 ==> delivered.data.sender == m.data.sender)
            &&& delivered.data.msgID == m.data.msgID
            &&& delivered.data.inReplyTo == m.data.inReplyTo
            &&& queued.remove(inbox.len() as int) == inbox
        }),
{
    let delivered = spec_sent(m, g, to, now).decoded();
    let queued = inbox.push(delivered);
    assert(forall|j: int|
        0 <= j < inbox.len() ==> !msg_matches(#[trigger] queued[j], clazzes, id));
    lemma_first_match_found(queued, clazzes, id, inbox.len() as int);
    assert(queued.remove(inbox.len() as int) =~= inbox);
}

/// Query correlation is exclusive: a response completes at most one of
/// two queries waiting on different correlation ids, however the
/// responses are interleaved.
pub proof fn lemma_query_correlation(rsp: ResponseFrameView, id1: Seq<char>, id2: Seq<char>)
    requires
        id1 != id2,
    ensures
        !(rsp.spec_id() == id1 && rsp.spec_id() == id2),
{
}

} // verus!
