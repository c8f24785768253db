//! The routed fan-out of packets to the connections joined to a session.
use vstd::prelude::*;

verus! {

/// A packet text addressed to every connection joined to `session`.
#[derive(Debug, Clone)]
pub struct SinkData {
    pub session: String,
    pub body: String,
}

impl SinkData {
    /// A packet text `body` for the session `session`.
    pub fn new(session: &str, body: String) -> (r: Self)
        ensures
            r.session@ == session@,
            r.body@ == body@,
    {
        SinkData { session: String::from_str(session), body }
    }
}

/// One connection's subscription: the session it follows, the packet texts
/// delivered to it and not yet read, oldest first, and whether it lost some
/// since it last read.
pub struct Subscriber {
    active: bool,
    session: String,
    backlog: Vec<String>,
    lagged: bool,
}

/// The value of a subscription.
pub struct SubscriberView {
    pub active: bool,
    pub session: Seq<char>,
    pub backlog: Seq<Seq<char>>,
    pub lagged: bool,
}

impl View for Subscriber {
    type V = SubscriberView;

    closed spec fn view(&self) -> SubscriberView {
        SubscriberView {
            active: self.active,
            session: self.session@,
            backlog: self.backlog@.map_values(|b: String| b@),
            lagged: self.lagged,
        }
    }
}

/// What reading a subscription gave.
#[derive(Debug)]
pub enum Delivery {
    /// The oldest unread packet text.
    Message(String),
    /// Packet texts were dropped since the last read: the reader should
    /// fetch the session's state afresh.
    Lagged,
    /// Nothing is waiting.
    Empty,
}

/// The value of a delivery.
pub enum DeliveryView {
    Message(Seq<char>),
    Lagged,
    Empty,
}

impl View for Delivery {
    type V = DeliveryView;

    open spec fn view(&self) -> DeliveryView {
        match self {
            Delivery::Message(m) => DeliveryView::Message(m@),
            Delivery::Lagged => DeliveryView::Lagged,
            Delivery::Empty => DeliveryView::Empty,
        }
    }
}

/// A subscription after `body` is published to `session`: a subscription
/// to that session takes it, dropping its oldest unread text when it already
/// holds `capacity`; any other is left alone.
pub open spec fn deliver(s: SubscriberView, session: Seq<char>, body: Seq<char>, capacity: nat) -> SubscriberView {
    if s.active && s.session == session {
        if s.backlog.len() < capacity {
            SubscriberView { backlog: s.backlog.push(body), ..s }
        } else {
            SubscriberView { backlog: s.backlog.drop_first().push(body), lagged: true, ..s }
        }
    } else {
        s
    }
}

/// A subscription after each of `bodies` is published to `session`, in order.
pub open spec fn deliver_all(s: SubscriberView, session: Seq<char>, bodies: Seq<Seq<char>>, capacity: nat) -> SubscriberView
    decreases bodies.len(),
{
    if bodies.len() == 0 {
        s
    } else {
        deliver(deliver_all(s, session, bodies.drop_last(), capacity), session, bodies.last(), capacity)
    }
}

/// A subscription after one read, and what the read gave: first the news
/// that texts were lost, then the oldest unread text.
pub open spec fn receive(s: SubscriberView) -> (SubscriberView, DeliveryView) {
    if s.lagged {
        (SubscriberView { lagged: false, ..s }, DeliveryView::Lagged)
    } else if s.backlog.len() > 0 {
        (SubscriberView { backlog: s.backlog.drop_first(), ..s }, DeliveryView::Message(s.backlog[0]))
    } else {
        (s, DeliveryView::Empty)
    }
}

/// The bus that carries packet texts to the subscriptions of each session.
/// Each subscription holds at most `capacity` unread texts, so a slow reader
/// never holds up a publisher.
pub struct Hub {
    capacity: usize,
    subscribers: Vec<Subscriber>,
}

impl Hub {
    /// The most unread texts a subscription holds.
    pub closed spec fn capacity(&self) -> nat {
        self.capacity as nat
    }

    /// The subscriptions, by identifier.
    pub closed spec fn subscribers(&self) -> Seq<SubscriberView> {
        self.subscribers@.map_values(|s: Subscriber| s@)
    }

    /// The capacity is positive and no subscription holds more than it.
    pub closed spec fn wf(&self) -> bool {
        &&& self.capacity > 0
        &&& forall|i: int|
            0 <= i < self.subscribers@.len() ==> (#[trigger] self.subscribers@[i])@.backlog.len()
                <= self.capacity
    }

    /// A bus with no subscriptions, each of whose future subscriptions holds
    /// at most `capacity` unread texts.
    pub fn new(capacity: usize) -> (r: Hub)
        requires
            capacity > 0,
        ensures
            r.wf(),
            r.capacity() == capacity,
            r.subscribers().len() == 0,
    {
        Hub { capacity, subscribers: Vec::new() }
    }

    /// Opens a subscription to `session` and returns its identifier.
    pub fn subscribe(&mut self, session: &str) -> (id: usize)
        requires
            old(self).wf(),
        ensures
            final(self).wf(),
            final(self).capacity() == old(self).capacity(),
            id == old(self).subscribers().len(),
            final(self).subscribers() == old(self).subscribers().push(
                SubscriberView { active: true, session: session@, backlog: Seq::empty(), lagged: false },
            ),
    {
        let sub = Subscriber {
            active: true,
            session: String::from_str(session),
            backlog: Vec::new(),
            lagged: false,
        };
        let id = self.subscribers.len();
        let ghost before = self.subscribers@;
        self.subscribers.push(sub);
        proof {
            assert(sub@.backlog =~= Seq::empty());
            assert(self.subscribers@.map_values(|s: Subscriber| s@) =~= before.map_values(
                |s: Subscriber| s@,
            ).push(sub@));
            assert forall|i: int| 0 <= i < self.subscribers@.len() implies (
            #[trigger] self.subscribers@[i])@.backlog.len() <= self.capacity by {
                if i < before.len() {
                    assert(self.subscribers@[i] == before[i]);
                }
            }
        }
        id
    }

    /// Closes the subscription `id`; it takes no more texts.
    pub fn unsubscribe(&mut self, id: usize)
        requires
            old(self).wf(),
            id < old(self).subscribers().len(),
        ensures
            final(self).wf(),
            final(self).capacity() == old(self).capacity(),
            final(self).subscribers() == old(self).subscribers().update(
                id as int,
                SubscriberView {
                    active: false,
                    session: old(self).subscribers()[id as int].session,
                    backlog: Seq::empty(),
                    lagged: false,
                },
            ),
    {
        let ghost before = self.subscribers@;
        let old_sub = self.subscribers.remove(id);
        let sub = Subscriber { active: false, session: old_sub.session, backlog: Vec::new(), lagged: false };
        self.subscribers.insert(id, sub);
        proof {
            assert(self.subscribers@ =~= before.update(id as int, sub));
            assert(sub@.backlog =~= Seq::empty());
            assert(self.subscribers@.map_values(|s: Subscriber| s@) =~= before.map_values(
                |s: Subscriber| s@,
            ).update(id as int, sub@));
            assert forall|i: int| 0 <= i < self.subscribers@.len() implies (
            #[trigger] self.subscribers@[i])@.backlog.len() <= self.capacity by {
                if i != id {
                    assert(self.subscribers@[i] == before[i]);
                }
            }
        }
    }

    /// Hands `data.body` to every open subscription of `data.session`, and to
    /// no other.
    pub fn publish(&mut self, data: &SinkData)
        requires
            old(self).wf(),
        ensures
            final(self).wf(),
            final(self).capacity() == old(self).capacity(),
            final(self).subscribers() == old(self).subscribers().map_values(
                |s: SubscriberView| deliver(s, data.session@, data.body@, old(self).capacity()),
            ),
    {
        let ghost before = self.subscribers@;
        let ghost cap = self.capacity as nat;
        let mut i: usize = 0;
        while i < self.subscribers.len()
            invariant
                self.wf(),
                self.capacity == cap,
                i <= self.subscribers@.len(),
                self.subscribers@.len() == before.len(),
                forall|k: int| 0 <= k < i ==> (#[trigger] self.subscribers@[k])@ == deliver(
                    before[k]@, data.session@, data.body@, cap),
                forall|k: int| i <= k < before.len() ==> #[trigger] self.subscribers@[k] == before[k],
            decreases before.len() - i,
        {
            let ghost cur = self.subscribers@;
            let mut sub = self.subscribers.remove(i);
            assert(sub == before[i as int]);
            let ghost sv = sub@;
            if sub.active && sub.session == data.session {
                if sub.backlog.len() >= self.capacity {
                    let ghost b0 = sub.backlog@;
                    sub.backlog.remove(0);
                    sub.lagged = true;
                    assert(sub.backlog@.map_values(|b: String| b@) =~= b0.map_values(|b: String| b@).drop_first());
                }
                let ghost b1 = sub.backlog@;
                sub.backlog.push(data.body.clone());
                assert(sub.backlog@.map_values(|b: String| b@) =~= b1.map_values(|b: String| b@).push(data.body@));
            }
            assert(sub@ == deliver(sv, data.session@, data.body@, cap));
            self.subscribers.insert(i, sub);
            proof {
                assert(self.subscribers@ =~= cur.update(i as int, sub));
            }
            i += 1;
        }
        proof {
            assert(self.subscribers@.map_values(|s: Subscriber| s@) =~= before.map_values(
                |s: Subscriber| s@,
            ).map_values(|s: SubscriberView| deliver(s, data.session@, data.body@, cap)));
        }
    }

    /// Reads the subscription `id`: first the news that texts were lost,
    /// then its oldest unread text, if any.
    pub fn recv(&mut self, id: usize) -> (r: Delivery)
        requires
            old(self).wf(),
            id < old(self).subscribers().len(),
        ensures
            final(self).wf(),
            final(self).capacity() == old(self).capacity(),
            final(self).subscribers() == old(self).subscribers().update(
                id as int,
                receive(old(self).subscribers()[id as int]).0,
            ),
            r@ == receive(old(self).subscribers()[id as int]).1,
    {
        let ghost before = self.subscribers@;
        let mut sub = self.subscribers.remove(id);
        let ghost sv = sub@;
        let r = if sub.lagged {
            sub.lagged = false;
            Delivery::Lagged
        } else if sub.backlog.len() > 0 {
            let ghost b0 = sub.backlog@;
            let m = sub.backlog.remove(0);
            assert(sub.backlog@.map_values(|b: String| b@) =~= b0.map_values(|b: String| b@).drop_first());
            Delivery::Message(m)
        } else {
            Delivery::Empty
        };
        assert(sub@ == receive(sv).0);
        self.subscribers.insert(id, sub);
        proof {
            assert(self.subscribers@ =~= before.update(id as int, sub));
            assert(self.subscribers@.map_values(|s: Subscriber| s@) =~= before.map_values(
                |s: Subscriber| s@,
            ).update(id as int, sub@));
            assert forall|i: int| 0 <= i < self.subscribers@.len() implies (
            #[trigger] self.subscribers@[i])@.backlog.len() <= self.capacity by {
                if i != id {
                    assert(self.subscribers@[i] == before[i]);
                }
            }
        }
        r
    }
}

/// A subscription to another session is never handed a text published to
/// this one.
pub proof fn lemma_other_sessions_untouched(s: SubscriberView, session: Seq<char>, bodies: Seq<Seq<char>>, capacity: nat)
    requires
        s.session != session,
    ensures
        deliver_all(s, session, bodies, capacity) == s,
    decreases bodies.len(),
{
    if bodies.len() > 0 {
        lemma_other_sessions_untouched(s, session, bodies.drop_last(), capacity);
    }
}

/// A subscriber that reads nothing while texts are published to its session
/// keeps at most `capacity` of them, the newest last; once more than
/// `capacity` were published it is marked as having lost some, and the last
/// published text is still the last it will read.
pub proof fn lemma_slow_subscriber_keeps_latest(s: SubscriberView, bodies: Seq<Seq<char>>, capacity: nat)
    requires
        s.active,
        capacity > 0,
        s.backlog.len() <= capacity,
        bodies.len() > 0,
    ensures
        deliver_all(s, s.session, bodies, capacity).backlog.len() <= capacity,
        deliver_all(s, s.session, bodies, capacity).backlog.last() == bodies.last(),
        s.backlog.len() + bodies.len() > capacity ==> deliver_all(s, s.session, bodies, capacity).lagged,
    decreases bodies.len(),
{
    if bodies.len() == 1 {
        assert(bodies.drop_last().len() == 0);
    } else {
        lemma_slow_subscriber_keeps_latest(s, bodies.drop_last(), capacity);
        let prev = deliver_all(s, s.session, bodies.drop_last(), capacity);
        lemma_deliver_keeps_subscription(s, s.session, bodies.drop_last(), capacity);
        if s.backlog.len() + bodies.len() > capacity && !prev.lagged {
            lemma_backlog_grows(s, bodies.drop_last(), capacity);
        }
    }
}

/// Publishing keeps a subscription's session and whether it is open, and
/// never unmarks a loss.
proof fn lemma_deliver_keeps_subscription(s: SubscriberView, session: Seq<char>, bodies: Seq<Seq<char>>, capacity: nat)
    ensures
        deliver_all(s, session, bodies, capacity).session == s.session,
        deliver_all(s, session, bodies, capacity).active == s.active,
        s.lagged ==> deliver_all(s, session, bodies, capacity).lagged,
    decreases bodies.len(),
{
    if bodies.len() > 0 {
        lemma_deliver_keeps_subscription(s, session, bodies.drop_last(), capacity);
    }
}

/// Until a subscription is marked as having lost texts, every published
/// text is kept.
proof fn lemma_backlog_grows(s: SubscriberView, bodies: Seq<Seq<char>>, capacity: nat)
    requires
        s.active,
        !deliver_all(s, s.session, bodies, capacity).lagged,
    ensures
        deliver_all(s, s.session, bodies, capacity).backlog.len() == s.backlog.len() + bodies.len(),
        deliver_all(s, s.session, bodies, capacity).backlog.len() <= capacity || bodies.len() == 0,
    decreases bodies.len(),
{
    if bodies.len() > 0 {
        let prev = deliver_all(s, s.session, bodies.drop_last(), capacity);
        lemma_deliver_keeps_subscription(s, s.session, bodies.drop_last(), capacity);
        lemma_backlog_grows(s, bodies.drop_last(), capacity);
    }
}

} // verus!
