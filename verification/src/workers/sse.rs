//! Server-sent event streams: who receives an update, when the registry is
//! full, when heartbeats go out, and the counters of the routing worker.

use crate::text::{chars_of, push_decimal, push_str, string_from_chars};
use vstd::prelude::*;

verus! {

/// Most streams open at once.
pub const MAX_SSE_CONNECTIONS: usize = 100;

/// Seconds between heartbeats to every stream.
pub const SSE_HEARTBEAT_INTERVAL_SECS: u64 = 15;

/// Events that may wait in one stream's channel.
pub const SSE_CHANNEL_CAPACITY: usize = 100;

/// The identifier of an open stream.
#[derive(Debug, Clone, Copy, PartialEq, Eq, Hash, Structural)]
pub struct SseConnectionId(pub u64);

impl SseConnectionId {
    pub fn new(id: u64) -> (c: Self)
        ensures
            c.0 == id,
    {
        SseConnectionId(id)
    }

    pub fn value(&self) -> (v: u64)
        ensures
            v == self.0,
    {
        self.0
    }
}

/// An open stream: the device and signal groups it follows, when it opened,
/// and where its events go.
pub struct SseConnection<S> {
    pub device_id: String,
    pub signal_groups: Vec<String>,
    pub connected_at: u64,
    pub sender: S,
}

pub open spec fn texts(v: Seq<String>) -> Seq<Seq<char>> {
    v.map_values(|s: String| s@)
}

fn same_text(a: &String, b: &str) -> (r: bool)
    ensures
        r == (a@ == b@),
{
    let x = chars_of(a.as_str());
    let y = chars_of(b);
    if x.len() != y.len() {
        return false;
    }
    let mut i: usize = 0;
    while i < x.len()
        invariant
            i <= x@.len() == y@.len(),
            x@ == a@,
            y@ == b@,
            forall|j: int| 0 <= j < i ==> x@[j] == y@[j],
        decreases x.len() - i,
    {
        if x[i] != y[i] {
            assert(x@[i as int] != y@[i as int]);
            return false;
        }
        i = i + 1;
    }
    assert(x@ =~= y@);
    true
}

impl<S> SseConnection<S> {
    pub fn new(device_id: String, signal_groups: Vec<String>, connected_at: u64, sender: S) -> (c:
        Self)
        ensures
            c.device_id == device_id,
            c.signal_groups == signal_groups,
            c.connected_at == connected_at,
            c.sender == sender,
    {
        SseConnection { device_id, signal_groups, connected_at, sender }
    }

    /// Whether the stream follows `signal_group`.
    pub fn is_subscribed_to(&self, signal_group: &str) -> (b: bool)
        ensures
            b == texts(self.signal_groups@).contains(signal_group@),
    {
        let mut i: usize = 0;
        while i < self.signal_groups.len()
            invariant
                i <= self.signal_groups@.len(),
                forall|j: int| 0 <= j < i ==> self.signal_groups@[j]@ != signal_group@,
            decreases self.signal_groups.len() - i,
        {
            if same_text(&self.signal_groups[i], signal_group) {
                assert(texts(self.signal_groups@)[i as int] == signal_group@);
                return true;
            }
            i = i + 1;
        }
        assert(!texts(self.signal_groups@).contains(signal_group@)) by {
            if texts(self.signal_groups@).contains(signal_group@) {
                let j = choose|j: int|
                    0 <= j < texts(self.signal_groups@).len() && texts(self.signal_groups@)[j]
                        == signal_group@;
                assert(self.signal_groups@[j]@ == signal_group@);
            }
        }
        false
    }

    /// Whether an update of `signal_group` of `device_id` goes to this
    /// stream.
    pub fn receives(&self, device_id: &str, signal_group: &str) -> (b: bool)
        ensures
            b == (self.device_id@ == device_id@ && texts(self.signal_groups@).contains(
                signal_group@,
            )),
    {
        same_text(&self.device_id, device_id) && self.is_subscribed_to(signal_group)
    }
}

/// The refusal of a stream when the registry is full.
pub open spec fn limit_message() -> Seq<char> {
    "Maximum SSE connections limit reached ("@ + crate::text::decimal_chars(
        MAX_SSE_CONNECTIONS as nat,
    ) + "). Rejecting new connection."@
}

/// Whether one more stream may open next to `open_count`: refused with a
/// message once [`MAX_SSE_CONNECTIONS`] are open.
pub fn admit_connection(open_count: usize) -> (r: Result<(), String>)
    ensures
        match r {
            Ok(_) => open_count < MAX_SSE_CONNECTIONS,
            Err(m) => open_count >= MAX_SSE_CONNECTIONS && m@ == limit_message(),
        },
{
    if open_count >= MAX_SSE_CONNECTIONS {
        let mut out: Vec<char> = Vec::new();
        push_str(&mut out, "Maximum SSE connections limit reached (");
        push_decimal(&mut out, MAX_SSE_CONNECTIONS as u64);
        push_str(&mut out, "). Rejecting new connection.");
        return Err(string_from_chars(&out));
    }
    Ok(())
}

/// The identifiers handed to streams: 0, 1, 2, ... wrapping after
/// `u64::MAX`.
pub struct SseIdCounter {
    next: u64,
}

impl SseIdCounter {
    pub closed spec fn upcoming(self) -> u64 {
        self.next
    }

    pub fn new() -> (c: Self)
        ensures
            c.upcoming() == 0,
    {
        SseIdCounter { next: 0 }
    }

    pub fn next_id(&mut self) -> (id: SseConnectionId)
        ensures
            id.0 == old(self).upcoming(),
            final(self).upcoming() == crate::correlation::wrapping_succ(id.0),
    {
        let id = self.next;
        self.next = self.next.wrapping_add(1);
        SseConnectionId(id)
    }
}

/// Whether heartbeats are due `elapsed_ms` after the last ones.
pub fn heartbeat_due(elapsed_ms: u64) -> (b: bool)
    ensures
        b == (elapsed_ms >= SSE_HEARTBEAT_INTERVAL_SECS * 1000),
{
    elapsed_ms >= SSE_HEARTBEAT_INTERVAL_SECS * 1000
}

/// `a + b`, wrapping after `u64::MAX`.
pub open spec fn wrapping_sum(a: u64, b: u64) -> u64 {
    if a + b > u64::MAX {
        (a + b - u64::MAX - 1) as u64
    } else {
        (a + b) as u64
    }
}

/// The counters of the routing worker: updates received and deliveries
/// made; both wrap after `u64::MAX`.
#[derive(Debug, Clone, Copy)]
pub struct SseCounters {
    pub messages_received: u64,
    pub messages_routed: u64,
}

impl SseCounters {
    pub fn new() -> (c: Self)
        ensures
            c.messages_received == 0,
            c.messages_routed == 0,
    {
        SseCounters { messages_received: 0, messages_routed: 0 }
    }

    /// Counts one update received and the deliveries it made.
    pub fn record_update(&mut self, delivered: usize)
        ensures
            final(self).messages_received == wrapping_sum(old(self).messages_received, 1),
            final(self).messages_routed == wrapping_sum(
                old(self).messages_routed,
                delivered as u64,
            ),
    {
        self.messages_received = add_wrapping(self.messages_received, 1);
        if delivered > 0 {
            self.messages_routed = add_wrapping(self.messages_routed, delivered as u64);
        }
    }
}

fn add_wrapping(a: u64, b: u64) -> (r: u64)
    ensures
        r == wrapping_sum(a, b),
{
    if a > u64::MAX - b {
        b - (u64::MAX - a) - 1
    } else {
        a + b
    }
}

/// Whether connection `c` receives updates of `group` of `device`.
pub open spec fn receives_update<S>(c: SseConnection<S>, device: Seq<char>, group: Seq<char>) -> bool {
    c.device_id@ == device && texts(c.signal_groups@).contains(group)
}

/// The identifiers of the entries of `open` that receive updates of
/// `group` of `device`, in order.
pub open spec fn receiving_ids<S>(
    open: Seq<(SseConnectionId, SseConnection<S>)>,
    device: Seq<char>,
    group: Seq<char>,
) -> Seq<SseConnectionId>
    decreases open.len(),
{
    if open.len() == 0 {
        Seq::empty()
    } else {
        let rest = receiving_ids(open.drop_last(), device, group);
        if receives_update(open.last().1, device, group) {
            rest.push(open.last().0)
        } else {
            rest
        }
    }
}

/// The index of the first entry of `open` from `k` on with identifier `id`.
pub open spec fn index_of_id<S>(open: Seq<(SseConnectionId, SseConnection<S>)>, id: SseConnectionId, k: int) -> Option<
    int,
>
    decreases open.len() - k,
{
    if 0 <= k < open.len() {
        if open[k].0 == id {
            Some(k)
        } else {
            index_of_id(open, id, k + 1)
        }
    } else {
        None
    }
}

/// How handing an event to one stream's channel went.
#[derive(Debug, Clone, Copy, PartialEq, Eq, Structural)]
pub enum SendOutcome {
    /// The channel took the event.
    Delivered,
    /// The channel was full; the event is skipped for this stream.
    Full,
    /// The stream's receiver is gone.
    Closed,
}

/// How many of `sent` were delivered.
pub open spec fn delivered_count(sent: Seq<(SseConnectionId, SendOutcome)>) -> nat
    decreases sent.len(),
{
    if sent.len() == 0 {
        0
    } else {
        delivered_count(sent.drop_last()) + if sent.last().1 is Delivered {
            1nat
        } else {
            0nat
        }
    }
}

/// `open` after the streams whose channel was found closed in `sent` are
/// closed one after another.
pub open spec fn after_closed<S>(
    open: Seq<(SseConnectionId, SseConnection<S>)>,
    sent: Seq<(SseConnectionId, SendOutcome)>,
) -> Seq<(SseConnectionId, SseConnection<S>)>
    decreases sent.len(),
{
    if sent.len() == 0 {
        open
    } else {
        let before = after_closed(open, sent.drop_last());
        if sent.last().1 is Closed {
            match index_of_id(before, sent.last().0, 0) {
                Some(k) => before.remove(k),
                None => before,
            }
        } else {
            before
        }
    }
}

/// Whether `id` is the last identifier before the counter starts again.
pub open spec fn id_is_last(id: u64) -> bool {
    id == u64::MAX
}

/// The open streams with their identifiers, in the order they opened, and
/// the identifier the next stream gets.
pub struct SseRegistry<S> {
    connections: Vec<(SseConnectionId, SseConnection<S>)>,
    ids: SseIdCounter,
    exhausted: Ghost<bool>,
}

impl<S> SseRegistry<S> {
    #[verifier::type_invariant]
    spec fn wf(self) -> bool {
        &&& self.connections@.len() <= MAX_SSE_CONNECTIONS
        &&& self.exhausted@ || self.ids_fresh()
    }

    /// Whether the identifier `u64::MAX` has been handed out, after which
    /// the counter starts again at zero.
    pub closed spec fn ids_exhausted(self) -> bool {
        self.exhausted@
    }

    /// The open streams, oldest first.
    pub closed spec fn open(self) -> Seq<(SseConnectionId, SseConnection<S>)> {
        self.connections@
    }

    /// The identifier the next stream gets.
    pub closed spec fn next_id(self) -> u64 {
        self.ids.upcoming()
    }

    /// Whether the open streams have distinct identifiers, all below the
    /// next one.
    pub open spec fn ids_fresh(self) -> bool {
        &&& forall|i: int, j: int|
            0 <= i < j < self.open().len() ==> (#[trigger] self.open()[i]).0 != (#[trigger] self.open()[j]).0
        &&& forall|i: int| 0 <= i < self.open().len() ==> (#[trigger] self.open()[i]).0.0 < self.next_id()
    }

    pub fn new() -> (r: Self)
        ensures
            r.open() == Seq::<(SseConnectionId, SseConnection<S>)>::empty(),
            r.next_id() == 0,
            r.ids_fresh(),
            !r.ids_exhausted(),
    {
        SseRegistry { connections: Vec::new(), ids: SseIdCounter::new(), exhausted: Ghost(false) }
    }

    /// Opens `connection`: refused with [`limit_message`] and nothing
    /// changed once [`MAX_SSE_CONNECTIONS`] are open; otherwise it gets the
    /// next identifier and joins the open streams. Identifiers stay distinct
    /// as long as the counter has not reached `u64::MAX`.
    pub fn register(&mut self, connection: SseConnection<S>) -> (r: Result<SseConnectionId, String>)
        ensures
            old(self).open().len() >= MAX_SSE_CONNECTIONS ==> (r matches Err(m) && m@ == limit_message()
                && final(self).open() == old(self).open() && final(self).next_id() == old(self).next_id()),
            old(self).open().len() < MAX_SSE_CONNECTIONS ==> (r matches Ok(id) && id.0 == old(self).next_id()
                && final(self).open() == old(self).open().push((id, connection)) && final(self).next_id()
                == crate::correlation::wrapping_succ(id.0)),
            final(self).open().len() <= MAX_SSE_CONNECTIONS,
            final(self).ids_exhausted() == (old(self).ids_exhausted() || (old(self).open().len()
                < MAX_SSE_CONNECTIONS && old(self).next_id() == u64::MAX)),
            !final(self).ids_exhausted() ==> final(self).ids_fresh(),
            old(self).ids_fresh() && old(self).next_id() < u64::MAX ==> final(self).ids_fresh(),
            match r {
                Ok(id) => !final(self).ids_exhausted() ==> {
                    &&& forall|i: int|
                        0 <= i < old(self).open().len() ==> (#[trigger] old(self).open()[i]).0 != id
                    &&& id.0 < final(self).next_id()
                },
                Err(_) => true,
            },
    {
        proof {
            use_type_invariant(&*self);
        }
        if let Err(m) = admit_connection(self.connections.len()) {
            return Err(m);
        }
        let mut connections: Vec<(SseConnectionId, SseConnection<S>)> = Vec::new();
        std::mem::swap(&mut connections, &mut self.connections);
        let mut ids = SseIdCounter::new();
        std::mem::swap(&mut ids, &mut self.ids);
        let ghost exhausted = self.exhausted@ || id_is_last(ids.upcoming());
        let id = ids.next_id();
        connections.push((id, connection));
        *self = SseRegistry { connections, ids, exhausted: Ghost(exhausted) };
        Ok(id)
    }

    /// Closes the stream `id`, giving back its sender; `None` when no open
    /// stream has that identifier.
    pub fn unregister(&mut self, id: SseConnectionId) -> (r: Option<S>)
        ensures
            final(self).next_id() == old(self).next_id(),
            final(self).ids_exhausted() == old(self).ids_exhausted(),
            match index_of_id(old(self).open(), id, 0) {
                Some(k) => r == Some(old(self).open()[k].1.sender) && final(self).open() == old(
                    self,
                ).open().remove(k),
                None => r is None && final(self).open() == old(self).open(),
            },
            old(self).ids_fresh() ==> final(self).ids_fresh(),
    {
        proof {
            use_type_invariant(&*self);
        }
        let mut k: usize = 0;
        while k < self.connections.len()
            invariant
                k <= self.connections@.len(),
                *self == *old(self),
                self.connections@.len() <= MAX_SSE_CONNECTIONS,
                old(self).exhausted@ || old(self).ids_fresh(),
                index_of_id(self.connections@, id, 0) == index_of_id(self.connections@, id, k as int),
            decreases self.connections.len() - k,
        {
            if self.connections[k].0 == id {
                let ghost before = self.connections@;
                let ghost ki = k as int;
                let mut connections: Vec<(SseConnectionId, SseConnection<S>)> = Vec::new();
                std::mem::swap(&mut connections, &mut self.connections);
                let (_, c) = connections.remove(k);
                proof {
                    assert forall|i: int| 0 <= i < connections@.len() implies (#[trigger] connections@[i])
                        == before[if i < ki {
                        i
                    } else {
                        i + 1
                    }] by {}
                    if !old(self).exhausted@ {
                        assert forall|i: int, j: int| 0 <= i < j < connections@.len() implies (
                        #[trigger] connections@[i]).0 != (#[trigger] connections@[j]).0 by {
                            let si = if i < ki { i } else { i + 1 };
                            let sj = if j < ki { j } else { j + 1 };
                            assert(connections@[i] == before[si]);
                            assert(connections@[j] == before[sj]);
                            assert(old(self).open()[si] == before[si]);
                        }
                        assert forall|i: int| 0 <= i < connections@.len() implies (
                        #[trigger] connections@[i]).0.0 < old(self).next_id() by {
                            let si = if i < ki { i } else { i + 1 };
                            assert(connections@[i] == before[si]);
                            assert(old(self).open()[si] == before[si]);
                        }
                    }
                }
                self.connections = connections;
                return Some(c.sender);
            }
            k = k + 1;
        }
        None
    }

    /// Settles a broadcast from how each stream's channel took the event:
    /// returns how many streams took it, and closes the streams whose
    /// channel was closed.
    pub fn settle(&mut self, sent: &[(SseConnectionId, SendOutcome)]) -> (n: usize)
        ensures
            n == delivered_count(sent@),
            final(self).open() == after_closed(old(self).open(), sent@),
            final(self).next_id() == old(self).next_id(),
            final(self).ids_exhausted() == old(self).ids_exhausted(),
            old(self).ids_fresh() ==> final(self).ids_fresh(),
    {
        let mut n: usize = 0;
        let mut i: usize = 0;
        while i < sent.len()
            invariant
                i <= sent@.len(),
                n <= i,
                n == delivered_count(sent@.take(i as int)),
                self.open() == after_closed(old(self).open(), sent@.take(i as int)),
                self.next_id() == old(self).next_id(),
                self.ids_exhausted() == old(self).ids_exhausted(),
                old(self).ids_fresh() ==> self.ids_fresh(),
            decreases sent.len() - i,
        {
            assert(sent@.take(i + 1).drop_last() =~= sent@.take(i as int));
            let (id, outcome) = sent[i];
            match outcome {
                SendOutcome::Delivered => {
                    n = n + 1;
                },
                SendOutcome::Full => {},
                SendOutcome::Closed => {
                    self.unregister(id);
                },
            }
            i = i + 1;
        }
        assert(sent@.take(i as int) =~= sent@);
        n
    }

    /// The number of open streams; never more than [`MAX_SSE_CONNECTIONS`].
    pub fn count(&self) -> (n: usize)
        ensures
            n == self.open().len(),
            n <= MAX_SSE_CONNECTIONS,
            !self.ids_exhausted() ==> self.ids_fresh(),
    {
        proof {
            use_type_invariant(self);
        }
        self.connections.len()
    }

    /// The identifiers of the streams that receive updates of
    /// `signal_group` of `device_id`, oldest first.
    pub fn subscribers(&self, device_id: &str, signal_group: &str) -> (r: Vec<SseConnectionId>)
        ensures
            r@ == receiving_ids(self.open(), device_id@, signal_group@),
    {
        let mut out: Vec<SseConnectionId> = Vec::new();
        let mut i: usize = 0;
        while i < self.connections.len()
            invariant
                i <= self.connections@.len(),
                out@ == receiving_ids(self.connections@.take(i as int), device_id@, signal_group@),
            decreases self.connections.len() - i,
        {
            assert(self.connections@.take(i + 1).drop_last() =~= self.connections@.take(i as int));
            if self.connections[i].1.receives(device_id, signal_group) {
                out.push(self.connections[i].0);
            }
            i = i + 1;
        }
        assert(self.connections@.take(i as int) =~= self.connections@);
        out
    }

    /// The identifiers of all open streams, oldest first.
    pub fn ids(&self) -> (r: Vec<SseConnectionId>)
        ensures
            r@ == self.open().map_values(|e: (SseConnectionId, SseConnection<S>)| e.0),
    {
        let mut out: Vec<SseConnectionId> = Vec::new();
        let mut i: usize = 0;
        while i < self.connections.len()
            invariant
                i <= self.connections@.len(),
                out@ == self.connections@.take(i as int).map_values(
                    |e: (SseConnectionId, SseConnection<S>)| e.0,
                ),
            decreases self.connections.len() - i,
        {
            out.push(self.connections[i].0);
            assert(out@ =~= self.connections@.take(i + 1).map_values(
                |e: (SseConnectionId, SseConnection<S>)| e.0,
            ));
            i = i + 1;
        }
        assert(self.connections@.take(i as int) =~= self.connections@);
        out
    }

    /// The sender of stream `id`, if it is open.
    pub fn sender(&self, id: SseConnectionId) -> (r: Option<&S>)
        ensures
            match index_of_id(self.open(), id, 0) {
                Some(k) => r == Some(&self.open()[k].1.sender),
                None => r is None,
            },
    {
        let mut k: usize = 0;
        while k < self.connections.len()
            invariant
                k <= self.connections@.len(),
                index_of_id(self.connections@, id, 0) == index_of_id(self.connections@, id, k as int),
            decreases self.connections.len() - k,
        {
            if self.connections[k].0 == id {
                return Some(&self.connections[k].1.sender);
            }
            k = k + 1;
        }
        None
    }

    /// Closes every stream.
    pub fn clear(&mut self)
        ensures
            final(self).open() == Seq::<(SseConnectionId, SseConnection<S>)>::empty(),
            final(self).next_id() == old(self).next_id(),
            final(self).ids_fresh(),
            final(self).ids_exhausted() == old(self).ids_exhausted(),
    {
        self.connections = Vec::new();
    }
}

} // verus!
