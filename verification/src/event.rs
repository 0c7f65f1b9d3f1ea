//! Kernel events: a level that its source raises and lowers, with
//! listeners told of its edges, and event queues that collect the edges of
//! the events they listen to until a thread takes them.
use vstd::prelude::*;
use hashbrown::HashMap;

verus! {

/// Which edges a listener wants: bit 0 rising, bit 1 falling.
#[derive(Clone, Copy, Debug, PartialEq, Eq, Structural)]
pub struct EdgeTrigger {
    pub bits: u8,
}

impl EdgeTrigger {
    /// Rising edges.
    pub fn rising_edge() -> (t: EdgeTrigger)
        ensures
            t.bits == 1,
    {
        EdgeTrigger { bits: 1 }
    }

    /// Falling edges.
    pub fn falling_edge() -> (t: EdgeTrigger)
        ensures
            t.bits == 2,
    {
        EdgeTrigger { bits: 2 }
    }

    /// Both edges.
    pub fn both_edges() -> (t: EdgeTrigger)
        ensures
            t.bits == 3,
    {
        EdgeTrigger { bits: 3 }
    }

    /// Whether the edge of the given direction is wanted.
    pub open spec fn wants(self, rising: bool) -> bool {
        if rising {
            self.bits & 1 == 1
        } else {
            self.bits & 2 == 2
        }
    }

    /// Whether the edge of the given direction is wanted.
    pub fn contains_edge(&self, rising: bool) -> (b: bool)
        ensures
            b == self.wants(rising),
    {
        if rising {
            self.bits & 1 == 1
        } else {
            self.bits & 2 == 2
        }
    }
}

/// The direction of an edge.
#[derive(Clone, Copy, Debug, PartialEq, Eq, Structural)]
pub enum EdgeDirection {
    Rising,
    Falling,
}

/// A listener of an event: who is told (a waker named by a number), with which callback, of which
/// edges, and whether only once.
#[derive(Clone, Copy, Debug, PartialEq, Eq, Structural)]
pub struct EdgeListener {
    pub waker: u64,
    pub callback: u64,
    pub direction: EdgeTrigger,
    pub oneshot: bool,
}

impl EdgeListener {
    /// A listener.
    pub fn new(waker: u64, callback: u64, direction: EdgeTrigger, oneshot: bool) -> (l: Self)
        ensures
            l == (EdgeListener { waker, callback, direction, oneshot }),
    {
        EdgeListener { waker, callback, direction, oneshot }
    }
}

/// A listener to tell of an edge: its waker, its callback, and whether the
/// edge was rising.
#[derive(Clone, Copy, Debug, PartialEq, Eq, Structural)]
pub struct EdgeNotice {
    pub waker: u64,
    pub callback: u64,
    pub rising: bool,
}

/// An event: its level, whether it is the event of a queue, and its
/// listeners.
pub struct KEvent {
    level: bool,
    is_queue: bool,
    listeners: Vec<EdgeListener>,
}

/// The listeners told of an edge, in order.
pub open spec fn notified(ls: Seq<EdgeListener>, rising: bool) -> Seq<EdgeNotice>
    decreases ls.len(),
{
    if ls.len() == 0 {
        Seq::empty()
    } else {
        let rest = notified(ls.drop_last(), rising);
        if ls.last().direction.wants(rising) {
            rest.push(EdgeNotice { waker: ls.last().waker, callback: ls.last().callback, rising })
        } else {
            rest
        }
    }
}

/// The listeners kept after an edge: all but the one-shot listeners that
/// were told.
pub open spec fn kept(ls: Seq<EdgeListener>, rising: bool) -> Seq<EdgeListener> {
    ls.filter(|l: EdgeListener| !(l.direction.wants(rising) && l.oneshot))
}

impl KEvent {
    /// The event's level.
    pub closed spec fn spec_level(&self) -> bool {
        self.level
    }

    /// Whether the event belongs to a queue.
    pub closed spec fn spec_is_queue(&self) -> bool {
        self.is_queue
    }

    /// The event's listeners, in the order they came.
    pub closed spec fn spec_listeners(&self) -> Seq<EdgeListener> {
        self.listeners@
    }

    /// A low event with no listeners.
    pub fn new() -> (e: Self)
        ensures
            !e.spec_level(),
            !e.spec_is_queue(),
            e.spec_listeners().len() == 0,
    {
        KEvent { level: false, is_queue: false, listeners: Vec::new() }
    }

    /// The low event of a new queue.
    pub fn new_queue() -> (e: Self)
        ensures
            !e.spec_level(),
            e.spec_is_queue(),
            e.spec_listeners().len() == 0,
    {
        KEvent { level: false, is_queue: true, listeners: Vec::new() }
    }

    /// The event's level.
    pub fn level(&self) -> (b: bool)
        ensures
            b == self.spec_level(),
    {
        self.level
    }

    /// Whether the event belongs to a queue.
    pub fn is_queue(&self) -> (b: bool)
        ensures
            b == self.spec_is_queue(),
    {
        self.is_queue
    }

    /// Adds a listener at the end.
    pub fn add_listener(&mut self, l: EdgeListener)
        ensures
            final(self).spec_listeners() == old(self).spec_listeners().push(l),
            final(self).spec_level() == old(self).spec_level(),
            final(self).spec_is_queue() == old(self).spec_is_queue(),
    {
        self.listeners.push(l);
    }

    /// The source moves to `level`: when that is an edge, the listeners
    /// that want it are told, in order, and one-shot listeners that were
    /// told leave. The level itself is not changed here.
    pub fn trigger_edge(&mut self, level: bool) -> (n: Vec<EdgeNotice>)
        ensures
            final(self).spec_level() == old(self).spec_level(),
            final(self).spec_is_queue() == old(self).spec_is_queue(),
            old(self).spec_level() == level ==> n@.len() == 0 && final(self).spec_listeners()
                == old(self).spec_listeners(),
            old(self).spec_level() != level ==> n@ == notified(old(self).spec_listeners(), level)
                && final(self).spec_listeners() == kept(old(self).spec_listeners(), level),
    {
        let mut n: Vec<EdgeNotice> = Vec::new();
        if self.level == level {
            return n;
        }
        let ghost ls = self.listeners@;
        let mut keep: Vec<EdgeListener> = Vec::new();
        let mut i: usize = 0;
        while i < self.listeners.len()
            invariant
                self.listeners@ == ls,
                i <= ls.len(),
                n@ == notified(ls.take(i as int), level),
                keep@ == kept(ls.take(i as int), level),
            decreases self.listeners.len() - i,
        {
            let l = self.listeners[i];
            reveal(Seq::filter);
            assert(ls.take(i + 1).drop_last() =~= ls.take(i as int));
            let wanted = l.direction.contains_edge(level);
            if wanted {
                n.push(EdgeNotice { waker: l.waker, callback: l.callback, rising: level });
            }
            if !(wanted && l.oneshot) {
                keep.push(l);
            }
            i += 1;
        }
        assert(ls.take(ls.len() as int) =~= ls);
        self.listeners = keep;
        n
    }

    /// The source sets the level: listeners are told of an edge as
    /// `trigger_edge` says, then the level is `level`.
    pub fn set_level(&mut self, level: bool) -> (n: Vec<EdgeNotice>)
        ensures
            final(self).spec_level() == level,
            final(self).spec_is_queue() == old(self).spec_is_queue(),
            old(self).spec_level() == level ==> n@.len() == 0 && final(self).spec_listeners()
                == old(self).spec_listeners(),
            old(self).spec_level() != level ==> n@ == notified(old(self).spec_listeners(), level)
                && final(self).spec_listeners() == kept(old(self).spec_listeners(), level),
    {
        let n = self.trigger_edge(level);
        self.level = level;
        n
    }

    /// Removes every listener whose waker is `waker`.
    pub fn remove_listeners_of(&mut self, waker: u64)
        ensures
            final(self).spec_listeners() == old(self).spec_listeners().filter(
                |l: EdgeListener| l.waker != waker,
            ),
            final(self).spec_level() == old(self).spec_level(),
            final(self).spec_is_queue() == old(self).spec_is_queue(),
    {
        let ghost ls = self.listeners@;
        let mut keep: Vec<EdgeListener> = Vec::new();
        let mut i: usize = 0;
        while i < self.listeners.len()
            invariant
                self.listeners@ == ls,
                i <= ls.len(),
                keep@ == ls.take(i as int).filter(|l: EdgeListener| l.waker != waker),
            decreases self.listeners.len() - i,
        {
            let l = self.listeners[i];
            reveal(Seq::filter);
            assert(ls.take(i + 1).drop_last() =~= ls.take(i as int));
            if !(l.waker == waker) {
                keep.push(l);
            }
            i += 1;
        }
        assert(ls.take(ls.len() as int) =~= ls);
        self.listeners = keep;
    }
}

/// How a queue listens to an event: on any edge, on rising or falling
/// edges, or while the level is high or low.
#[derive(Clone, Copy, Debug, PartialEq, Eq, Structural)]
pub enum KernelEventQueueListenMode {
    OnEdge,
    OnEdgeHigh,
    OnEdgeLow,
    OnLevelHigh,
    OnLevelLow,
}

/// What a queue knows of an event it listens to: whether it is triggered,
/// whether it was queued as such, the callback to hand out, how it listens,
/// and the event it listens to (by number).
#[derive(Clone, Copy, Debug, PartialEq, Eq, Structural)]
pub struct KEventQueueInfo {
    pub trigger: bool,
    pub is_in_queue: bool,
    pub callback: u64,
    pub mode: KernelEventQueueListenMode,
    pub upstream: u64,
}

/// The events a queue listens to, by listen id, in a `hashbrown` map.
#[verifier::external_body]
pub struct ListenTable {
    map: HashMap<usize, KEventQueueInfo>,
}

/// A table that listens to nothing.
pub open spec fn no_listeners() -> Map<usize, KEventQueueInfo> {
    Map::empty()
}

/// What a listen table holds.
pub uninterp spec fn listen_table(t: ListenTable) -> Map<usize, KEventQueueInfo>;

impl ListenTable {
    /// `hashbrown::HashMap::new`: an empty map.
    #[verifier::external_body]
    fn new() -> (table: ListenTable)
        ensures
            listen_table(table) == no_listeners(),
    {
        ListenTable { map: HashMap::new() }
    }

    /// `hashbrown::HashMap::insert`: the key now maps to the value; the
    /// value it had before comes back.
    #[verifier::external_body]
    fn insert(&mut self, k: usize, v: KEventQueueInfo) -> (r: Option<KEventQueueInfo>)
        ensures
            listen_table(*final(self)) == listen_table(*old(self)).insert(k, v),
            r == (if listen_table(*old(self)).dom().contains(k) {
                Some(listen_table(*old(self))[k])
            } else {
                None
            }),
    {
        self.map.insert(k, v)
    }

    /// `hashbrown::HashMap::remove`: the key no longer maps to anything;
    /// its value comes back.
    #[verifier::external_body]
    fn remove(&mut self, k: usize) -> (r: Option<KEventQueueInfo>)
        ensures
            listen_table(*final(self)) == listen_table(*old(self)).remove(k),
            r == (if listen_table(*old(self)).dom().contains(k) {
                Some(listen_table(*old(self))[k])
            } else {
                None
            }),
    {
        self.map.remove(&k)
    }

    /// `hashbrown::HashMap::get`, copied out.
    #[verifier::external_body]
    fn get(&self, k: usize) -> (r: Option<KEventQueueInfo>)
        ensures
            r == (if listen_table(*self).dom().contains(k) {
                Some(listen_table(*self)[k])
            } else {
                None
            }),
    {
        self.map.get(&k).copied()
    }
}

/// A queue's state as values: its listen table, the stack of queued listen
/// ids (taken from the end), its level, and the last listen id given out.
pub struct QueueState {
    pub table: Map<usize, KEventQueueInfo>,
    pub queue: Seq<usize>,
    pub level: bool,
    pub next: usize,
}

/// Every queued id is listened to, and every id listened to was given out.
pub open spec fn queue_wf(s: QueueState) -> bool {
    &&& forall|i: int| 0 <= i < s.queue.len() ==> s.table.dom().contains(#[trigger] s.queue[i])
    &&& forall|k: usize| #[trigger] s.table.dom().contains(k) ==> 1 <= k <= s.next
}

/// Whether a mode follows the level rather than its edges.
pub open spec fn is_level_mode(m: KernelEventQueueListenMode) -> bool {
    m == KernelEventQueueListenMode::OnLevelHigh || m == KernelEventQueueListenMode::OnLevelLow
}

/// Whether an edge triggers a listener of the given mode.
pub open spec fn edge_triggers(m: KernelEventQueueListenMode, rising: bool) -> bool {
    match m {
        KernelEventQueueListenMode::OnEdge => true,
        KernelEventQueueListenMode::OnEdgeHigh => rising,
        KernelEventQueueListenMode::OnEdgeLow => !rising,
        KernelEventQueueListenMode::OnLevelHigh => rising,
        KernelEventQueueListenMode::OnLevelLow => !rising,
    }
}

/// Taking the next event from a queue: ids are taken from the end; one
/// whose listener is not triggered is dropped and the next is taken; a
/// triggered one gives its callback and, when it follows a level, is queued
/// again. With nothing left the level falls. The result: the new table,
/// queue and level, the callback, and whether the level fell.
pub open spec fn pop_spec(t: Map<usize, KEventQueueInfo>, q: Seq<usize>, level: bool) -> (Map<
    usize,
    KEventQueueInfo,
>, Seq<usize>, bool, Option<u64>, bool)
    decreases q.len(),
{
    if q.len() == 0 {
        (t, q, false, None, level)
    } else {
        let ev = q.last();
        let info = t[ev];
        let info1 = KEventQueueInfo { is_in_queue: false, ..info };
        if info.trigger {
            if is_level_mode(info.mode) {
                (
                    t.insert(ev, KEventQueueInfo { is_in_queue: true, ..info }),
                    q,
                    level,
                    Some(info.callback),
                    false,
                )
            } else {
                (t.insert(ev, info1), q.drop_last(), level, Some(info.callback), false)
            }
        } else {
            pop_spec(t.insert(ev, info1), q.drop_last(), level)
        }
    }
}

/// Why a queue refuses to listen.
#[derive(Clone, Copy, Debug, PartialEq, Eq, Structural)]
pub enum ListenError {
    /// A queue may not listen to a queue's low level: the two could wait
    /// on each other.
    LevelLowOnQueue,
}

/// What a queue does when it starts to listen: the listen id, the edges to
/// ask the event for, and whether the queue's own level rises.
#[derive(Clone, Copy, Debug, PartialEq, Eq, Structural)]
pub struct ListenOutcome {
    pub id: usize,
    pub trigger_mode: EdgeTrigger,
    pub raise_level: bool,
}

/// The inner state of an event queue.
pub struct KEventQueueInner {
    listening_events: ListenTable,
    event_queue: Vec<usize>,
    level: bool,
    next_callback_id: usize,
}

impl KEventQueueInner {
    /// The queue's state as values.
    pub closed spec fn state(&self) -> QueueState {
        QueueState {
            table: listen_table(self.listening_events),
            queue: self.event_queue@,
            level: self.level,
            next: self.next_callback_id,
        }
    }

    /// An empty, low queue.
    pub fn new() -> (q: Self)
        ensures
            queue_wf(q.state()),
            q.state().table == Map::<usize, KEventQueueInfo>::empty(),
            q.state().queue.len() == 0,
            !q.state().level,
            q.state().next == 0,
    {
        KEventQueueInner {
            listening_events: ListenTable::new(),
            event_queue: Vec::new(),
            level: false,
            next_callback_id: 0,
        }
    }

    /// Starts listening to an event of the given level. A listener of a
    /// level that holds now starts triggered and queued, which raises the
    /// queue's level. The caller adds the listener to the event with the
    /// listen id as callback and the edges that come back.
    pub fn listen(
        &mut self,
        ev_level: bool,
        ev_is_queue: bool,
        callback: u64,
        mode: KernelEventQueueListenMode,
        upstream: u64,
    ) -> (r: Result<ListenOutcome, ListenError>)
        requires
            queue_wf(old(self).state()),
            old(self).state().next < usize::MAX,
        ensures
            queue_wf(final(self).state()),
            ev_is_queue && mode == KernelEventQueueListenMode::OnLevelLow ==> r == Err::<
                ListenOutcome,
                ListenError,
            >(ListenError::LevelLowOnQueue) && final(self).state() == old(self).state(),
            !(ev_is_queue && mode == KernelEventQueueListenMode::OnLevelLow) ==> ({
                let s = old(self).state();
                let initial = match mode {
                    KernelEventQueueListenMode::OnLevelHigh => ev_level,
                    KernelEventQueueListenMode::OnLevelLow => !ev_level,
                    _ => false,
                };
                let id = (s.next + 1) as usize;
                &&& r matches Ok(o)
                &&& o.id == id
                &&& !s.table.dom().contains(id)
                &&& o.trigger_mode.bits == match mode {
                    KernelEventQueueListenMode::OnEdgeHigh => 1u8,
                    KernelEventQueueListenMode::OnEdgeLow => 2u8,
                    _ => 3u8,
                }
                &&& o.raise_level == (initial && !s.level)
                &&& final(self).state().table == s.table.insert(
                    id,
                    KEventQueueInfo {
                        trigger: initial,
                        is_in_queue: initial,
                        callback,
                        mode,
                        upstream,
                    },
                )
                &&& final(self).state().queue == if initial {
                    s.queue.push(id)
                } else {
                    s.queue
                }
                &&& final(self).state().level == (s.level || initial)
                &&& final(self).state().next == id
            }),
    {
        if ev_is_queue && mode == KernelEventQueueListenMode::OnLevelLow {
            return Err(ListenError::LevelLowOnQueue);
        }
        let trigger_mode = match mode {
            KernelEventQueueListenMode::OnEdgeHigh => EdgeTrigger::rising_edge(),
            KernelEventQueueListenMode::OnEdgeLow => EdgeTrigger::falling_edge(),
            _ => EdgeTrigger::both_edges(),
        };
        let initial = match mode {
            KernelEventQueueListenMode::OnLevelHigh => ev_level,
            KernelEventQueueListenMode::OnLevelLow => !ev_level,
            _ => false,
        };
        self.next_callback_id = self.next_callback_id + 1;
        let id = self.next_callback_id;
        self.listening_events.insert(
            id,
            KEventQueueInfo { trigger: initial, is_in_queue: initial, callback, mode, upstream },
        );
        let mut raise_level = false;
        if initial {
            self.event_queue.push(id);
            if !self.level {
                self.level = true;
                raise_level = true;
            }
        }
        proof {
            let s0 = old(self).state();
            let s1 = self.state();
            assert(!s0.table.dom().contains(id));
            assert forall|i: int| 0 <= i < s1.queue.len() implies s1.table.dom().contains(
                #[trigger] s1.queue[i],
            ) by {
                if i < s0.queue.len() {
                    assert(s0.table.dom().contains(s0.queue[i]));
                }
            }
            assert forall|k: usize| #[trigger] s1.table.dom().contains(k) implies 1 <= k <= s1.next by {
                if k != id {
                    assert(s0.table.dom().contains(k));
                }
            }
        }
        Ok(ListenOutcome { id, trigger_mode, raise_level })
    }

    /// Whether a listen id is on the queue.
    pub fn is_queued(&self, id: usize) -> (b: bool)
        ensures
            b == self.state().queue.contains(id),
    {
        let mut i: usize = 0;
        while i < self.event_queue.len()
            invariant
                i <= self.event_queue@.len(),
                forall|j: int| 0 <= j < i ==> self.event_queue@[j] != id,
            decreases self.event_queue.len() - i,
        {
            if self.event_queue[i] == id {
                return true;
            }
            i += 1;
        }
        false
    }

    /// Stops listening: the listen id leaves the table and, if it was
    /// queued as such, the queue. The event it listened to comes back, for
    /// the caller to remove the queue's listeners from it. An id that is on
    /// the queue must be marked as queued, or a later pop would find an
    /// id that is not listened to.
    pub fn unlisten(&mut self, id: usize) -> (r: Option<u64>)
        requires
            queue_wf(old(self).state()),
            old(self).state().table.dom().contains(id) && old(self).state().queue.contains(id)
                ==> old(self).state().table[id].is_in_queue,
        ensures
            queue_wf(final(self).state()),
            ({
                let s = old(self).state();
                if s.table.dom().contains(id) {
                    &&& r == Some(s.table[id].upstream)
                    &&& final(self).state().table == s.table.remove(id)
                    &&& final(self).state().queue == if s.table[id].is_in_queue {
                        s.queue.filter(|e: usize| e != id)
                    } else {
                        s.queue
                    }
                    &&& final(self).state().level == s.level
                    &&& final(self).state().next == s.next
                } else {
                    r is None && final(self).state() == s
                }
            }),
    {
        let ghost s0 = self.state();
        let info = match self.listening_events.remove(id) {
            None => {
                assert(self.state().table =~= s0.table);
                return None;
            },
            Some(info) => info,
        };
        if info.is_in_queue {
            let ghost q = self.event_queue@;
            let mut keep: Vec<usize> = Vec::new();
            let mut i: usize = 0;
            while i < self.event_queue.len()
                invariant
                    self.event_queue@ == q,
                    q == s0.queue,
                    queue_wf(s0),
                    listen_table(self.listening_events) == s0.table.remove(id),
                    i <= q.len(),
                    keep@ == q.take(i as int).filter(|e: usize| e != id),
                    forall|j: int|
                        0 <= j < keep@.len() ==> listen_table(self.listening_events).dom().contains(
                            #[trigger] keep@[j],
                        ),
                decreases self.event_queue.len() - i,
            {
                let e = self.event_queue[i];
                reveal(Seq::filter);
                assert(q.take(i + 1).drop_last() =~= q.take(i as int));
                assert(s0.table.dom().contains(q[i as int]));
                if e != id {
                    keep.push(e);
                }
                i += 1;
            }
            assert(q.take(q.len() as int) =~= q);
            self.event_queue = keep;
        } else {
            proof {
                assert forall|j: int| 0 <= j < self.event_queue@.len() implies self.state().table.dom().contains(
                    #[trigger] self.event_queue@[j],
                ) by {
                    assert(s0.table.dom().contains(s0.queue[j]));
                    assert(s0.queue.contains(s0.queue[j]));
                }
            }
        }
        Some(info.upstream)
    }

    /// An edge of an event the queue listens to: the listener is triggered
    /// as its mode says, and, when triggered and not marked as queued, its
    /// id is queued and the queue's level rises. Whether the level rose
    /// comes back.
    pub fn trigger_edge(&mut self, id: usize, rising: bool) -> (raised: bool)
        requires
            queue_wf(old(self).state()),
            old(self).state().table.dom().contains(id),
        ensures
            queue_wf(final(self).state()),
            ({
                let s = old(self).state();
                let info = s.table[id];
                let t = edge_triggers(info.mode, rising);
                &&& final(self).state().table == s.table.insert(
                    id,
                    KEventQueueInfo { trigger: t, ..info },
                )
                &&& final(self).state().next == s.next
                &&& if t && !info.is_in_queue {
                    &&& final(self).state().queue == s.queue.push(id)
                    &&& final(self).state().level
                    &&& raised == !s.level
                } else {
                    &&& final(self).state().queue == s.queue
                    &&& final(self).state().level == s.level
                    &&& !raised
                }
            }),
    {
        let info = match self.listening_events.get(id) {
            Some(i) => i,
            None => {
                assert(false);
                return false;
            },
        };
        let t = match info.mode {
            KernelEventQueueListenMode::OnEdge => true,
            KernelEventQueueListenMode::OnEdgeHigh => rising,
            KernelEventQueueListenMode::OnEdgeLow => !rising,
            KernelEventQueueListenMode::OnLevelHigh => rising,
            KernelEventQueueListenMode::OnLevelLow => !rising,
        };
        let ghost s0 = self.state();
        self.listening_events.insert(id, KEventQueueInfo { trigger: t, ..info });
        assert(self.state().table.dom() =~= s0.table.dom());
        assert forall|k: usize| #[trigger] self.state().table.dom().contains(k) implies 1 <= k
            <= self.state().next by {
            assert(s0.table.dom().contains(k));
        }
        assert forall|i: int| 0 <= i < self.state().queue.len() implies self.state().table.dom().contains(
            #[trigger] self.state().queue[i],
        ) by {
            assert(s0.table.dom().contains(s0.queue[i]));
        }
        if t && !info.is_in_queue {
            self.event_queue.push(id);
            proof {
                assert forall|i: int| 0 <= i < self.state().queue.len() implies self.state().table.dom().contains(
                    #[trigger] self.state().queue[i],
                ) by {
                    if i < s0.queue.len() {
                        assert(s0.table.dom().contains(s0.queue[i]));
                    }
                }
            }
            assert forall|k: usize| #[trigger] self.state().table.dom().contains(k) implies 1 <= k
                <= self.state().next by {
                assert(s0.table.dom().contains(k));
            }
            let ghost s1 = self.state();
            assert(queue_wf(s1));
            if !self.level {
                self.level = true;
                assert(self.state().table == s1.table && self.state().queue == s1.queue
                    && self.state().next == s1.next);
                return true;
            }
        }
        false
    }

    /// Takes the next event, as `pop_spec` says: its callback, and whether
    /// the queue's level fell.
    pub fn try_pop_event(&mut self) -> (r: (Option<u64>, bool))
        requires
            queue_wf(old(self).state()),
        ensures
            queue_wf(final(self).state()),
            ({
                let s = old(self).state();
                let (t, q, level, cb, fell) = pop_spec(s.table, s.queue, s.level);
                &&& final(self).state().table == t
                &&& final(self).state().queue == q
                &&& final(self).state().level == level
                &&& final(self).state().next == s.next
                &&& r == (cb, fell)
            }),
    {
        loop
            invariant
                queue_wf(self.state()),
                self.state().next == old(self).state().next,
                pop_spec(self.state().table, self.state().queue, self.state().level) == pop_spec(
                    old(self).state().table,
                    old(self).state().queue,
                    old(self).state().level,
                ),
            decreases self.event_queue@.len(),
        {
            let ghost s = self.state();
            let ev = match self.event_queue.pop() {
                None => {
                    let fell = self.level;
                    self.level = false;
                    return (None, fell);
                },
                Some(ev) => ev,
            };
            assert(s.table.dom().contains(s.queue[s.queue.len() - 1]));
            let info = match self.listening_events.get(ev) {
                Some(i) => i,
                None => {
                    assert(false);
                    return (None, false);
                },
            };
            if info.trigger {
                if info.mode == KernelEventQueueListenMode::OnLevelLow || info.mode
                    == KernelEventQueueListenMode::OnLevelHigh {
                    self.listening_events.insert(ev, KEventQueueInfo { is_in_queue: true, ..info });
                    self.event_queue.push(ev);
                    assert(self.event_queue@ =~= s.queue);
                } else {
                    self.listening_events.insert(ev, KEventQueueInfo { is_in_queue: false, ..info });
                }
                return (Some(info.callback), false);
            }
            self.listening_events.insert(ev, KEventQueueInfo { is_in_queue: false, ..info });
        }
    }
}

/// Taking events until none is left leaves the queue empty and low: when
/// `try_pop_event` gives no callback, nothing is queued and the level is
/// low.
pub proof fn lemma_pop_none_empties(t: Map<usize, KEventQueueInfo>, q: Seq<usize>, level: bool)
    ensures
        pop_spec(t, q, level).3 is None ==> pop_spec(t, q, level).1.len() == 0 && !pop_spec(
            t,
            q,
            level,
        ).2,
    decreases q.len(),
{
    if q.len() > 0 {
        let ev = q.last();
        let info = t[ev];
        if !info.trigger {
            lemma_pop_none_empties(
                t.insert(ev, KEventQueueInfo { is_in_queue: false, ..info }),
                q.drop_last(),
                level,
            );
        }
    }
}

/// A listener of a level stays queued while it is triggered: when a pop
/// hands out its callback, its id is still the next to be taken.
pub proof fn lemma_level_listener_stays(t: Map<usize, KEventQueueInfo>, q: Seq<usize>, level: bool)
    requires
        q.len() > 0,
        t[q.last()].trigger,
        is_level_mode(t[q.last()].mode),
    ensures
        pop_spec(t, q, level).3 == Some(t[q.last()].callback),
        pop_spec(t, q, level).1 == q,
        pop_spec(t, q, level).0[q.last()].is_in_queue,
{
}

/// Whether a new listener of `mode` starts triggered, for an event now at
/// `level`.
pub open spec fn listen_initial(mode: KernelEventQueueListenMode, level: bool) -> bool {
    match mode {
        KernelEventQueueListenMode::OnLevelHigh => level,
        KernelEventQueueListenMode::OnLevelLow => !level,
        _ => false,
    }
}

/// The edges a listener of `mode` is told of, as trigger bits: rising for
/// `OnEdgeHigh`, falling for `OnEdgeLow`, both otherwise.
pub open spec fn listen_direction(mode: KernelEventQueueListenMode) -> u8 {
    match mode {
        KernelEventQueueListenMode::OnEdgeHigh => 1u8,
        KernelEventQueueListenMode::OnEdgeLow => 2u8,
        _ => 3u8,
    }
}

/// A queue starts listening to an event, on both sides: the queue records
/// the listener (queued when its level holds now, which raises the queue's
/// own event `queue_event`, whose listeners are told of that edge), and the
/// event gets a listener that wakes `waker` with the listen id as callback
/// for the edges the mode wants. A queue's event cannot be listened to on
/// a low level; then nothing changes.
pub fn listen_on_event(
    inner: &mut KEventQueueInner,
    queue_event: &mut KEvent,
    ev: &mut KEvent,
    waker: u64,
    callback: u64,
    mode: KernelEventQueueListenMode,
    upstream: u64,
) -> (r: (Result<usize, ListenError>, Vec<EdgeNotice>))
    requires
        queue_wf(old(inner).state()),
        old(inner).state().next < usize::MAX,
    ensures
        queue_wf(final(inner).state()),
        final(ev).spec_level() == old(ev).spec_level(),
        final(ev).spec_is_queue() == old(ev).spec_is_queue(),
        final(queue_event).spec_is_queue() == old(queue_event).spec_is_queue(),
        old(ev).spec_is_queue() && mode == KernelEventQueueListenMode::OnLevelLow ==> {
            &&& r.0 == Err::<usize, ListenError>(ListenError::LevelLowOnQueue)
            &&& r.1@.len() == 0
            &&& final(inner).state() == old(inner).state()
            &&& final(ev).spec_listeners() == old(ev).spec_listeners()
            &&& final(queue_event).spec_listeners() == old(queue_event).spec_listeners()
            &&& final(queue_event).spec_level() == old(queue_event).spec_level()
        },
        !(old(ev).spec_is_queue() && mode == KernelEventQueueListenMode::OnLevelLow) ==> {
            let s = old(inner).state();
            let initial = listen_initial(mode, old(ev).spec_level());
            let id = (s.next + 1) as usize;
            &&& r.0 == Ok::<usize, ListenError>(id)
            &&& final(ev).spec_listeners() == old(ev).spec_listeners().push(
                EdgeListener {
                    waker,
                    callback: id as u64,
                    direction: EdgeTrigger { bits: listen_direction(mode) },
                    oneshot: false,
                },
            )
            &&& final(inner).state().table == s.table.insert(
                id,
                KEventQueueInfo { trigger: initial, is_in_queue: initial, callback, mode, upstream },
            )
            &&& final(inner).state().queue == if initial {
                s.queue.push(id)
            } else {
                s.queue
            }
            &&& final(inner).state().level == (s.level || initial)
            &&& final(inner).state().next == id
            &&& if initial && !s.level {
                &&& final(queue_event).spec_level()
                &&& (old(queue_event).spec_level() ==> r.1@.len() == 0
                    && final(queue_event).spec_listeners() == old(queue_event).spec_listeners())
                &&& (!old(queue_event).spec_level() ==> r.1@ == notified(
                    old(queue_event).spec_listeners(),
                    true,
                ) && final(queue_event).spec_listeners() == kept(
                    old(queue_event).spec_listeners(),
                    true,
                ))
            } else {
                &&& r.1@.len() == 0
                &&& final(queue_event).spec_listeners() == old(queue_event).spec_listeners()
                &&& final(queue_event).spec_level() == old(queue_event).spec_level()
            }
        },
{
    let level = ev.level();
    let is_queue = ev.is_queue();
    match inner.listen(level, is_queue, callback, mode, upstream) {
        Err(e) => (Err(e), Vec::new()),
        Ok(o) => {
            ev.add_listener(EdgeListener::new(waker, o.id as u64, o.trigger_mode, false));
            let notices = if o.raise_level {
                queue_event.set_level(true)
            } else {
                Vec::new()
            };
            (Ok(o.id), notices)
        },
    }
}

} // verus!
