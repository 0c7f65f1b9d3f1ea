//! Kernel channels: bounded message queues between two endpoints, with the
//! readable and closed signals that waiters watch.
use vstd::prelude::*;
use std::collections::VecDeque;

verus! {

broadcast use vstd::std_specs::vecdeque::group_vec_dequeue_axioms;

/// Number of messages past which a send is refused.
pub const CHANNEL_CAPACITY: usize = 10000;

/// A message: bytes and, optionally, kernel handles.
pub struct ChannelMessage<H> {
    pub data: Vec<u8>,
    pub handles: Option<Vec<H>>,
}

impl<H> ChannelMessage<H> {
    /// The number of handles carried.
    pub open spec fn handle_count(&self) -> nat {
        match self.handles {
            Some(h) => h@.len(),
            None => 0,
        }
    }
}

/// Why a send failed.
#[derive(Clone, Copy, Debug, PartialEq, Eq, Structural)]
pub enum SyscallError {
    ChannelClosed,
    ChannelFull,
}

/// Why a read failed: nothing queued on an open channel; nothing queued on
/// a closed one; or the next message is larger than the reader accepts.
#[derive(Clone, Copy, Debug, PartialEq, Eq, Structural)]
pub enum ReadError {
    Empty,
    Closed,
    Size { min_bytes: usize, min_handles: usize },
}

/// The signals of an endpoint.
#[derive(Clone, Copy, Debug, PartialEq, Eq, Structural)]
pub struct ChannelSignals {
    pub readable: bool,
    pub channel_closed: bool,
}

/// One endpoint: whether it is open, its signals and its queue of
/// messages waiting to be read.
pub struct KChannelInner<H> {
    signal: ChannelSignals,
    open: bool,
    queue: VecDeque<ChannelMessage<H>>,
}

impl<H> KChannelInner<H> {
    pub closed spec fn is_open(&self) -> bool {
        self.open
    }

    pub closed spec fn signals(&self) -> ChannelSignals {
        self.signal
    }

    pub closed spec fn queue(&self) -> Seq<ChannelMessage<H>> {
        self.queue@
    }

    /// The endpoint's invariant: a queued message always shows as readable,
    /// the closed signal says whether the endpoint is closed, and the queue
    /// holds at most one message past the capacity.
    pub open spec fn wf(&self) -> bool {
        &&& self.queue().len() > 0 ==> self.signals().readable
        &&& self.signals().channel_closed == !self.is_open()
        &&& self.queue().len() <= CHANNEL_CAPACITY + 1
    }

    /// An open endpoint with nothing queued and no signal raised.
    pub fn new() -> (c: Self)
        ensures
            c.wf(),
            c.is_open(),
            c.queue() == Seq::<ChannelMessage<H>>::empty(),
            c.signals() == (ChannelSignals { readable: false, channel_closed: false }),
    {
        KChannelInner {
            signal: ChannelSignals { readable: false, channel_closed: false },
            open: true,
            queue: VecDeque::new(),
        }
    }

    /// Closes this endpoint: marks it closed and drops what is queued.
    pub fn close(&mut self)
        requires
            old(self).wf(),
        ensures
            final(self).wf(),
            !final(self).is_open(),
            final(self).signals().channel_closed,
            final(self).signals().readable == old(self).signals().readable,
            final(self).queue() == Seq::<ChannelMessage<H>>::empty(),
    {
        self.open = false;
        self.signal.channel_closed = true;
        self.queue.clear();
    }

    /// Marks this endpoint closed because its peer closed; what is queued
    /// stays to be drained.
    pub fn peer_closed(&mut self)
        requires
            old(self).wf(),
        ensures
            final(self).wf(),
            !final(self).is_open(),
            final(self).signals().channel_closed,
            final(self).signals().readable == old(self).signals().readable,
            final(self).queue() == old(self).queue(),
    {
        self.open = false;
        self.signal.channel_closed = true;
    }

    /// Queues a message sent by the peer: refused when the endpoint is
    /// closed or holds more than the capacity; otherwise the message goes to
    /// the back of the queue and the endpoint becomes readable.
    pub fn push(&mut self, msg: ChannelMessage<H>) -> (r: Result<(), SyscallError>)
        requires
            old(self).wf(),
        ensures
            final(self).wf(),
            final(self).is_open() == old(self).is_open(),
            !old(self).is_open() ==> r == Err::<(), SyscallError>(SyscallError::ChannelClosed)
                && final(self).queue() == old(self).queue() && final(self).signals() == old(
                self,
            ).signals(),
            old(self).is_open() && old(self).queue().len() > CHANNEL_CAPACITY ==> r == Err::<
                (),
                SyscallError,
            >(SyscallError::ChannelFull) && final(self).queue() == old(self).queue()
                && final(self).signals() == old(self).signals(),
            old(self).is_open() && old(self).queue().len() <= CHANNEL_CAPACITY ==> r == Ok::<
                (),
                SyscallError,
            >(()) && final(self).queue() == old(self).queue().push(msg)
                && final(self).signals().readable && final(self).signals().channel_closed == old(
                self,
            ).signals().channel_closed,
    {
        if !self.open {
            return Err(SyscallError::ChannelClosed);
        }
        if self.queue.len() > CHANNEL_CAPACITY {
            return Err(SyscallError::ChannelFull);
        }
        self.queue.push_back(msg);
        self.signal.readable = true;
        Ok(())
    }

    /// Takes the next message if the reader accepts its size. Even a closed
    /// endpoint is drained first; with nothing queued the error says whether
    /// the endpoint is open. A message that is too large stays at the front
    /// and the error gives its size. After a read the endpoint is readable
    /// exactly when messages remain.
    pub fn read(&mut self, max_bytes: usize, max_handles: usize) -> (r: Result<
        ChannelMessage<H>,
        ReadError,
    >)
        requires
            old(self).wf(),
        ensures
            final(self).wf(),
            final(self).is_open() == old(self).is_open(),
            final(self).signals().channel_closed == old(self).signals().channel_closed,
            old(self).queue().len() == 0 ==> final(self).queue() == old(self).queue()
                && final(self).signals() == old(self).signals() && r == Err::<
                ChannelMessage<H>,
                ReadError,
            >(
                if old(self).is_open() {
                    ReadError::Empty
                } else {
                    ReadError::Closed
                },
            ),
            old(self).queue().len() > 0 ==> ({
                let m = old(self).queue()[0];
                if m.data@.len() > max_bytes || m.handle_count() > max_handles {
                    &&& r == Err::<ChannelMessage<H>, ReadError>(
                        ReadError::Size {
                            min_bytes: m.data@.len() as usize,
                            min_handles: m.handle_count() as usize,
                        },
                    )
                    &&& final(self).queue() == old(self).queue()
                    &&& final(self).signals() == old(self).signals()
                } else {
                    &&& r == Ok::<ChannelMessage<H>, ReadError>(m)
                    &&& final(self).queue() == old(self).queue().drop_first()
                    &&& final(self).signals().readable == (final(self).queue().len() > 0)
                }
            }),
    {
        let packet = match self.queue.pop_front() {
            Some(p) => p,
            None => {
                return Err(
                    if self.open {
                        ReadError::Empty
                    } else {
                        ReadError::Closed
                    },
                );
            },
        };
        let handles_len = match &packet.handles {
            Some(h) => h.len(),
            None => 0,
        };
        if packet.data.len() > max_bytes || handles_len > max_handles {
            let err = ReadError::Size { min_bytes: packet.data.len(), min_handles: handles_len };
            let ghost rest = self.queue@;
            self.queue.push_front(packet);
            assert(self.queue@ =~= old(self).queue());
            return Err(err);
        }
        let empty = self.queue.len() == 0;
        self.signal.readable = !empty;
        assert(self.queue@ =~= old(self).queue().drop_first());
        Ok(packet)
    }
}

/// The two endpoints of a channel.
#[derive(Clone, Copy, Debug, PartialEq, Eq, Structural)]
pub enum Side {
    Left,
    Right,
}

/// A channel: what each endpoint has queued for reading, and whether each
/// endpoint's handle is still alive.
pub struct KChannelPair<H> {
    pub left: KChannelInner<H>,
    pub right: KChannelInner<H>,
}

/// Creates a channel whose two endpoints are open and empty.
pub fn channel_create<H>() -> (c: KChannelPair<H>)
    ensures
        c.left.wf() && c.right.wf(),
        c.left.is_open() && c.right.is_open(),
        c.left.queue().len() == 0 && c.right.queue().len() == 0,
        c.left.signals() == (ChannelSignals { readable: false, channel_closed: false }),
        c.right.signals() == (ChannelSignals { readable: false, channel_closed: false }),
{
    KChannelPair { left: KChannelInner::new(), right: KChannelInner::new() }
}

impl<H> KChannelPair<H> {
    /// Sends from one endpoint: the message is queued at the other one.
    pub fn send(&mut self, from: Side, msg: ChannelMessage<H>) -> (r: Result<(), SyscallError>)
        requires
            old(self).left.wf() && old(self).right.wf(),
        ensures
            final(self).left.wf() && final(self).right.wf(),
            from == Side::Left ==> final(self).left == old(self).left,
            from == Side::Right ==> final(self).right == old(self).right,
            ({
                let (o, n) = if from == Side::Left {
                    (old(self).right, final(self).right)
                } else {
                    (old(self).left, final(self).left)
                };
                &&& n.is_open() == o.is_open()
                &&& !o.is_open() ==> r == Err::<(), SyscallError>(SyscallError::ChannelClosed)
                    && n.queue() == o.queue() && n.signals() == o.signals()
                &&& o.is_open() && o.queue().len() > CHANNEL_CAPACITY ==> r == Err::<
                    (),
                    SyscallError,
                >(SyscallError::ChannelFull) && n.queue() == o.queue() && n.signals()
                    == o.signals()
                &&& o.is_open() && o.queue().len() <= CHANNEL_CAPACITY ==> r == Ok::<
                    (),
                    SyscallError,
                >(()) && n.queue() == o.queue().push(msg) && n.signals().readable
                    && n.signals().channel_closed == o.signals().channel_closed
            }),
    {
        match from {
            Side::Left => self.right.push(msg),
            Side::Right => self.left.push(msg),
        }
    }

    /// Closes one endpoint: its queue is dropped, and the peer is marked
    /// closed but keeps its queue to drain.
    pub fn close(&mut self, side: Side)
        requires
            old(self).left.wf() && old(self).right.wf(),
        ensures
            final(self).left.wf() && final(self).right.wf(),
            !final(self).left.is_open() && !final(self).right.is_open(),
            final(self).left.signals().channel_closed && final(self).right.signals().channel_closed,
            side == Side::Left ==> final(self).left.queue().len() == 0 && final(self).right.queue()
                == old(self).right.queue(),
            side == Side::Right ==> final(self).right.queue().len() == 0 && final(self).left.queue()
                == old(self).left.queue(),
    {
        match side {
            Side::Left => {
                self.left.close();
                self.right.peer_closed();
            },
            Side::Right => {
                self.right.close();
                self.left.peer_closed();
            },
        }
    }
}

/// Messages come out in the order they went in: a message sent to an empty
/// queue is the next one read, after which the queue is empty again; sent
/// to a non-empty queue, it leaves the next message to read unchanged and
/// waits behind the others.
pub proof fn lemma_messages_in_order<H>(q: Seq<ChannelMessage<H>>, m: ChannelMessage<H>)
    ensures
        q.len() == 0 ==> q.push(m)[0] == m && q.push(m).drop_first() == q,
        q.len() > 0 ==> q.push(m)[0] == q[0] && q.push(m).drop_first() == q.drop_first().push(m),
{
    if q.len() == 0 {
        assert(q.push(m).drop_first() =~= q);
    } else {
        assert(q.push(m).drop_first() =~= q.drop_first().push(m));
    }
}

} // verus!
