//! The send side of a connection: which streams may be opened, how much
//! each stream and the connection may send, and which streams wait for the
//! connection's window to grow.

use vstd::prelude::*;
use futures::task::Task;
use crate::config::{Config, Role};
use crate::error::{ConnectionError, Reason, User};
use crate::ext::notify;
use crate::flow_control::{WindowSize, MAX_WINDOW_SIZE};
use crate::frame::{Data, Frame, Headers, Reset, Settings, StreamId, WindowUpdate, MAX_STREAM_ID};
use crate::prioritize::{Prioritize, Prioritized};
use crate::state::State;
use crate::store::{
    changed_at, joining, keys_below, lemma_wf_same_links, waiting_in, Key, List, Store,
};
use crate::stream::{lemma_lowered_window, Stream};

verus! {

/// Whether the caller may go on or has to wait to be woken.
#[derive(Clone, Copy, Debug, PartialEq, Eq, Structural)]
pub enum Async {
    Ready,
    NotReady,
}

/// Manages state transitions related to outbound frames.
pub struct Send {
    /// Which end of the connection this is.
    pub role: Role,
    /// Maximum number of locally initiated streams.
    pub max_streams: Option<usize>,
    /// Current number of locally initiated streams.
    pub num_streams: usize,
    /// Stream identifier to use for the next stream that is opened.
    pub next_stream_id: StreamId,
    /// Initial window size of locally initiated streams.
    pub init_window_sz: WindowSize,
    /// The streams that wait for connection capacity.
    pub pending_capacity: List,
    /// Task awaiting notification to open a new stream.
    pub blocked_open: Option<Task>,
    /// The frames that wait to be written, and the connection's window.
    pub prioritize: Prioritize,
}

impl Send {
    /// The identifier of the first stream that an endpoint opens.
    pub open spec fn first_stream_id(role: Role) -> StreamId {
        if role == Role::Server {
            StreamId(2)
        } else {
            StreamId(1)
        }
    }

    /// What holds of the send side by itself: stream identifiers keep the
    /// parity of the endpoint's role, and every open stream has used one.
    pub open spec fn inv(&self) -> bool {
        &&& 0 <= self.init_window_sz
        &&& Self::first_stream_id(self.role).0 <= self.next_stream_id.0 <= MAX_STREAM_ID + 2
        &&& self.next_stream_id.0 % 2 == Self::first_stream_id(self.role).0 % 2
        &&& 2 * self.num_streams <= self.next_stream_id.0
        &&& self.prioritize.wf()
    }

    /// What holds of the send side together with the store of its streams:
    /// every record is sound, and the queue of waiting streams is what the
    /// records say.
    pub open spec fn wf(&self, store: &Store) -> bool {
        &&& self.inv()
        &&& store.wf()
        &&& self.pending_capacity.wf(store@)
    }

    /// Create a new `Send`.
    pub fn new(role: Role, config: &Config) -> (send: Send)
        requires
            config.wf(),
        ensures
            send.inv(),
            send.role == role,
            send.max_streams == config.max_local_initiated,
            send.num_streams == 0,
            send.next_stream_id == Self::first_stream_id(role),
            send.init_window_sz == config.init_local_window_sz,
            send.pending_capacity@ == Seq::<Key>::empty(),
            send.pending_capacity.head.is_none(),
            send.pending_capacity.tail.is_none(),
            send.blocked_open.is_none(),
            send.prioritize@ == Seq::<Prioritized>::empty(),
            send.prioritize.available() == config.init_local_window_sz,
    {
        let next_stream_id: u32 = if role.is_server() {
            2
        } else {
            1
        };
        Send {
            role,
            max_streams: config.max_local_initiated,
            num_streams: 0,
            next_stream_id: StreamId(next_stream_id),
            init_window_sz: config.init_local_window_sz,
            pending_capacity: List::new(),
            blocked_open: None,
            prioritize: Prioritize::new(config),
        }
    }

    /// The peer grants the connection more window. Every stream that waits
    /// for connection capacity is looked at, in the order of the queue, to
    /// see whether the connection now covers more of its window.
    pub fn recv_connection_window_update(&mut self, frame: WindowUpdate, store: &mut Store) -> (r:
        Result<(), ConnectionError>)
        requires
            old(self).wf(old(store)),
        ensures
            final(self).wf(final(store)),
            !old(self).prioritize.flow_control.can_expand(frame.size_increment as int) ==> {
                &&& r == Err::<(), ConnectionError>(ConnectionError::Proto(Reason::FlowControlError))
                &&& *final(self) == *old(self)
                &&& final(store)@ == old(store)@
            },
            old(self).prioritize.flow_control.can_expand(frame.size_increment as int) ==> {
                &&& r == Ok::<(), ConnectionError>(())
                &&& *final(self) == (Send {
                    prioritize: old(self).prioritize.granted(frame.size_increment as int),
                    pending_capacity: final(self).pending_capacity,
                    ..*old(self)
                })
                &&& final(self).pending_capacity@ == old(self).pending_capacity@.filter(
                    waiting_in(old(store)@),
                )
                &&& final(store)@.len() == old(store)@.len()
                &&& forall|k: Key|
                    k < old(store)@.len() ==> (#[trigger] final(store)@[k as int]).detached() == (
                    if old(self).pending_capacity@.contains(k) {
                        old(store)@[k as int].capacity_assigned(
                            final(self).prioritize.available(),
                        ).detached()
                    } else {
                        old(store)@[k as int].detached()
                    })
            },
    {
        match self.prioritize.recv_window_update(frame) {
            Ok(()) => {},
            Err(e) => {
                return Err(e);
            },
        }
        // Get the current connection capacity
        let connection: WindowSize = self.prioritize.available_window();
        // Walk each stream pending capacity and see if this change to the
        // connection window can increase the advertised capacity of the
        // stream.
        self.pending_capacity.retain(store, connection);
        Ok(())
    }

    /// The peer grants the stream at `key` more window. The part of the
    /// stream's window that the connection does not cover is set aside, and
    /// the stream is queued to wait for it, once. The stream's task is woken
    /// unless the whole grant was set aside.
    pub fn recv_stream_window_update(
        &mut self,
        frame: WindowUpdate,
        store: &mut Store,
        key: Key,
    ) -> (r: Result<(), ConnectionError>)
        requires
            old(self).wf(old(store)),
            key < old(store)@.len(),
        ensures
            final(self).wf(final(store)),
            !old(store)@[key as int].can_expand(frame.size_increment as int) ==> {
                &&& r == Err::<(), ConnectionError>(ConnectionError::Proto(Reason::FlowControlError))
                &&& *final(self) == *old(self)
                &&& final(store)@ == old(store)@
            },
            old(store)@[key as int].can_expand(frame.size_increment as int) ==> {
                &&& r == Ok::<(), ConnectionError>(())
                &&& old(self).has_granted(
                    old(store)@,
                    final(self),
                    final(store)@,
                    key,
                    frame.size_increment as int,
                    old(self).prioritize.available(),
                )
            },
    {
        let connection: WindowSize = self.prioritize.available_window();
        self.grant_capacity(store, key, frame.size_increment(), connection)
    }

    /// Whether `after` and `streams_after` are `self` and `streams` after a
    /// grant of `incr` bytes to the stream at `key`, with `connection` bytes
    /// free on the connection: the record is [`Stream::granted`], the stream
    /// has joined the queue if a part of its window is now uncovered and it
    /// was not queued, and nothing else has changed.
    pub open spec fn has_granted(
        &self,
        streams: Seq<Stream>,
        after: &Send,
        streams_after: Seq<Stream>,
        key: Key,
        incr: int,
        connection: int,
    ) -> bool {
        &&& *after == (Send { pending_capacity: after.pending_capacity, ..*self })
        &&& changed_at(
            streams,
            streams_after,
            key as int,
            streams[key as int].granted(incr, connection),
        )
        &&& after.pending_capacity@ == (if streams[key as int].joins(incr, connection) {
            self.pending_capacity@.push(key)
        } else {
            self.pending_capacity@
        })
    }

    /// Grants `incr` bytes to the stream at `key` while `connection` bytes
    /// are free on the connection. This is what a WINDOW_UPDATE for the
    /// stream does, and what a raised initial window size does to every
    /// stream. A grant that would take the stream's window over the
    /// protocol's maximum is a flow-control error and changes nothing; a
    /// stream that cannot send ignores the grant.
    pub fn grant_capacity(
        &mut self,
        store: &mut Store,
        key: Key,
        incr: u32,
        connection: WindowSize,
    ) -> (r: Result<(), ConnectionError>)
        requires
            old(self).wf(old(store)),
            key < old(store)@.len(),
            0 <= connection,
        ensures
            final(self).wf(final(store)),
            !old(store)@[key as int].can_expand(incr as int) ==> {
                &&& r == Err::<(), ConnectionError>(ConnectionError::Proto(Reason::FlowControlError))
                &&& *final(self) == *old(self)
                &&& final(store)@ == old(store)@
            },
            old(store)@[key as int].can_expand(incr as int) ==> {
                &&& r == Ok::<(), ConnectionError>(())
                &&& old(self).has_granted(
                    old(store)@,
                    final(self),
                    final(store)@,
                    key,
                    incr as int,
                    connection as int,
                )
            },
    {
        let stream = &mut store.slab[key];
        let unadvertised: WindowSize = stream.unadvertised_send_window;
        let effective: WindowSize = match stream.state.send_flow_control() {
            Some(flow) => {
                // Expand the full window
                match flow.expand_window(incr) {
                    Ok(()) => {},
                    Err(reason) => {
                        return Err(ConnectionError::Proto(reason));
                    },
                }
                flow.effective_window_size()
            },
            None => {
                return Ok(());
            },
        };
        if connection < effective {
            stream.unadvertised_send_window = effective - connection;
            proof {
                lemma_wf_same_links(self.pending_capacity, old(store)@, store@);
            }
            self.pending_capacity.push(store, key);
        } else {
            proof {
                lemma_wf_same_links(self.pending_capacity, old(store)@, store@);
            }
        }
        let ghost linked = store@;
        let stream = &mut store.slab[key];
        if stream.unadvertised_send_window as i64 == incr as i64 + unadvertised as i64 {
            // The entire window update is unadvertised, no need to do
            // anything else
            return Ok(());
        }
        stream.notify_send();
        proof {
            lemma_wf_same_links(self.pending_capacity, linked, store@);
        }
        Ok(())
    }

    /// Queues a DATA frame on the stream at `key`. Its payload is taken from
    /// the stream's window, where it must fit beside the part that the
    /// connection does not cover. A payload larger than any window can be
    /// never fits.
    pub fn send_data(&mut self, frame: Data, store: &mut Store, key: Key) -> (r: Result<
        (),
        ConnectionError,
    >)
        requires
            old(self).wf(old(store)),
            key < old(store)@.len(),
        ensures
            final(self).wf(final(store)),
            match old(store)@[key as int].claim_error(frame.flow_len() as int) {
                Some(e) => {
                    &&& r == Err::<(), ConnectionError>(e)
                    &&& *final(self) == *old(self)
                    &&& final(store)@ == old(store)@
                },
                None => {
                    &&& r == Ok::<(), ConnectionError>(())
                    &&& final(store)@ == old(store)@.update(
                        key as int,
                        old(store)@[key as int].data_sent(
                            frame.flow_len() as int,
                            frame.end_stream,
                        ),
                    )
                    &&& *final(self) == (Send { prioritize: final(self).prioritize, ..*old(self) })
                    &&& final(self).prioritize.has_queued(
                        &old(self).prioritize,
                        key,
                        Frame::Data(frame),
                    )
                },
            },
    {
        let sz: usize = frame.len();
        let stream = &mut store.slab[key];
        match stream.claim_capacity(sz) {
            Ok(()) => {},
            Err(e) => {
                return Err(e);
            },
        }
        if frame.is_end_stream() {
            match stream.state.send_close() {
                Ok(()) => {},
                Err(e) => {
                    return Err(e);
                },
            }
        }
        proof {
            lemma_wf_same_links(self.pending_capacity, old(store)@, store@);
        }
        self.prioritize.queue_frame(Frame::Data(frame), key);
        Ok(())
    }

    /// Queues the HEADERS frame that opens the local side of the stream at
    /// `key`. Nothing is queued where the stream cannot send headers.
    pub fn send_headers(&mut self, frame: Headers, store: &mut Store, key: Key) -> (r: Result<
        (),
        ConnectionError,
    >)
        requires
            old(self).wf(old(store)),
            key < old(store)@.len(),
        ensures
            final(self).wf(final(store)),
            match old(store)@[key as int].state.send_opened(
                old(self).init_window_sz,
                frame.end_stream,
            ) {
                Some(next) => {
                    &&& r == Ok::<(), ConnectionError>(())
                    &&& final(store)@ == old(store)@.update(
                        key as int,
                        (Stream { state: next, ..old(store)@[key as int] }),
                    )
                    &&& *final(self) == (Send { prioritize: final(self).prioritize, ..*old(self) })
                    &&& final(self).prioritize.has_queued(
                        &old(self).prioritize,
                        key,
                        Frame::Headers(frame),
                    )
                },
                None => {
                    &&& r == Err::<(), ConnectionError>(
                        ConnectionError::User(User::UnexpectedFrameType),
                    )
                    &&& *final(self) == *old(self)
                    &&& final(store)@ == old(store)@
                },
            },
    {
        let stream = &mut store.slab[key];
        // Update the state
        match stream.state.send_open(self.init_window_sz, frame.is_end_stream()) {
            Ok(()) => {},
            Err(e) => {
                return Err(e);
            },
        }
        proof {
            lemma_wf_same_links(self.pending_capacity, old(store)@, store@);
        }
        // Queue the frame for sending
        self.prioritize.queue_frame(Frame::Headers(frame), key);
        Ok(())
    }

    /// Marks the end of what the local side sends on the stream, without a
    /// frame of its own.
    pub fn send_eos(&mut self, stream: &mut Stream) -> (r: Result<(), ConnectionError>)
        requires
            old(stream).wf(),
        ensures
            final(stream).wf(),
            *final(self) == *old(self),
            match old(stream).state.send_closed() {
                Some(next) => r == Ok::<(), ConnectionError>(()) && *final(stream) == (Stream {
                    state: next,
                    ..*old(stream)
                }),
                None => r == Err::<(), ConnectionError>(
                    ConnectionError::Proto(Reason::ProtocolError),
                ) && *final(stream) == *old(stream),
            },
    {
        stream.state.send_close()
    }

    /// Resets the stream at `key` and queues the RST_STREAM frame that tells
    /// the peer. An idle stream cannot be reset.
    pub fn send_reset(&mut self, reason: Reason, store: &mut Store, key: Key) -> (r: Result<
        (),
        ConnectionError,
    >)
        requires
            old(self).wf(old(store)),
            key < old(store)@.len(),
        ensures
            final(self).wf(final(store)),
            old(store)@[key as int].state.can_reset() ==> {
                &&& r == Ok::<(), ConnectionError>(())
                &&& final(store)@ == old(store)@.update(
                    key as int,
                    (Stream { state: State::Closed(Some(reason)), ..old(store)@[key as int] }),
                )
                &&& *final(self) == (Send { prioritize: final(self).prioritize, ..*old(self) })
                &&& final(self).prioritize.has_queued(
                    &old(self).prioritize,
                    key,
                    Frame::Reset(Reset { stream_id: old(store)@[key as int].id, reason }),
                )
            },
            !old(store)@[key as int].state.can_reset() ==> {
                &&& r == Err::<(), ConnectionError>(ConnectionError::Proto(Reason::ProtocolError))
                &&& *final(self) == *old(self)
                &&& final(store)@ == old(store)@
            },
    {
        let stream = &mut store.slab[key];
        match stream.state.send_reset(reason) {
            Ok(()) => {},
            Err(e) => {
                return Err(e);
            },
        }
        let frame = Reset::new(stream.id, reason);
        proof {
            lemma_wf_same_links(self.pending_capacity, old(store)@, store@);
        }
        self.prioritize.queue_frame(Frame::Reset(frame), key);
        Ok(())
    }

    /// Whether the peer's settings cannot be applied: the initial window
    /// size is larger than any window may be, or the window of some stream
    /// cannot follow the change.
    pub open spec fn settings_error(&self, settings: Settings, streams: Seq<Stream>) -> bool {
        match settings.initial_window_size {
            Some(val) => val > MAX_WINDOW_SIZE || exists|k: int|
                0 <= k < streams.len() && !(#[trigger] streams[k]).can_resize(
                    self.init_window_sz as int,
                    val as int,
                ),
            None => false,
        }
    }

    /// The send side with the peer's settings noted.
    pub open spec fn with_settings(self, settings: Settings) -> Send {
        Send {
            max_streams: match settings.max_concurrent_streams {
                Some(max) => Some(max as usize),
                None => self.max_streams,
            },
            init_window_sz: match settings.initial_window_size {
                Some(val) => val as WindowSize,
                None => self.init_window_sz,
            },
            ..self
        }
    }

    /// Applies the peer's settings. A limit on concurrent streams counts
    /// for streams that are opened from now on. A change of the initial
    /// window size moves the window of every stream that can send by the
    /// difference. Lowering may leave a window in debt. Raising is a grant
    /// to each stream, in the order of their keys, as in
    /// [`Send::recv_stream_window_update`]. Settings that cannot be applied
    /// are a flow-control error and change nothing.
    #[verifier::loop_isolation(false)]
    pub fn apply_remote_settings(&mut self, settings: &Settings, store: &mut Store) -> (r: Result<
        (),
        ConnectionError,
    >)
        requires
            old(self).wf(old(store)),
        ensures
            final(self).wf(final(store)),
            old(self).settings_error(*settings, old(store)@) ==> {
                &&& r == Err::<(), ConnectionError>(ConnectionError::Proto(Reason::FlowControlError))
                &&& *final(self) == *old(self)
                &&& final(store)@ == old(store)@
            },
            !old(self).settings_error(*settings, old(store)@) ==> {
                &&& r == Ok::<(), ConnectionError>(())
                &&& *final(self) == (Send {
                    pending_capacity: final(self).pending_capacity,
                    ..old(self).with_settings(*settings)
                })
                &&& final(store)@.len() == old(store)@.len()
                &&& forall|k: int|
                    0 <= k < old(store)@.len() ==> (#[trigger] final(store)@[k]).detached() == old(
                        store,
                    )@[k].resized(
                        old(self).init_window_sz as int,
                        final(self).init_window_sz as int,
                        old(self).prioritize.available(),
                    ).detached()
                &&& final(self).pending_capacity@ == (if final(self).init_window_sz > old(
                    self,
                ).init_window_sz {
                    old(self).pending_capacity@ + keys_below(old(store)@.len()).filter(
                        joining(
                            old(store)@,
                            final(self).init_window_sz - old(self).init_window_sz,
                            old(self).prioritize.available(),
                        ),
                    )
                } else {
                    old(self).pending_capacity@
                })
            },
    {
        let ghost before = store@;
        let old_val: WindowSize = self.init_window_sz;
        let val: WindowSize = match settings.initial_window_size() {
            Some(val) => {
                if val > MAX_WINDOW_SIZE as u32 {
                    return Err(ConnectionError::Proto(Reason::FlowControlError));
                }
                val as WindowSize
            },
            None => old_val,
        };
        let n: usize = store.len();
        let mut k: usize = 0;
        while k < n
            invariant
                k <= n,
                n == store@.len(),
                store@ == before,
                store.wf(),
                0 <= old_val,
                0 <= val,
                forall|j: int|
                    0 <= j < k ==> (#[trigger] before[j]).can_resize(old_val as int, val as int),
            decreases n - k,
        {
            if !store.get(k).fits_resize(old_val, val) {
                return Err(ConnectionError::Proto(Reason::FlowControlError));
            }
            k = k + 1;
        }
        if let Some(max) = settings.max_concurrent_streams() {
            self.max_streams = Some(max as usize);
        }
        self.init_window_sz = val;
        if val < old_val {
            let dec: u32 = (old_val - val) as u32;
            let mut k: usize = 0;
            while k < n
                invariant
                    k <= n,
                    n == before.len(),
                    store@.len() == before.len(),
                    forall|j: int| 0 <= j < n ==> (#[trigger] before[j]).wf(),
                    forall|j: int| 0 <= j < n ==> (#[trigger] before[j]).can_shrink(dec as int),
                    forall|j: int|
                        0 <= j < n ==> #[trigger] store@[j] == (if j < k {
                            before[j].lowered(dec as int)
                        } else {
                            before[j]
                        }),
                decreases n - k,
            {
                store.slab[k].lower_window(dec);
                k = k + 1;
            }
            proof {
                lemma_wf_same_links(self.pending_capacity, before, store@);
                assert forall|j: int| 0 <= j < store@.len() implies (#[trigger] store@[j]).wf() by {
                    assert(before[j].wf());
                    assert(before[j].can_shrink(dec as int));
                    lemma_lowered_window(before[j], dec as int);
                }
            }
        } else if val > old_val {
            let inc: u32 = (val - old_val) as u32;
            let connection: WindowSize = self.prioritize.available_window();
            let ghost start = *self;
            let mut k: usize = 0;
            proof {
                reveal(Seq::filter);
                assert(keys_below(0) =~= Seq::<Key>::empty());
                assert(start.pending_capacity@ + Seq::<Key>::empty() =~= start.pending_capacity@);
            }
            while k < n
                invariant
                    k <= n,
                    n == before.len(),
                    store@.len() == before.len(),
                    0 <= connection,
                    self.wf(store),
                    *self == (Send { pending_capacity: self.pending_capacity, ..start }),
                    forall|j: int|
                        0 <= j < n ==> (#[trigger] before[j]).can_expand(inc as int),
                    forall|j: int|
                        0 <= j < n ==> (#[trigger] store@[j]).detached() == (if j < k {
                            before[j].granted(inc as int, connection as int).detached()
                        } else {
                            before[j].detached()
                        }),
                    self.pending_capacity@ == start.pending_capacity@ + keys_below(k as nat).filter(
                        joining(before, inc as int, connection as int),
                    ),
                decreases n - k,
            {
                let ghost streams = store@;
                proof {
                    assert(streams[k as int].detached() == before[k as int].detached());
                    assert(before[k as int].can_expand(inc as int));
                }
                let granted = self.grant_capacity(store, k, inc, connection);
                proof {
                    assert(granted.is_ok());
                    keys_below(k as nat).lemma_filter_push(
                        k,
                        joining(before, inc as int, connection as int),
                    );
                    assert(keys_below((k + 1) as nat) =~= keys_below(k as nat).push(k));
                    let found = keys_below(k as nat).filter(
                        joining(before, inc as int, connection as int),
                    );
                    assert(start.pending_capacity@ + found.push(k) =~= (start.pending_capacity@
                        + found).push(k));
                    assert forall|j: int| 0 <= j < n implies (#[trigger] store@[j]).detached() == (
                    if j < k + 1 {
                        before[j].granted(inc as int, connection as int).detached()
                    } else {
                        before[j].detached()
                    }) by {
                        if j != k {
                            assert(store@[j].detached() == streams[j].detached());
                        }
                    }
                }
                k = k + 1;
            }
        }
        Ok(())
    }

    /// Why no stream can be opened now, if none can.
    pub open spec fn open_error(&self) -> Option<ConnectionError> {
        if self.role == Role::Server {
            Some(ConnectionError::User(User::UnexpectedFrameType))
        } else if self.at_capacity() {
            Some(ConnectionError::User(User::Rejected))
        } else if self.next_stream_id.0 > MAX_STREAM_ID {
            Some(ConnectionError::User(User::OverflowedStreamId))
        } else {
            None
        }
    }

    /// Whether as many streams are open as the peer allows.
    pub open spec fn at_capacity(&self) -> bool {
        match self.max_streams {
            Some(max) => max <= self.num_streams,
            None => false,
        }
    }

    /// What an attempt to open a stream returns: the record of a stream with
    /// the next identifier, or the reason why none can be opened.
    pub open spec fn open_result(&self) -> Result<Stream, ConnectionError> {
        match self.open_error() {
            Some(e) => Err(e),
            None => Ok(Stream::fresh(self.next_stream_id)),
        }
    }

    /// The send side after an attempt to open a stream: one more stream is
    /// open and the next identifier is two further, or nothing has changed
    /// if the attempt failed.
    pub open spec fn after_open(self) -> Send {
        if self.open_error().is_none() {
            Send {
                num_streams: (self.num_streams + 1) as usize,
                next_stream_id: StreamId((self.next_stream_id.0 + 2) as u32),
                ..self
            }
        } else {
            self
        }
    }

    /// The send side after `n` attempts to open a stream, one after another.
    pub open spec fn after_opens(self, n: nat) -> Send
        decreases n,
    {
        if n == 0 {
            self
        } else {
            self.after_opens((n - 1) as nat).after_open()
        }
    }

    /// The send side after one of its streams was closed: if there is room
    /// for a stream again, the task that waits to open one is woken.
    pub open spec fn closed_one(self) -> Send {
        let left = (self.num_streams - 1) as usize;
        Send {
            num_streams: left,
            blocked_open: if (Send { num_streams: left, ..self }).at_capacity() {
                self.blocked_open
            } else {
                None
            },
            ..self
        }
    }

    /// Tells whether a stream can be opened now. If as many are open as the
    /// peer allows, `task` is noted as the one to wake when one closes; it
    /// takes the place of a task noted before.
    pub fn poll_open_ready(&mut self, task: Task) -> (r: Result<Async, ConnectionError>)
        ensures
            old(self).role == Role::Server ==> r == Err::<Async, ConnectionError>(
                ConnectionError::User(User::UnexpectedFrameType),
            ) && *final(self) == *old(self),
            old(self).role != Role::Server && old(self).at_capacity() ==> r == Ok::<
                Async,
                ConnectionError,
            >(Async::NotReady) && *final(self) == (Send {
                blocked_open: Some(task),
                ..*old(self)
            }),
            old(self).role != Role::Server && !old(self).at_capacity() ==> r == Ok::<
                Async,
                ConnectionError,
            >(Async::Ready) && *final(self) == *old(self),
    {
        match self.ensure_can_open() {
            Ok(()) => {},
            Err(e) => {
                return Err(e);
            },
        }
        if let Some(max) = self.max_streams {
            if max <= self.num_streams {
                self.blocked_open = Some(task);
                return Ok(Async::NotReady);
            }
        }
        Ok(Async::Ready)
    }

    /// Update state reflecting a new, locally opened stream.
    ///
    /// Returns the record of the stream, which has the next identifier of
    /// this endpoint. Fails, and changes nothing, if this endpoint is a
    /// server, if as many streams are open as the peer allows, or if the
    /// identifiers are used up.
    pub fn open(&mut self) -> (r: Result<Stream, ConnectionError>)
        requires
            old(self).inv(),
        ensures
            final(self).inv(),
            r == old(self).open_result(),
            *final(self) == old(self).after_open(),
    {
        match self.ensure_can_open() {
            Ok(()) => {},
            Err(e) => {
                return Err(e);
            },
        }
        if let Some(max) = self.max_streams {
            if max <= self.num_streams {
                return Err(ConnectionError::User(User::Rejected));
            }
        }
        if self.next_stream_id.0 > MAX_STREAM_ID {
            return Err(ConnectionError::User(User::OverflowedStreamId));
        }
        let ret = Stream::new(self.next_stream_id);
        // Increment the number of locally initiated streams
        self.num_streams = self.num_streams + 1;
        self.next_stream_id = StreamId(self.next_stream_id.0 + 2);
        Ok(ret)
    }

    /// Takes the next frame that may be written now out of the queue.
    pub fn poll_complete(&mut self) -> (r: Option<Prioritized>)
        requires
            old(self).inv(),
        ensures
            final(self).inv(),
            *final(self) == (Send { prioritize: final(self).prioritize, ..*old(self) }),
            match r {
                Some(first) => {
                    &&& old(self).prioritize.is_ready()
                    &&& first == old(self).prioritize@[0]
                    &&& final(self).prioritize@ == old(self).prioritize@.subrange(
                        1,
                        old(self).prioritize@.len() as int,
                    )
                    &&& final(self).prioritize.flow_control == old(
                        self,
                    ).prioritize.flow_control.claimed(first.frame.flow_len() as int)
                    &&& final(self).prioritize.buffered_data == old(self).prioritize.buffered_data
                        - first.frame.flow_len()
                },
                None => !old(self).prioritize.is_ready() && *final(self) == *old(self),
            },
    {
        self.prioritize.pop_frame()
    }

    /// Fails if no stream with this identifier has been opened from this
    /// end yet.
    pub fn ensure_not_idle(&self, id: StreamId) -> (r: Result<(), ConnectionError>)
        ensures
            id.0 >= self.next_stream_id.0 ==> r == Err::<(), ConnectionError>(
                ConnectionError::Proto(Reason::ProtocolError),
            ),
            id.0 < self.next_stream_id.0 ==> r == Ok::<(), ConnectionError>(()),
    {
        if id.0 >= self.next_stream_id.0 {
            return Err(ConnectionError::Proto(Reason::ProtocolError));
        }
        Ok(())
    }

    /// One of the streams that this end opened has closed.
    pub fn dec_num_streams(&mut self)
        requires
            old(self).inv(),
            old(self).num_streams > 0,
        ensures
            final(self).inv(),
            *final(self) == old(self).closed_one(),
    {
        self.num_streams = self.num_streams - 1;
        let room: bool = match self.max_streams {
            Some(max) => self.num_streams < max,
            None => true,
        };
        if room {
            if let Some(task) = self.blocked_open.take() {
                notify(task);
            }
        }
    }

    /// Succeeds if this end may open streams: a server may not.
    fn ensure_can_open(&self) -> (r: Result<(), ConnectionError>)
        ensures
            self.role == Role::Server ==> r == Err::<(), ConnectionError>(
                ConnectionError::User(User::UnexpectedFrameType),
            ),
            self.role != Role::Server ==> r == Ok::<(), ConnectionError>(()),
    {
        if self.role.is_server() {
            // Servers cannot open streams. PushPromise must first be reserved.
            return Err(ConnectionError::User(User::UnexpectedFrameType));
        }
        Ok(())
    }

    /// Tells how many bytes the stream may send now, and notes `task` as the
    /// one to wake when that becomes more. Grants that wait are applied to
    /// the window first. A stream that cannot send gets zero and is left as
    /// it is.
    pub fn window_size(&mut self, stream: &mut Stream, task: Task) -> (sz: usize)
        requires
            old(stream).wf(),
        ensures
            final(stream).wf(),
            *final(self) == *old(self),
            *final(stream) == old(stream).observed(task),
            sz == old(stream).sendable(),
    {
        let unadvertised: WindowSize = stream.unadvertised_send_window;
        let window: WindowSize = match stream.state.send_flow_control() {
            Some(flow) => {
                // We are observing the window, so apply the pending updates
                flow.apply_window_update();
                flow.effective_window_size()
            },
            None => {
                return 0;
            },
        };
        // Track the current task
        stream.send_task = Some(task);
        if unadvertised >= window {
            return 0;
        }
        (window - unadvertised) as usize
    }
}

/// However many streams are opened one after another, no more are open
/// than the peer allows, if no more were open before. Each stream that is
/// opened takes the next identifier, two above the one before it, so the
/// identifiers have moved on by twice the number of streams opened.
pub proof fn lemma_opens_in_a_row(send: Send, n: nat)
    requires
        send.inv(),
    ensures
        send.after_opens(n).inv(),
        send.after_opens(n).role == send.role,
        send.after_opens(n).max_streams == send.max_streams,
        send.after_opens(n).num_streams >= send.num_streams,
        send.after_opens(n).next_stream_id.0 - send.next_stream_id.0 == 2 * (send.after_opens(
            n,
        ).num_streams - send.num_streams),
        send.max_streams.is_some() && send.num_streams <= send.max_streams.unwrap()
            ==> send.after_opens(n).num_streams <= send.max_streams.unwrap(),
    decreases n,
{
    if n > 0 {
        lemma_opens_in_a_row(send, (n - 1) as nat);
    }
}

/// A client that has as many streams open as the peer allows is refused the
/// next one, and the refusal changes nothing.
pub proof fn lemma_rejected_at_limit(send: Send)
    requires
        send.role == Role::Client,
        send.at_capacity(),
    ensures
        send.open_result() == Err::<Stream, ConnectionError>(
            ConnectionError::User(User::Rejected),
        ),
        send.after_open() == send,
{
}

/// A stream that is opened gets the identifier that was next, and the next
/// one is two above it: identifiers rise in steps of two and keep the
/// parity that they started with, odd for a client.
pub proof fn lemma_open_steps_by_two(send: Send)
    requires
        send.inv(),
        send.open_error().is_none(),
    ensures
        send.open_result().is_ok(),
        send.open_result().unwrap().id == send.next_stream_id,
        send.after_open().next_stream_id.0 == send.next_stream_id.0 + 2,
        send.next_stream_id.0 % 2 == 1,
        send.after_open().open_result().is_ok() ==> send.after_open().open_result().unwrap().id.0
            == send.open_result().unwrap().id.0 + 2,
{
}

/// However often a stream is granted window that the connection does not
/// cover, it is in the queue once.
pub proof fn lemma_grants_queue_once(
    send: Send,
    streams: Seq<Stream>,
    after: Send,
    streams_after: Seq<Stream>,
    key: Key,
    incr: int,
    connection: int,
)
    requires
        send.pending_capacity.wf(streams),
        key < streams.len(),
        send.has_granted(streams, &after, streams_after, key, incr, connection),
    ensures
        after.pending_capacity@.no_duplicates(),
        streams[key as int].is_pending_send_capacity ==> after.pending_capacity@
            == send.pending_capacity@,
        streams[key as int].is_short(incr, connection) ==> after.pending_capacity@.contains(key),
{
    let queue = send.pending_capacity@;
    if streams[key as int].joins(incr, connection) {
        assert(!queue.contains(key));
        assert(queue.push(key)[queue.len() as int] == key);
    } else if streams[key as int].is_short(incr, connection) {
        assert(queue.contains(key));
    }
}

} // verus!
