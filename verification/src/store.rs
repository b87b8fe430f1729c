//! The table of stream records, and the queue that is threaded through it.

use vstd::prelude::*;
use crate::flow_control::WindowSize;
use crate::stream::Stream;

verus! {

/// The place of a stream in the store. It stays the same as long as the
/// store lives.
pub type Key = usize;

pub struct Store {
    pub slab: Vec<Stream>,
}

impl View for Store {
    type V = Seq<Stream>;

    open spec fn view(&self) -> Seq<Stream> {
        self.slab@
    }
}

/// Whether `after` holds the records of `before` with `stream` at `key`,
/// links into the queue left aside.
pub open spec fn changed_at(
    before: Seq<Stream>,
    after: Seq<Stream>,
    key: int,
    stream: Stream,
) -> bool {
    &&& after.len() == before.len()
    &&& forall|k: int|
        0 <= k < before.len() ==> (#[trigger] after[k]).detached() == (if k == key {
            stream.detached()
        } else {
            before[k].detached()
        })
}

impl Store {
    pub open spec fn wf(&self) -> bool {
        forall|k: int| 0 <= k < self@.len() ==> (#[trigger] self@[k]).wf()
    }

    pub fn new() -> (store: Store)
        ensures
            store@ == Seq::<Stream>::empty(),
            store.wf(),
    {
        Store { slab: Vec::new() }
    }

    pub fn len(&self) -> (n: usize)
        ensures
            n == self@.len(),
    {
        self.slab.len()
    }

    /// Adds a record and returns its key.
    pub fn insert(&mut self, stream: Stream) -> (key: Key)
        ensures
            final(self)@ == old(self)@.push(stream),
            key == old(self)@.len(),
    {
        let key: Key = self.slab.len();
        self.slab.push(stream);
        key
    }

    pub fn get(&self, key: Key) -> (stream: &Stream)
        requires
            key < self@.len(),
        ensures
            *stream == self@[key as int],
    {
        &self.slab[key]
    }

    pub fn get_mut(&mut self, key: Key) -> (stream: &mut Stream)
        requires
            key < old(self)@.len(),
        ensures
            *stream == old(self)@[key as int],
            final(self)@ == old(self)@.update(key as int, *final(stream)),
    {
        &mut self.slab[key]
    }
}

/// The queue of streams that wait for connection capacity. It owns no
/// records: it is threaded through `next_capacity` of the records in the
/// store, and a record is in it while `is_pending_send_capacity` is set.
pub struct List {
    pub head: Option<Key>,
    pub tail: Option<Key>,
    /// The keys of the queued streams, first to last.
    pub keys: Ghost<Seq<Key>>,
}

impl View for List {
    type V = Seq<Key>;

    open spec fn view(&self) -> Seq<Key> {
        self.keys@
    }
}

/// The keys below `n`, in rising order.
pub open spec fn keys_below(n: nat) -> Seq<Key> {
    Seq::new(n, |i: int| i as Key)
}

/// The streams that join the queue when each is granted `incr` bytes while
/// `connection` bytes are free on the connection.
pub open spec fn joining(streams: Seq<Stream>, incr: int, connection: int) -> spec_fn(Key) -> bool {
    |key: Key| streams[key as int].joins(incr, connection)
}

/// The streams of the queue that stay in it when the connection's window
/// has grown.
pub open spec fn waiting_in(streams: Seq<Stream>) -> spec_fn(Key) -> bool {
    |key: Key| streams[key as int].keeps_waiting()
}

impl List {
    /// The queue is what the records say: each stream is queued at most
    /// once, it is queued exactly while it is marked, and the links lead
    /// from the head through every queued stream to the tail.
    pub open spec fn wf(&self, streams: Seq<Stream>) -> bool {
        let keys = self@;
        &&& keys.no_duplicates()
        &&& forall|i: int| 0 <= i < keys.len() ==> #[trigger] keys[i] < streams.len()
        &&& self.head == (if keys.len() > 0 {
            Some(keys[0])
        } else {
            None
        })
        &&& self.tail == (if keys.len() > 0 {
            Some(keys[keys.len() - 1])
        } else {
            None
        })
        &&& forall|i: int|
            #![trigger keys[i]]
            0 <= i < keys.len() ==> streams[keys[i] as int].next_capacity == (if i + 1
                < keys.len() {
                Some(keys[i + 1])
            } else {
                None
            })
        &&& forall|k: Key|
            #![trigger streams[k as int]]
            #![trigger keys.contains(k)]
            k < streams.len() ==> (streams[k as int].is_pending_send_capacity <==> keys.contains(
                k,
            ))
        &&& forall|k: int|
            0 <= k < streams.len() && !(#[trigger] streams[k]).is_pending_send_capacity
                ==> streams[k].next_capacity.is_none()
    }

    pub fn new() -> (list: List)
        ensures
            list@ == Seq::<Key>::empty(),
            list.head.is_none(),
            list.tail.is_none(),
    {
        List { head: None, tail: None, keys: Ghost(Seq::empty()) }
    }

    /// Puts the stream at the end of the queue, unless it is queued already.
    pub fn push(&mut self, store: &mut Store, key: Key)
        requires
            old(self).wf(old(store)@),
            old(store).wf(),
            key < old(store)@.len(),
        ensures
            final(self).wf(final(store)@),
            final(store).wf(),
            changed_at(
                old(store)@,
                final(store)@,
                key as int,
                (Stream { is_pending_send_capacity: true, ..old(store)@[key as int] }),
            ),
            final(self)@ == (if old(store)@[key as int].is_pending_send_capacity {
                old(self)@
            } else {
                old(self)@.push(key)
            }),
    {
        if store.slab[key].is_pending_send_capacity {
            return ;
        }
        let ghost keys = self@;
        assert(!keys.contains(key));
        store.slab[key].is_pending_send_capacity = true;
        match self.tail {
            Some(tail) => {
                assert(tail == keys[keys.len() - 1]);
                store.slab[tail].next_capacity = Some(key);
            },
            None => {
                self.head = Some(key);
            },
        }
        self.tail = Some(key);
        self.keys = Ghost(keys.push(key));
        proof {
            let after = keys.push(key);
            assert forall|k: Key| k < store@.len() implies (store@[k as int].is_pending_send_capacity
                <==> after.contains(k)) by {
                if k == key {
                    assert(after[keys.len() as int] == key);
                } else {
                    assert(store@[k as int].is_pending_send_capacity == old(
                        store,
                    )@[k as int].is_pending_send_capacity);
                    if keys.contains(k) {
                        let i = choose|i: int| 0 <= i < keys.len() && keys[i] == k;
                        assert(after[i] == k);
                    }
                    if after.contains(k) {
                        let i = choose|i: int| 0 <= i < after.len() && after[i] == k;
                        assert(keys[i] == k);
                    }
                }
            }
            assert forall|i: int| 0 <= i < after.len() implies store@[after[i] as int].next_capacity
                == (if i + 1 < after.len() {
                Some(after[i + 1])
            } else {
                None
            }) by {
                if i < keys.len() {
                    assert(after[i] == keys[i]);
                }
            }
        }
    }

    /// Takes the stream at `key` out of the queue, if it is there. The
    /// others keep their order.
    pub fn remove(&mut self, store: &mut Store, key: Key)
        requires
            old(self).wf(old(store)@),
            old(store).wf(),
            key < old(store)@.len(),
        ensures
            final(self).wf(final(store)@),
            final(store).wf(),
            changed_at(
                old(store)@,
                final(store)@,
                key as int,
                (Stream { is_pending_send_capacity: false, ..old(store)@[key as int] }),
            ),
            final(self)@ == (if old(store)@[key as int].is_pending_send_capacity {
                old(self)@.remove(old(self)@.index_of(key))
            } else {
                old(self)@
            }),
    {
        if !store.slab[key].is_pending_send_capacity {
            return ;
        }
        let ghost keys = self@;
        let ghost streams = store@;
        let ghost place = keys.index_of(key);
        let ghost mut i: int = 0;
        let mut prev: Option<Key> = None;
        proof {
            assert(keys.contains(key));
            reveal(linked);
        }
        // The stream is marked, so the queue is not empty.
        let mut cur: Key = self.head.unwrap();
        while cur != key
            invariant
                0 <= i <= place < keys.len(),
                keys == self@,
                keys[place] == key,
                cur == keys[i],
                prev == (if i > 0 {
                    Some(keys[i - 1])
                } else {
                    None
                }),
                store@ == streams,
                linked(*self, streams),
            decreases keys.len() - i,
        {
            proof {
                lemma_place(*self, streams, i);
            }
            // The stream is further down, so this is not the last one.
            prev = Some(cur);
            cur = store.slab[cur].next_capacity.unwrap();
            proof {
                i = i + 1;
            }
        }
        proof {
            lemma_place(*self, streams, i);
            assert(i == place) by {
                reveal(linked);
            }
        }
        let ghost list = *self;
        let stream = &mut store.slab[key];
        let next: Option<Key> = stream.next_capacity;
        stream.next_capacity = None;
        stream.is_pending_send_capacity = false;
        match prev {
            Some(p) => {
                store.slab[p].next_capacity = next;
            },
            None => {
                self.head = next;
            },
        }
        if next.is_none() {
            self.tail = prev;
        }
        self.keys = Ghost(keys.remove(i));
        proof {
            lemma_unlink(list, *self, streams, store@, i);
            reveal(linked);
        }
    }

    /// Looks at every queued stream, first to last, now that the connection
    /// has `connection` free bytes. Each stream is brought up to date by
    /// [`Stream::assign_capacity`], and leaves the queue where that function
    /// says so. The others keep their order.
    pub fn retain(&mut self, store: &mut Store, connection: WindowSize)
        requires
            old(self).wf(old(store)@),
            old(store).wf(),
            0 <= connection,
        ensures
            final(self).wf(final(store)@),
            final(store).wf(),
            final(store)@.len() == old(store)@.len(),
            final(self)@ == old(self)@.filter(waiting_in(old(store)@)),
            forall|k: Key|
                k < old(store)@.len() ==> (#[trigger] final(store)@[k as int]).detached() == (
                if old(self)@.contains(k) {
                    old(store)@[k as int].capacity_assigned(connection as int).detached()
                } else {
                    old(store)@[k as int].detached()
                }),
    {
        let ghost before = store@;
        let ghost all = self@;
        let ghost mut kept: Seq<Key> = Seq::empty();
        let ghost mut i: int = 0;
        let mut prev: Option<Key> = None;
        let mut cur: Option<Key> = self.head;
        proof {
            reveal(Seq::filter);
            reveal(linked);
            assert(all.take(0) =~= Seq::<Key>::empty());
            assert(kept + all.skip(0) =~= all);
        }
        while cur.is_some()
            invariant
                0 <= i <= all.len(),
                0 <= connection,
                all.no_duplicates(),
                store@.len() == before.len(),
                linked(*self, store@),
                store.wf(),
                self@ == kept + all.skip(i),
                kept == all.take(i).filter(waiting_in(before)),
                cur == (if i < all.len() {
                    Some(all[i])
                } else {
                    None
                }),
                prev == (if kept.len() > 0 {
                    Some(kept[kept.len() - 1])
                } else {
                    None
                }),
                visited(before, store@, all.take(i), connection as int),
            decreases all.len() - i,
        {
            let key: Key = cur.unwrap();
            let ghost list = *self;
            let ghost streams = store@;
            let ghost at = kept.len() as int;
            proof {
                assert(self@[at] == all[i]);
                if at + 1 < self@.len() {
                    assert(self@[at + 1] == all[i + 1]);
                }
                if at > 0 {
                    assert(self@[at - 1] == kept[at - 1]);
                }
                lemma_place(list, streams, at);
                lemma_unseen(before, streams, all, i, connection as int);
            }
            let stream = &mut store.slab[key];
            let next: Option<Key> = stream.next_capacity;
            let keep: bool = stream.assign_capacity(connection);
            if keep {
                prev = Some(key);
            } else {
                stream.next_capacity = None;
                match prev {
                    Some(p) => {
                        store.slab[p].next_capacity = next;
                    },
                    None => {
                        self.head = next;
                    },
                }
                if next.is_none() {
                    self.tail = prev;
                }
                self.keys = Ghost(list@.remove(at));
            }
            cur = next;
            proof {
                lemma_seen(before, streams, store@, all, i, connection as int);
                all.take(i).lemma_filter_push(key, waiting_in(before));
                assert(all.take(i + 1) =~= all.take(i).push(key));
                if keep {
                    lemma_visit_kept(list, streams, store@, at);
                    kept = kept.push(key);
                } else {
                    lemma_unlink(list, *self, streams, store@, at);
                }
                assert(self@ =~= kept + all.skip(i + 1));
                i = i + 1;
            }
        }
        proof {
            reveal(linked);
            assert(all.take(i) =~= all);
            assert(self@ =~= kept);
        }
    }
}

/// [`List::wf`], kept folded while the queue is walked.
#[verifier::opaque]
spec fn linked(list: List, streams: Seq<Stream>) -> bool {
    list.wf(streams)
}

/// While the queue is walked: the streams in `seen` have been brought up to
/// date, the others are as they were, links left aside.
spec fn visited(before: Seq<Stream>, now: Seq<Stream>, seen: Seq<Key>, connection: int) -> bool {
    forall|k: Key|
        k < before.len() ==> (#[trigger] now[k as int]).detached() == (if seen.contains(k) {
            before[k as int].capacity_assigned(connection).detached()
        } else {
            before[k as int].detached()
        })
}

/// What the queue says of the stream at place `at`.
proof fn lemma_place(list: List, streams: Seq<Stream>, at: int)
    requires
        linked(list, streams),
        0 <= at < list@.len(),
    ensures
        list@[at] < streams.len(),
        streams[list@[at] as int].is_pending_send_capacity,
        streams[list@[at] as int].next_capacity == (if at + 1 < list@.len() {
            Some(list@[at + 1])
        } else {
            None
        }),
        at > 0 ==> list@[at - 1] < streams.len() && list@[at - 1] != list@[at]
            && streams[list@[at - 1] as int].is_pending_send_capacity,
{
    reveal(linked);
    let keys = list@;
    assert(keys[at] < streams.len());
    assert(keys.contains(keys[at]));
    if at > 0 {
        assert(keys[at - 1] < streams.len());
        assert(keys.contains(keys[at - 1]));
    }
}

/// The stream that the walk has reached has not been looked at before.
proof fn lemma_unseen(
    before: Seq<Stream>,
    now: Seq<Stream>,
    all: Seq<Key>,
    i: int,
    connection: int,
)
    requires
        all.no_duplicates(),
        0 <= i < all.len(),
        all[i] < before.len(),
        visited(before, now, all.take(i), connection),
    ensures
        now[all[i] as int].detached() == before[all[i] as int].detached(),
{
    let seen = all.take(i);
    if seen.contains(all[i]) {
        let j = choose|j: int| 0 <= j < seen.len() && seen[j] == all[i];
        assert(all[j] == all[i]);
    }
}

/// One step of the walk: the stream at place `i` of the old queue is brought
/// up to date, and no other record changes but in its link.
proof fn lemma_seen(
    before: Seq<Stream>,
    earlier: Seq<Stream>,
    now: Seq<Stream>,
    all: Seq<Key>,
    i: int,
    connection: int,
)
    requires
        0 <= i < all.len(),
        all[i] < before.len(),
        earlier.len() == before.len(),
        now.len() == before.len(),
        visited(before, earlier, all.take(i), connection),
        earlier[all[i] as int].detached() == before[all[i] as int].detached(),
        now[all[i] as int].detached() == earlier[all[i] as int].capacity_assigned(
            connection,
        ).detached(),
        forall|k: int|
            0 <= k < before.len() && k != all[i] ==> (#[trigger] now[k]).detached()
                == earlier[k].detached(),
    ensures
        visited(before, now, all.take(i + 1), connection),
{
    let key = all[i];
    let seen = all.take(i);
    let seen_now = all.take(i + 1);
    assert(seen_now =~= seen.push(key));
    assert forall|k: Key| k < before.len() implies (#[trigger] now[k as int]).detached() == (
    if seen_now.contains(k) {
        before[k as int].capacity_assigned(connection).detached()
    } else {
        before[k as int].detached()
    }) by {
        if k == key {
            assert(seen_now[i] == key);
        } else {
            assert(now[k as int].detached() == earlier[k as int].detached());
            if seen.contains(k) {
                let j = choose|j: int| 0 <= j < seen.len() && seen[j] == k;
                assert(seen_now[j] == k);
            }
            if seen_now.contains(k) {
                let j = choose|j: int| 0 <= j < seen_now.len() && seen_now[j] == k;
                assert(seen[j] == k);
            }
        }
    }
}

/// A queue stays what the records say when no record changes its mark or
/// its link.
pub proof fn lemma_wf_same_links(list: List, before: Seq<Stream>, after: Seq<Stream>)
    requires
        list.wf(before),
        after.len() == before.len(),
        forall|k: int|
            0 <= k < before.len() ==> (#[trigger] after[k]).is_pending_send_capacity
                == before[k].is_pending_send_capacity && after[k].next_capacity
                == before[k].next_capacity,
    ensures
        list.wf(after),
{
    let keys = list@;
    assert forall|i: int| 0 <= i < keys.len() implies after[keys[i] as int].next_capacity == (if i
        + 1 < keys.len() {
        Some(keys[i + 1])
    } else {
        None
    }) by {
        assert(keys[i] < before.len());
        assert(after[keys[i] as int].next_capacity == before[keys[i] as int].next_capacity);
    }
    assert forall|k: Key| k < after.len() implies (after[k as int].is_pending_send_capacity
        <==> keys.contains(k)) by {
        assert(after[k as int].is_pending_send_capacity
            == before[k as int].is_pending_send_capacity);
    }
    assert forall|k: int|
        0 <= k < after.len() && !(#[trigger] after[k]).is_pending_send_capacity implies after[k].next_capacity.is_none() by {
        assert(before[k].next_capacity.is_none());
    }
}

/// A queue stays what the records say when a record that is not queued is
/// added to the store.
pub proof fn lemma_wf_insert(list: List, streams: Seq<Stream>, stream: Stream)
    requires
        list.wf(streams),
        !stream.is_pending_send_capacity,
        stream.next_capacity.is_none(),
    ensures
        list.wf(streams.push(stream)),
{
    let keys = list@;
    let after = streams.push(stream);
    assert forall|i: int| 0 <= i < keys.len() implies after[keys[i] as int].next_capacity == (if i
        + 1 < keys.len() {
        Some(keys[i + 1])
    } else {
        None
    }) by {
        assert(keys[i] < streams.len());
        assert(after[keys[i] as int] == streams[keys[i] as int]);
    }
    assert forall|k: Key| k < after.len() implies (after[k as int].is_pending_send_capacity
        <==> keys.contains(k)) by {
        if k < streams.len() {
            assert(after[k as int] == streams[k as int]);
        } else {
            if keys.contains(k) {
                let i = choose|i: int| 0 <= i < keys.len() && keys[i] == k;
                assert(keys[i] < streams.len());
            }
        }
    }
    assert forall|k: int|
        0 <= k < after.len() && !(#[trigger] after[k]).is_pending_send_capacity implies after[k].next_capacity.is_none() by {
        if k < streams.len() {
            assert(after[k] == streams[k]);
        }
    }
}

/// A queue stays what the records say when the record at one of its places
/// changes in nothing but what the queue does not read.
proof fn lemma_visit_kept(list: List, before: Seq<Stream>, after: Seq<Stream>, at: int)
    requires
        linked(list, before),
        0 <= at < list@.len(),
        after.len() == before.len(),
        forall|k: int|
            0 <= k < before.len() && k != list@[at] ==> #[trigger] after[k] == before[k],
        after[list@[at] as int].is_pending_send_capacity,
        after[list@[at] as int].next_capacity == before[list@[at] as int].next_capacity,
    ensures
        linked(list, after),
{
    reveal(linked);
    let keys = list@;
    assert forall|i: int| 0 <= i < keys.len() implies after[keys[i] as int].next_capacity == (if i
        + 1 < keys.len() {
        Some(keys[i + 1])
    } else {
        None
    }) by {
        assert(keys[i] < before.len());
    }
    assert forall|k: Key| k < after.len() implies (after[k as int].is_pending_send_capacity
        <==> keys.contains(k)) by {
        if k == keys[at] {
        } else {
            assert(after[k as int] == before[k as int]);
        }
    }
}

/// Taking the stream at place `at` out of the queue: its record loses mark
/// and link, the record before it is linked to the one behind it, and head
/// and tail follow.
proof fn lemma_unlink(
    list: List,
    cut: List,
    before: Seq<Stream>,
    after: Seq<Stream>,
    at: int,
)
    requires
        linked(list, before),
        0 <= at < list@.len(),
        after.len() == before.len(),
        cut@ == list@.remove(at),
        cut.head == (if at == 0 {
            before[list@[at] as int].next_capacity
        } else {
            list.head
        }),
        cut.tail == (if at + 1 == list@.len() {
            if at > 0 {
                Some(list@[at - 1])
            } else {
                None
            }
        } else {
            list.tail
        }),
        !after[list@[at] as int].is_pending_send_capacity,
        after[list@[at] as int].next_capacity.is_none(),
        at > 0 ==> after[list@[at - 1] as int].next_capacity == before[list@[at] as int].next_capacity
            && after[list@[at - 1] as int].is_pending_send_capacity,
        forall|k: int|
            0 <= k < before.len() && k != list@[at] && (at == 0 || k != list@[at - 1])
                ==> #[trigger] after[k] == before[k],
    ensures
        linked(cut, after),
{
    reveal(linked);
    let keys = list@;
    let rest = cut@;
    assert(rest.len() == keys.len() - 1);
    assert forall|i: int| 0 <= i < rest.len() implies rest[i] == (if i < at {
        keys[i]
    } else {
        keys[i + 1]
    }) by {}
    assert(rest.no_duplicates()) by {
        assert forall|i: int, j: int| 0 <= i < rest.len() && 0 <= j < rest.len() && i != j implies rest[i]
            != rest[j] by {
            let a = if i < at { i } else { i + 1 };
            let b = if j < at { j } else { j + 1 };
            assert(keys[a] != keys[b]);
        }
    }
    assert forall|i: int| 0 <= i < rest.len() implies #[trigger] rest[i] < after.len() by {
        let a = if i < at { i } else { i + 1 };
        assert(keys[a] < before.len());
    }
    assert(keys[at] < before.len());
    if at + 1 < keys.len() {
        assert(keys[at + 1] < before.len());
    }
    if at > 0 {
        assert(keys[at - 1] < before.len());
    }
    assert forall|i: int| 0 <= i < rest.len() implies after[rest[i] as int].next_capacity == (if i
        + 1 < rest.len() {
        Some(rest[i + 1])
    } else {
        None
    }) by {
        let a = if i < at { i } else { i + 1 };
        assert(keys[a] < before.len());
        assert(keys[a] != keys[at]);
        if at > 0 && a != at - 1 {
            assert(keys[a] != keys[at - 1]);
        }
    }
    assert forall|k: Key| k < after.len() implies (after[k as int].is_pending_send_capacity
        <==> rest.contains(k)) by {
        if k == keys[at] {
            if rest.contains(k) {
                let i = choose|i: int| 0 <= i < rest.len() && rest[i] == k;
                let a = if i < at { i } else { i + 1 };
                assert(keys[a] == keys[at]);
            }
        } else {
            if keys.contains(k) {
                let a = choose|a: int| 0 <= a < keys.len() && keys[a] == k;
                let i = if a < at { a } else { a - 1 };
                assert(rest[i] == k);
            }
            if rest.contains(k) {
                let i = choose|i: int| 0 <= i < rest.len() && rest[i] == k;
                let a = if i < at { i } else { i + 1 };
                assert(keys[a] == k);
            }
            if at > 0 && k == keys[at - 1] {
                assert(rest[at - 1] == k);
            } else {
                assert(after[k as int] == before[k as int]);
            }
        }
    }
    assert forall|k: int|
        0 <= k < after.len() && !(#[trigger] after[k]).is_pending_send_capacity implies after[k].next_capacity.is_none() by {
        if k == keys[at] {
        } else if at > 0 && k == keys[at - 1] {
        } else {
            assert(after[k] == before[k]);
        }
    }
}

/// A stream is in the queue at most once, and exactly while its record is
/// marked.
pub proof fn lemma_queued_once(list: List, streams: Seq<Stream>, key: Key)
    requires
        list.wf(streams),
        key < streams.len(),
    ensures
        forall|i: int, j: int|
            0 <= i < list@.len() && 0 <= j < list@.len() && list@[i] == list@[j] ==> i == j,
        streams[key as int].is_pending_send_capacity <==> list@.contains(key),
{
}

/// When the connection's window has grown, the queue keeps those of its
/// streams that still wait, and no others: a stream whose window is all
/// covered, or that can no longer send, has left it.
pub proof fn lemma_retained(queue: Seq<Key>, streams: Seq<Stream>, key: Key)
    ensures
        queue.filter(waiting_in(streams)).contains(key) <==> queue.contains(key)
            && streams[key as int].keeps_waiting(),
        streams[key as int].unadvertised_send_window == 0 ==> !queue.filter(
            waiting_in(streams),
        ).contains(key),
{
    let kept = queue.filter(waiting_in(streams));
    if kept.contains(key) {
        queue.lemma_filter_contains_rev(waiting_in(streams), key);
        let i = choose|i: int| 0 <= i < kept.len() && kept[i] == key;
        queue.lemma_filter_pred(waiting_in(streams), i);
    }
    if queue.contains(key) && streams[key as int].keeps_waiting() {
        let i = choose|i: int| 0 <= i < queue.len() && queue[i] == key;
        queue.lemma_filter_contains(waiting_in(streams), i);
    }
}

} // verus!
