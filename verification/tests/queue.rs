use std::sync::{Arc, Mutex};

use bytes::Bytes;
use futures::executor::{spawn, Notify};
use futures::future::lazy;
use futures::task::{current, Task};
use futures::Async as Polled;

use h2_send::config::{Config, Role};
use h2_send::flow_control::FlowControl;
use h2_send::frame::{Headers, StreamId, WindowUpdate};
use h2_send::send::Send;
use h2_send::store::{Key, List, Store};
use h2_send::stream::Stream;

struct Wakes(Mutex<usize>);

impl Notify for Wakes {
    fn notify(&self, _id: usize) {
        *self.0.lock().unwrap() += 1;
    }
}

fn wakes() -> Arc<Wakes> {
    Arc::new(Wakes(Mutex::new(0)))
}

fn count(w: &Arc<Wakes>) -> usize {
    *w.0.lock().unwrap()
}

fn task(w: &Arc<Wakes>) -> Task {
    let mut run = spawn(lazy(|| Ok::<Task, ()>(current())));
    match run.poll_future_notify(w, 0) {
        Ok(Polled::Ready(t)) => t,
        _ => panic!("the task did not come back"),
    }
}

fn client(window: i32) -> Send {
    Send::new(Role::Client, &Config { max_local_initiated: None, init_local_window_sz: window })
}

fn opened(send: &mut Send, store: &mut Store) -> Key {
    let stream = send.open().ok().unwrap();
    let id = stream.id;
    let key = store.insert(stream);
    let frame = Headers { stream_id: id, header_block: Bytes::new(), end_stream: false };
    assert_eq!(send.send_headers(frame, store, key), Ok(()));
    key
}

fn grant(id: u32, incr: u32) -> WindowUpdate {
    WindowUpdate::new(StreamId(id), incr)
}

fn walk(list: &List, store: &Store) -> Vec<Key> {
    let mut keys: Vec<Key> = Vec::new();
    let mut cur = list.head;
    while let Some(key) = cur {
        assert!(store.get(key).is_pending_send_capacity);
        keys.push(key);
        cur = store.get(key).next_capacity;
    }
    assert_eq!(list.tail, keys.last().copied());
    let mut marked: Vec<Key> = Vec::new();
    for key in 0..store.len() {
        if store.get(key).is_pending_send_capacity {
            marked.push(key);
        } else {
            assert!(store.get(key).next_capacity.is_none());
        }
    }
    let mut sorted = keys.clone();
    sorted.sort();
    assert_eq!(sorted, marked);
    keys
}

fn plain_store(n: u32) -> Store {
    let mut store = Store::new();
    for i in 0..n {
        store.insert(Stream::new(StreamId(2 * i + 1)));
    }
    store
}

#[test]
fn new_queue_is_empty() {
    let list = List::new();
    let store = plain_store(3);
    assert!(list.head.is_none());
    assert!(list.tail.is_none());
    assert_eq!(walk(&list, &store), Vec::<Key>::new());
}

#[test]
fn push_keeps_the_order_of_arrival() {
    let mut list = List::new();
    let mut store = plain_store(4);
    list.push(&mut store, 2);
    assert_eq!(walk(&list, &store), vec![2]);
    list.push(&mut store, 0);
    list.push(&mut store, 3);
    assert_eq!(walk(&list, &store), vec![2, 0, 3]);
    assert_eq!(list.head, Some(2));
    assert_eq!(list.tail, Some(3));
    assert_eq!(store.get(2).next_capacity, Some(0));
    assert_eq!(store.get(0).next_capacity, Some(3));
    assert_eq!(store.get(3).next_capacity, None);
    assert!(!store.get(1).is_pending_send_capacity);
}

#[test]
fn push_of_a_queued_stream_changes_nothing() {
    let mut list = List::new();
    let mut store = plain_store(3);
    list.push(&mut store, 1);
    list.push(&mut store, 2);
    list.push(&mut store, 1);
    list.push(&mut store, 2);
    list.push(&mut store, 1);
    assert_eq!(walk(&list, &store), vec![1, 2]);
}

#[test]
fn remove_takes_out_head_middle_and_tail() {
    let mut list = List::new();
    let mut store = plain_store(5);
    for key in 0..5 {
        list.push(&mut store, key);
    }
    list.remove(&mut store, 2);
    assert_eq!(walk(&list, &store), vec![0, 1, 3, 4]);
    list.remove(&mut store, 0);
    assert_eq!(walk(&list, &store), vec![1, 3, 4]);
    list.remove(&mut store, 4);
    assert_eq!(walk(&list, &store), vec![1, 3]);
    // A stream that is not queued is left alone.
    list.remove(&mut store, 4);
    list.remove(&mut store, 0);
    assert_eq!(walk(&list, &store), vec![1, 3]);
    list.remove(&mut store, 3);
    list.remove(&mut store, 1);
    assert_eq!(walk(&list, &store), Vec::<Key>::new());
    assert!(list.head.is_none());
    assert!(list.tail.is_none());
    list.push(&mut store, 4);
    assert_eq!(walk(&list, &store), vec![4]);
}

#[test]
fn retain_drops_streams_that_wait_for_nothing() {
    let mut list = List::new();
    let mut store = plain_store(4);
    for key in 0..4 {
        list.push(&mut store, key);
    }
    // Idle streams cannot send, so none of them waits for capacity.
    list.retain(&mut store, 10);
    assert_eq!(walk(&list, &store), Vec::<Key>::new());
}

#[test]
fn stream_is_queued_once_however_often_it_is_granted() {
    let mut send = client(0);
    let mut store = Store::new();
    let a = opened(&mut send, &mut store);
    let b = opened(&mut send, &mut store);
    let c = opened(&mut send, &mut store);
    assert_eq!(send.prioritize.available_window(), 0);
    assert_eq!(send.recv_stream_window_update(grant(1, 10), &mut store, a), Ok(()));
    assert_eq!(send.recv_stream_window_update(grant(3, 20), &mut store, b), Ok(()));
    assert_eq!(send.recv_stream_window_update(grant(3, 5), &mut store, b), Ok(()));
    assert_eq!(send.recv_stream_window_update(grant(5, 30), &mut store, c), Ok(()));
    assert_eq!(send.recv_stream_window_update(grant(1, 1), &mut store, a), Ok(()));
    assert_eq!(send.recv_stream_window_update(grant(3, 1), &mut store, b), Ok(()));
    assert_eq!(walk(&send.pending_capacity, &store), vec![a, b, c]);
    assert_eq!(store.get(a).unadvertised_send_window, 11);
    assert_eq!(store.get(b).unadvertised_send_window, 26);
    assert_eq!(store.get(c).unadvertised_send_window, 30);
}

#[test]
fn connection_growth_is_offered_to_every_waiting_stream() {
    let woken_a = wakes();
    let woken_b = wakes();
    let woken_c = wakes();
    let mut send = client(0);
    let mut store = Store::new();
    let a = opened(&mut send, &mut store);
    let b = opened(&mut send, &mut store);
    let c = opened(&mut send, &mut store);
    assert_eq!(send.recv_stream_window_update(grant(1, 10), &mut store, a), Ok(()));
    assert_eq!(send.recv_stream_window_update(grant(3, 25), &mut store, b), Ok(()));
    assert_eq!(send.recv_stream_window_update(grant(5, 30), &mut store, c), Ok(()));
    assert_eq!(send.window_size(store.get_mut(a), task(&woken_a)), 0);
    assert_eq!(send.window_size(store.get_mut(b), task(&woken_b)), 0);
    assert_eq!(send.window_size(store.get_mut(c), task(&woken_c)), 0);

    assert_eq!(send.recv_connection_window_update(grant(0, 15), &mut store), Ok(()));
    assert_eq!(store.get(a).unadvertised_send_window, 0);
    assert_eq!(store.get(b).unadvertised_send_window, 10);
    assert_eq!(store.get(c).unadvertised_send_window, 15);
    assert_eq!((count(&woken_a), count(&woken_b), count(&woken_c)), (1, 1, 1));
    assert_eq!(walk(&send.pending_capacity, &store), vec![a, b, c]);
    assert_eq!(send.window_size(store.get_mut(a), task(&woken_a)), 10);
    assert_eq!(send.window_size(store.get_mut(b), task(&woken_b)), 15);
    assert_eq!(send.window_size(store.get_mut(c), task(&woken_c)), 15);

    // The stream whose window is all covered leaves at the next growth.
    assert_eq!(send.recv_connection_window_update(grant(0, 1), &mut store), Ok(()));
    assert_eq!(walk(&send.pending_capacity, &store), vec![b, c]);
    assert_eq!(store.get(a).unadvertised_send_window, 0);
    assert_eq!(store.get(b).unadvertised_send_window, 9);
    assert_eq!(store.get(c).unadvertised_send_window, 14);
    assert_eq!((count(&woken_a), count(&woken_b), count(&woken_c)), (1, 2, 2));

    // A stream that can no longer send leaves too, from the head.
    assert_eq!(send.send_eos(store.get_mut(b)), Ok(()));
    assert_eq!(send.recv_connection_window_update(grant(0, 1), &mut store), Ok(()));
    assert_eq!(walk(&send.pending_capacity, &store), vec![c]);
    assert_eq!(store.get(b).unadvertised_send_window, 9);
    assert_eq!(store.get(c).unadvertised_send_window, 13);
    assert_eq!(send.pending_capacity.head, Some(c));
    assert_eq!(send.pending_capacity.tail, Some(c));

    // It can be queued again.
    assert_eq!(send.recv_connection_window_update(grant(0, 13), &mut store), Ok(()));
    assert_eq!(store.get(c).unadvertised_send_window, 0);
    assert_eq!(send.recv_connection_window_update(grant(0, 0), &mut store), Ok(()));
    assert_eq!(walk(&send.pending_capacity, &store), Vec::<Key>::new());
    assert_eq!(send.recv_stream_window_update(grant(5, 1), &mut store, c), Ok(()));
    assert_eq!(walk(&send.pending_capacity, &store), vec![c]);
    assert_eq!(store.get(c).unadvertised_send_window, 1);
}

#[test]
fn growth_that_covers_nothing_more_wakes_nobody() {
    let woken = wakes();
    let mut send = client(100);
    let mut store = Store::new();
    let key = opened(&mut send, &mut store);
    send.prioritize.flow_control = FlowControl::new(40);
    store.get_mut(key).unadvertised_send_window = 10;
    send.pending_capacity.push(&mut store, key);
    assert_eq!(send.window_size(store.get_mut(key), task(&woken)), 90);
    // Fifty free bytes on the connection, and ninety are covered already.
    assert_eq!(send.recv_connection_window_update(grant(0, 10), &mut store), Ok(()));
    assert_eq!(store.get(key).unadvertised_send_window, 10);
    assert_eq!(count(&woken), 0);
    assert_eq!(walk(&send.pending_capacity, &store), vec![key]);
    // Ninety free bytes are still no more than what is covered.
    assert_eq!(send.recv_connection_window_update(grant(0, 40), &mut store), Ok(()));
    assert_eq!(store.get(key).unadvertised_send_window, 10);
    assert_eq!(count(&woken), 0);
    assert_eq!(send.recv_connection_window_update(grant(0, 5), &mut store), Ok(()));
    assert_eq!(store.get(key).unadvertised_send_window, 5);
    assert_eq!(count(&woken), 1);
}

#[test]
fn removal_in_the_middle_and_at_the_tail_keeps_the_links() {
    let mut send = client(0);
    let mut store = Store::new();
    let a = opened(&mut send, &mut store);
    let b = opened(&mut send, &mut store);
    let c = opened(&mut send, &mut store);
    let d = opened(&mut send, &mut store);
    assert_eq!(send.recv_stream_window_update(grant(1, 10), &mut store, a), Ok(()));
    assert_eq!(send.recv_stream_window_update(grant(3, 10), &mut store, b), Ok(()));
    assert_eq!(send.recv_stream_window_update(grant(5, 10), &mut store, c), Ok(()));
    assert_eq!(send.recv_stream_window_update(grant(7, 10), &mut store, d), Ok(()));
    assert_eq!(walk(&send.pending_capacity, &store), vec![a, b, c, d]);
    assert_eq!(send.send_eos(store.get_mut(b)), Ok(()));
    assert_eq!(send.send_eos(store.get_mut(d)), Ok(()));
    assert_eq!(send.recv_connection_window_update(grant(0, 0), &mut store), Ok(()));
    assert_eq!(walk(&send.pending_capacity, &store), vec![a, c]);
    assert_eq!(store.get(a).next_capacity, Some(c));
    assert_eq!(store.get(c).next_capacity, None);
    assert_eq!(send.pending_capacity.tail, Some(c));
    assert_eq!(store.get(a).unadvertised_send_window, 10);
}

#[test]
fn store_gives_keys_in_the_order_of_insertion() {
    let mut store = Store::new();
    assert_eq!(store.len(), 0);
    assert_eq!(store.insert(Stream::new(StreamId(1))), 0);
    assert_eq!(store.insert(Stream::new(StreamId(3))), 1);
    assert_eq!(store.len(), 2);
    assert_eq!(store.get(1).id, StreamId(3));
    store.get_mut(0).unadvertised_send_window = 4;
    assert_eq!(store.get(0).unadvertised_send_window, 4);
    assert_eq!(store.get(0).id, StreamId(1));
}
