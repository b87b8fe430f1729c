use std::sync::{Arc, Mutex};

use bytes::Bytes;
use futures::executor::{spawn, Notify};
use futures::future::lazy;
use futures::task::{current, Task};
use futures::Async as Polled;

use h2_send::config::{Config, Role};
use h2_send::error::{ConnectionError, Reason, User};
use h2_send::flow_control::FlowControl;
use h2_send::frame::{Data, Headers, Settings, StreamId, WindowUpdate};
use h2_send::send::Send;
use h2_send::state::{Peer, State};
use h2_send::store::{Key, Store};
use h2_send::stream::Stream;

struct Wakes(Mutex<usize>);

impl Notify for Wakes {
    fn notify(&self, _id: usize) {
        *self.0.lock().unwrap() += 1;
    }
}

fn wakes() -> Arc<Wakes> {
    Arc::new(Wakes(Mutex::new(0)))
}

fn count(w: &Arc<Wakes>) -> usize {
    *w.0.lock().unwrap()
}

fn task(w: &Arc<Wakes>) -> Task {
    let mut run = spawn(lazy(|| Ok::<Task, ()>(current())));
    match run.poll_future_notify(w, 0) {
        Ok(Polled::Ready(t)) => t,
        _ => panic!("the task did not come back"),
    }
}

fn client(window: i32) -> Send {
    Send::new(Role::Client, &Config { max_local_initiated: None, init_local_window_sz: window })
}

fn opened(send: &mut Send, store: &mut Store) -> Key {
    let stream = send.open().ok().unwrap();
    let id = stream.id;
    let key = store.insert(stream);
    let frame = Headers { stream_id: id, header_block: Bytes::new(), end_stream: false };
    assert_eq!(send.send_headers(frame, store, key), Ok(()));
    key
}

fn data(id: u32, len: usize) -> Data {
    Data { stream_id: StreamId(id), payload: Bytes::from(vec![0u8; len]), end_stream: false }
}

fn grant(id: u32, incr: u32) -> WindowUpdate {
    WindowUpdate::new(StreamId(id), incr)
}

fn window(store: &Store, key: Key) -> FlowControl {
    store.get(key).state.send_window().unwrap()
}

fn queue(send: &Send, store: &Store) -> Vec<Key> {
    let mut keys: Vec<Key> = Vec::new();
    let mut cur = send.pending_capacity.head;
    while let Some(key) = cur {
        assert!(store.get(key).is_pending_send_capacity);
        keys.push(key);
        cur = store.get(key).next_capacity;
    }
    assert_eq!(send.pending_capacity.tail, keys.last().copied());
    keys
}

#[test]
fn uncovered_grant_is_set_aside_until_the_connection_grows() {
    let woken = wakes();
    let mut send = client(100);
    let mut store = Store::new();
    let key = opened(&mut send, &mut store);
    // Fifty bytes are sent: fifty are left on the stream and on the connection.
    assert_eq!(send.send_data(data(1, 50), &mut store, key), Ok(()));
    assert_eq!(send.prioritize.available_window(), 50);
    assert_eq!(send.window_size(store.get_mut(key), task(&woken)), 50);
    // The peer brings the stream's window back to a hundred.
    assert_eq!(send.recv_stream_window_update(grant(1, 50), &mut store, key), Ok(()));
    assert_eq!(window(&store, key).effective_window_size(), 100);
    assert_eq!(store.get(key).unadvertised_send_window, 50);
    assert!(store.get(key).is_pending_send_capacity);
    assert_eq!(queue(&send, &store), vec![key]);
    // The whole grant was set aside: nobody is woken.
    assert_eq!(count(&woken), 0);
    assert_eq!(send.window_size(store.get_mut(key), task(&woken)), 50);
    assert_eq!(
        send.recv_connection_window_update(grant(0, 50), &mut store),
        Ok(())
    );
    assert_eq!(send.prioritize.available_window(), 100);
    assert_eq!(store.get(key).unadvertised_send_window, 0);
    assert_eq!(count(&woken), 1);
    assert_eq!(send.window_size(store.get_mut(key), task(&woken)), 100);
    // The stream leaves the queue when the connection grows the next time.
    assert_eq!(queue(&send, &store), vec![key]);
    assert_eq!(send.recv_connection_window_update(grant(0, 1), &mut store), Ok(()));
    assert_eq!(queue(&send, &store), Vec::<Key>::new());
    assert!(!store.get(key).is_pending_send_capacity);
    assert_eq!(count(&woken), 1);
}

#[test]
fn covered_grant_raises_what_may_be_sent_by_the_grant() {
    let woken = wakes();
    let mut send = client(100);
    let mut store = Store::new();
    let key = opened(&mut send, &mut store);
    send.prioritize.flow_control = FlowControl::new(1000);
    assert_eq!(send.window_size(store.get_mut(key), task(&woken)), 100);
    assert_eq!(send.recv_stream_window_update(grant(1, 23), &mut store, key), Ok(()));
    assert_eq!(window(&store, key), FlowControl { window_size: 100, next_window_update: 23 });
    assert_eq!(store.get(key).unadvertised_send_window, 0);
    assert!(!store.get(key).is_pending_send_capacity);
    assert_eq!(count(&woken), 1);
    assert!(store.get(key).send_task.is_none());
    assert_eq!(send.window_size(store.get_mut(key), task(&woken)), 123);
    assert_eq!(window(&store, key), FlowControl::new(123));
    assert_eq!(send.window_size(store.get_mut(key), task(&woken)), 123);
    assert_eq!(window(&store, key), FlowControl::new(123));
    assert!(store.get(key).send_task.is_some());
    assert_eq!(queue(&send, &store), Vec::<Key>::new());
}

#[test]
fn partly_covered_grant_wakes_the_task() {
    let woken = wakes();
    let mut send = client(0);
    let mut store = Store::new();
    let key = opened(&mut send, &mut store);
    send.prioritize.flow_control = FlowControl::new(30);
    assert_eq!(send.window_size(store.get_mut(key), task(&woken)), 0);
    assert_eq!(send.recv_stream_window_update(grant(1, 50), &mut store, key), Ok(()));
    assert_eq!(store.get(key).unadvertised_send_window, 20);
    assert_eq!(count(&woken), 1);
    assert_eq!(queue(&send, &store), vec![key]);
    assert_eq!(send.window_size(store.get_mut(key), task(&woken)), 30);
}

#[test]
fn window_size_is_zero_where_the_stream_cannot_send() {
    let woken = wakes();
    let mut send = client(100);
    let mut idle = Stream::new(StreamId(1));
    assert_eq!(send.window_size(&mut idle, task(&woken)), 0);
    assert!(idle.send_task.is_none());
    assert_eq!(idle.state, State::Idle);
    let mut closed = Stream::new(StreamId(3));
    closed.state = State::Closed(Some(Reason::Cancel));
    assert_eq!(send.window_size(&mut closed, task(&woken)), 0);
    let mut local = Stream::new(StreamId(5));
    local.state = State::HalfClosedLocal(Peer::Streaming(FlowControl::new(9)));
    assert_eq!(send.window_size(&mut local, task(&woken)), 0);
    let mut remote = Stream::new(StreamId(7));
    remote.state = State::HalfClosedRemote(Peer::Streaming(FlowControl::new(9)));
    assert_eq!(send.window_size(&mut remote, task(&woken)), 9);
    assert!(remote.send_task.is_some());
}

#[test]
fn window_size_notes_the_last_task_that_asked() {
    let first = wakes();
    let second = wakes();
    let mut send = client(10);
    let mut store = Store::new();
    let key = opened(&mut send, &mut store);
    send.prioritize.flow_control = FlowControl::new(1000);
    assert_eq!(send.window_size(store.get_mut(key), task(&first)), 10);
    assert_eq!(send.window_size(store.get_mut(key), task(&second)), 10);
    assert_eq!(send.recv_stream_window_update(grant(1, 1), &mut store, key), Ok(()));
    assert_eq!(count(&first), 0);
    assert_eq!(count(&second), 1);
}

#[test]
fn grant_to_a_stream_that_cannot_send_is_ignored() {
    let mut send = client(100);
    let mut store = Store::new();
    let key = store.insert(send.open().ok().unwrap());
    assert_eq!(send.recv_stream_window_update(grant(1, 4000000000), &mut store, key), Ok(()));
    assert_eq!(store.get(key).state, State::Idle);
    assert_eq!(store.get(key).unadvertised_send_window, 0);
    assert_eq!(queue(&send, &store), Vec::<Key>::new());
}

#[test]
fn grant_beyond_the_maximum_changes_nothing() {
    let woken = wakes();
    let mut send = client(100);
    let mut store = Store::new();
    let key = opened(&mut send, &mut store);
    assert_eq!(send.window_size(store.get_mut(key), task(&woken)), 100);
    assert_eq!(
        send.recv_stream_window_update(grant(1, 2147483548), &mut store, key),
        Err(ConnectionError::Proto(Reason::FlowControlError))
    );
    assert_eq!(window(&store, key), FlowControl::new(100));
    assert_eq!(count(&woken), 0);
    assert_eq!(
        send.recv_connection_window_update(grant(0, 2147483548), &mut store),
        Err(ConnectionError::Proto(Reason::FlowControlError))
    );
    assert_eq!(send.prioritize.flow_control, FlowControl::new(100));
    assert_eq!(send.recv_stream_window_update(grant(1, 2147483547), &mut store, key), Ok(()));
    assert_eq!(window(&store, key).effective_window_size(), 2147483647);
    assert_eq!(store.get(key).unadvertised_send_window, 2147483547);
}

#[test]
fn lowering_the_initial_window_may_leave_a_debt() {
    let woken = wakes();
    let mut send = client(100);
    let mut store = Store::new();
    let key = opened(&mut send, &mut store);
    let idle = store.insert(send.open().ok().unwrap());
    assert_eq!(send.send_data(data(1, 50), &mut store, key), Ok(()));
    let settings = Settings { max_concurrent_streams: Some(7), initial_window_size: Some(40) };
    assert_eq!(send.apply_remote_settings(&settings, &mut store), Ok(()));
    assert_eq!(send.max_streams, Some(7));
    assert_eq!(send.init_window_sz, 40);
    assert_eq!(window(&store, key), FlowControl::new(-10));
    assert_eq!(store.get(idle).state, State::Idle);
    assert_eq!(send.window_size(store.get_mut(key), task(&woken)), 0);
    assert_eq!(
        send.send_data(data(1, 1), &mut store, key),
        Err(ConnectionError::User(User::FlowControlViolation))
    );
    // A grant pays the debt off first.
    assert_eq!(send.recv_stream_window_update(grant(1, 4), &mut store, key), Ok(()));
    assert_eq!(window(&store, key), FlowControl::new(-6));
    assert_eq!(send.window_size(store.get_mut(key), task(&woken)), 0);
    assert_eq!(send.recv_stream_window_update(grant(1, 16), &mut store, key), Ok(()));
    assert_eq!(window(&store, key), FlowControl { window_size: 0, next_window_update: 10 });
    assert_eq!(send.window_size(store.get_mut(key), task(&woken)), 10);
    assert_eq!(send.send_data(data(1, 10), &mut store, key), Ok(()));
    // A stream that is opened now starts with the new window.
    let later = opened(&mut send, &mut store);
    assert_eq!(window(&store, later), FlowControl::new(40));
}

#[test]
fn lowering_the_initial_window_lowers_the_uncovered_part() {
    let mut send = client(0);
    let mut store = Store::new();
    let a = opened(&mut send, &mut store);
    let b = opened(&mut send, &mut store);
    send.init_window_sz = 100;
    assert_eq!(send.recv_stream_window_update(grant(1, 30), &mut store, a), Ok(()));
    assert_eq!(send.recv_stream_window_update(grant(3, 80), &mut store, b), Ok(()));
    assert_eq!(store.get(a).unadvertised_send_window, 30);
    assert_eq!(store.get(b).unadvertised_send_window, 80);
    let settings = Settings { max_concurrent_streams: None, initial_window_size: Some(50) };
    assert_eq!(send.apply_remote_settings(&settings, &mut store), Ok(()));
    assert_eq!(send.max_streams, None);
    assert_eq!(store.get(a).unadvertised_send_window, 0);
    assert_eq!(store.get(b).unadvertised_send_window, 30);
    assert_eq!(window(&store, a), FlowControl::new(-20));
    assert_eq!(window(&store, b), FlowControl { window_size: 0, next_window_update: 30 });
    assert_eq!(queue(&send, &store), vec![a, b]);
}

#[test]
fn raising_the_initial_window_is_a_grant_to_every_stream() {
    let woken_a = wakes();
    let woken_b = wakes();
    let mut send = client(10);
    let mut store = Store::new();
    let a = opened(&mut send, &mut store);
    let idle = store.insert(send.open().ok().unwrap());
    let b = opened(&mut send, &mut store);
    assert_eq!(send.send_data(data(5, 10), &mut store, b), Ok(()));
    assert_eq!(send.prioritize.available_window(), 0);
    assert_eq!(send.window_size(store.get_mut(a), task(&woken_a)), 10);
    assert_eq!(send.window_size(store.get_mut(b), task(&woken_b)), 0);
    send.prioritize.flow_control = FlowControl::new(25);
    assert_eq!(send.prioritize.available_window(), 15);
    let settings = Settings { max_concurrent_streams: None, initial_window_size: Some(30) };
    assert_eq!(send.apply_remote_settings(&settings, &mut store), Ok(()));
    assert_eq!(send.init_window_sz, 30);
    // Stream a has thirty now and fifteen are covered.
    assert_eq!(window(&store, a), FlowControl { window_size: 10, next_window_update: 20 });
    assert_eq!(store.get(a).unadvertised_send_window, 15);
    assert_eq!(count(&woken_a), 1);
    // Stream b has twenty now, and five of them are not covered.
    assert_eq!(window(&store, b), FlowControl { window_size: 0, next_window_update: 20 });
    assert_eq!(store.get(b).unadvertised_send_window, 5);
    assert_eq!(count(&woken_b), 1);
    assert_eq!(store.get(idle).state, State::Idle);
    assert_eq!(queue(&send, &store), vec![a, b]);
    assert_eq!(send.window_size(store.get_mut(a), task(&woken_a)), 15);
    assert_eq!(send.window_size(store.get_mut(b), task(&woken_b)), 15);
}

#[test]
fn settings_that_cannot_be_applied_change_nothing() {
    let mut send = client(100);
    let mut store = Store::new();
    let a = opened(&mut send, &mut store);
    let b = opened(&mut send, &mut store);
    send.prioritize.flow_control = FlowControl::new(2147483647);
    assert_eq!(send.recv_stream_window_update(grant(3, 2147483547), &mut store, b), Ok(()));
    let settings = Settings { max_concurrent_streams: Some(1), initial_window_size: Some(101) };
    assert_eq!(
        send.apply_remote_settings(&settings, &mut store),
        Err(ConnectionError::Proto(Reason::FlowControlError))
    );
    assert_eq!(send.max_streams, None);
    assert_eq!(send.init_window_sz, 100);
    assert_eq!(window(&store, a), FlowControl::new(100));
    assert_eq!(window(&store, b).effective_window_size(), 2147483647);
    let too_large =
        Settings { max_concurrent_streams: Some(1), initial_window_size: Some(2147483648) };
    assert_eq!(
        send.apply_remote_settings(&too_large, &mut store),
        Err(ConnectionError::Proto(Reason::FlowControlError))
    );
    assert_eq!(send.max_streams, None);
    let largest =
        Settings { max_concurrent_streams: None, initial_window_size: Some(2147483647) };
    let mut alone = client(0);
    let mut empty = Store::new();
    assert_eq!(alone.apply_remote_settings(&largest, &mut empty), Ok(()));
    assert_eq!(alone.init_window_sz, 2147483647);
}

#[test]
fn settings_without_a_window_size_leave_the_windows() {
    let mut send = client(100);
    let mut store = Store::new();
    let a = opened(&mut send, &mut store);
    let limit = Settings { max_concurrent_streams: Some(0), initial_window_size: None };
    assert_eq!(send.apply_remote_settings(&limit, &mut store), Ok(()));
    assert_eq!(send.max_streams, Some(0));
    assert_eq!(send.init_window_sz, 100);
    assert_eq!(window(&store, a), FlowControl::new(100));
    // The limit counts for streams that are opened from now on.
    assert_eq!(send.num_streams, 1);
    assert_eq!(send.open().err(), Some(ConnectionError::User(User::Rejected)));
    let same = Settings { max_concurrent_streams: None, initial_window_size: Some(100) };
    assert_eq!(send.apply_remote_settings(&same, &mut store), Ok(()));
    assert_eq!(send.max_streams, Some(0));
    assert_eq!(window(&store, a), FlowControl::new(100));
}
