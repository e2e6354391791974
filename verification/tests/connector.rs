use std::task::{Context, Waker};

use fuso::connector::{select_next, BoxedConnector, ConnectExt, Connector, MultiConnector, Selection};
use fuso::error::FusoError;
use fuso::poll::Poll;

/// Answers with a fixed reply and counts its polls.
struct Fixed {
    reply: fn() -> Poll<Result<u32, FusoError>>,
}

impl Connector<String, u32> for Fixed {
    fn poll_connect(&mut self, _: &mut Context<'_>, _: &String) -> Poll<Result<u32, FusoError>> {
        (self.reply)()
    }
}

fn pending() -> Poll<Result<u32, FusoError>> {
    Poll::Pending
}
fn ok1() -> Poll<Result<u32, FusoError>> {
    Poll::Ready(Ok(1))
}
fn ok2() -> Poll<Result<u32, FusoError>> {
    Poll::Ready(Ok(2))
}
fn err_timeout() -> Poll<Result<u32, FusoError>> {
    Poll::Ready(Err(FusoError::Timeout))
}
fn err_abort() -> Poll<Result<u32, FusoError>> {
    Poll::Ready(Err(FusoError::Abort))
}

fn multi(replies: &[fn() -> Poll<Result<u32, FusoError>>]) -> MultiConnector<'static, String, u32> {
    let mut m = MultiConnector::new();
    for r in replies {
        m.add(Fixed { reply: *r });
    }
    m
}

#[test]
fn no_connectors_is_pending() {
    let mut cx = Context::from_waker(Waker::noop());
    let mut m = multi(&[]);
    assert!(matches!(m.poll_connect(&mut cx, &"t".to_string()), Poll::Pending));
}

#[test]
fn first_connection_wins() {
    let mut cx = Context::from_waker(Waker::noop());
    let mut m = multi(&[pending, err_timeout, ok1, ok2]);
    assert!(matches!(m.poll_connect(&mut cx, &"t".to_string()), Poll::Ready(Ok(1))));
}

#[test]
fn last_error_wins_without_connection() {
    let mut cx = Context::from_waker(Waker::noop());
    let mut m = multi(&[err_timeout, pending, err_abort, pending]);
    assert!(matches!(m.poll_connect(&mut cx, &"t".to_string()), Poll::Ready(Err(FusoError::Abort))));
}

#[test]
fn all_pending_is_pending() {
    let mut cx = Context::from_waker(Waker::noop());
    let mut m = multi(&[pending, pending]);
    assert!(matches!(m.poll_connect(&mut cx, &"t".to_string()), Poll::Pending));
}

#[test]
fn connect_polls_the_connector_for_the_target() {
    let mut cx = Context::from_waker(Waker::noop());
    let mut b = BoxedConnector::new(Fixed { reply: ok2 });
    let mut c = b.connect("t".to_string());
    assert!(matches!(c.poll(&mut cx), Poll::Ready(Ok(2))));
}

#[test]
fn select_next_steps() {
    assert!(matches!(select_next::<u32>(None, Poll::Pending), Selection::Waiting(None)));
    assert!(matches!(
        select_next::<u32>(Some(FusoError::Abort), Poll::Pending),
        Selection::Waiting(Some(FusoError::Abort))
    ));
    assert!(matches!(
        select_next::<u32>(Some(FusoError::Abort), Poll::Ready(Err(FusoError::Timeout))),
        Selection::Waiting(Some(FusoError::Timeout))
    ));
    assert!(matches!(select_next(Some(FusoError::Abort), Poll::Ready(Ok(5u32))), Selection::Connected(5)));
}

/// Notes its name in a shared log each time it is polled; never connects.
struct Named {
    name: u32,
    log: std::sync::Arc<std::sync::Mutex<Vec<u32>>>,
}

impl Connector<String, u32> for Named {
    fn poll_connect(&mut self, _: &mut Context<'_>, _: &String) -> Poll<Result<u32, FusoError>> {
        self.log.lock().unwrap().push(self.name);
        Poll::Pending
    }
}

#[test]
fn added_connectors_are_tried_in_the_order_added() {
    let mut cx = Context::from_waker(Waker::noop());
    let log = std::sync::Arc::new(std::sync::Mutex::new(Vec::new()));
    let mut m: MultiConnector<'static, String, u32> = MultiConnector::new();
    m.add(Named { name: 1, log: log.clone() });
    m.add(Named { name: 2, log: log.clone() });
    m.add(Named { name: 3, log: log.clone() });
    assert!(matches!(m.poll_connect(&mut cx, &"x".to_string()), Poll::Pending));
    assert_eq!(*log.lock().unwrap(), vec![1, 2, 3]);
}

/// Notes its name when polled and connects with it.
struct Connects {
    name: u32,
    log: std::sync::Arc<std::sync::Mutex<Vec<u32>>>,
}

impl Connector<String, u32> for Connects {
    fn poll_connect(&mut self, _: &mut Context<'_>, _: &String) -> Poll<Result<u32, FusoError>> {
        self.log.lock().unwrap().push(self.name);
        Poll::Ready(Ok(self.name))
    }
}

#[test]
fn connectors_after_the_first_connection_are_not_polled() {
    let mut cx = Context::from_waker(Waker::noop());
    let log = std::sync::Arc::new(std::sync::Mutex::new(Vec::new()));
    let mut m: MultiConnector<'static, String, u32> = MultiConnector::new();
    m.add(Named { name: 1, log: log.clone() });
    m.add(Connects { name: 2, log: log.clone() });
    m.add(Connects { name: 3, log: log.clone() });
    assert!(matches!(m.poll_connect(&mut cx, &"x".to_string()), Poll::Ready(Ok(2))));
    assert_eq!(*log.lock().unwrap(), vec![1, 2]);
}

/// Notes every target it is asked for and answers with its length.
struct Echo {
    seen: std::sync::Arc<std::sync::Mutex<Vec<String>>>,
}

impl Connector<String, u32> for Echo {
    fn poll_connect(&mut self, _: &mut Context<'_>, target: &String) -> Poll<Result<u32, FusoError>> {
        self.seen.lock().unwrap().push(target.clone());
        Poll::Ready(Ok(target.len() as u32))
    }
}

#[test]
fn boxed_connector_forwards_once_with_the_same_target() {
    let mut cx = Context::from_waker(Waker::noop());
    let seen = std::sync::Arc::new(std::sync::Mutex::new(Vec::new()));
    let mut b = BoxedConnector::new(Echo { seen: seen.clone() });
    assert!(matches!(b.poll_connect(&mut cx, &"abc".to_string()), Poll::Ready(Ok(3))));
    assert_eq!(*seen.lock().unwrap(), vec!["abc".to_string()]);
}
