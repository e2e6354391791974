use std::task::{Context, Waker};

use fuso::callee::{Guard, Guards, Looper, Task};
use fuso::error::FusoError;
use fuso::poll::Poll;
use fuso::rpc::{accept_transact, dispatch_cmd, guard_verdict, Cmd, GuardVerdict, LoopAction, Transact};

#[test]
fn dispatch_cmd_routes_commands() {
    assert!(matches!(dispatch_cmd(Cmd::Ping), LoopAction::Ping));
    assert!(matches!(dispatch_cmd(Cmd::Pong), LoopAction::Pong));
    assert!(matches!(dispatch_cmd(Cmd::Cancel(4)), LoopAction::Ignore));
    match dispatch_cmd(Cmd::Transact { token: 5, packet: vec![1] }) {
        LoopAction::Deliver(5, p) => assert_eq!(p, vec![1]),
        _ => panic!("expected a delivery"),
    }
}

#[test]
fn accept_transact_skips_cancels() {
    assert!(accept_transact(Transact::Cancel(1)).is_none());
    assert_eq!(accept_transact(Transact::Request(2, vec![3])), Some((2, vec![3])));
}

#[test]
fn guard_verdicts() {
    assert!(matches!(guard_verdict(1, Poll::Pending), GuardVerdict::Keep));
    assert!(matches!(guard_verdict(1, Poll::Ready(Ok(()))), GuardVerdict::Done));
    assert!(matches!(guard_verdict(1, Poll::Ready(Err(FusoError::InvaledSetter))), GuardVerdict::Cancel(1)));
}

struct Fixed(u8);

impl Guard for Fixed {
    fn poll_guard(&mut self, _: &mut Context<'_>) -> Poll<Result<(), FusoError>> {
        match self.0 {
            0 => Poll::Pending,
            1 => Poll::Ready(Ok(())),
            _ => Poll::Ready(Err(FusoError::InvaledSetter)),
        }
    }
}

#[test]
fn sweep_keeps_pending_and_cancels_abandoned() {
    let mut cx = Context::from_waker(Waker::noop());
    let mut guards = Guards::new();
    for (t, g) in [(10, Fixed(0)), (11, Fixed(1)), (12, Fixed(2)), (13, Fixed(0)), (14, Fixed(2))] {
        guards.watch(t, g);
    }
    let cancel = guards.sweep(&mut cx);
    assert_eq!(cancel, vec![12, 14]);
    assert_eq!(guards.watched(), vec![10, 13]);
}

struct Countdown(u8, Result<(), FusoError>);

impl Task for Countdown {
    fn poll_task(&mut self, _: &mut Context<'_>) -> Poll<Result<(), FusoError>> {
        if self.0 == 0 {
            Poll::Ready(std::mem::replace(&mut self.1, Ok(())))
        } else {
            self.0 -= 1;
            Poll::Pending
        }
    }
}

#[test]
fn looper_ends_with_first_finished_task() {
    let mut cx = Context::from_waker(Waker::noop());
    let mut l = Looper::new();
    assert!(matches!(l.poll(&mut cx), Poll::Pending));
    l.post(Countdown(2, Ok(())));
    l.post(Countdown(1, Err(FusoError::Timeout)));
    assert!(matches!(l.poll(&mut cx), Poll::Pending));
    assert!(matches!(l.poll(&mut cx), Poll::Ready(Err(FusoError::Timeout))));
}

/// Notes its name each time it is polled; ready on its `ready_at`-th poll.
struct Noting {
    name: u8,
    polls: u8,
    ready_at: u8,
    log: std::sync::Arc<std::sync::Mutex<Vec<u8>>>,
}

impl Task for Noting {
    fn poll_task(&mut self, _: &mut Context<'_>) -> Poll<Result<(), FusoError>> {
        self.log.lock().unwrap().push(self.name);
        self.polls += 1;
        if self.polls == self.ready_at {
            Poll::Ready(Err(FusoError::BadRpcCall(self.name as u64)))
        } else {
            Poll::Pending
        }
    }
}

#[test]
fn looper_polls_tasks_in_posting_order_and_reports_the_first_ready() {
    let mut cx = Context::from_waker(Waker::noop());
    let log = std::sync::Arc::new(std::sync::Mutex::new(Vec::new()));
    let mut l = Looper::new();
    l.post(Noting { name: 1, polls: 0, ready_at: 3, log: log.clone() });
    l.post(Noting { name: 2, polls: 0, ready_at: 2, log: log.clone() });
    l.post(Noting { name: 3, polls: 0, ready_at: 2, log: log.clone() });
    assert!(matches!(l.poll(&mut cx), Poll::Pending));
    assert!(matches!(l.poll(&mut cx), Poll::Ready(Err(FusoError::BadRpcCall(2)))));
    assert_eq!(*log.lock().unwrap(), vec![1, 2, 3, 1, 2]);
}

#[test]
fn error_text_is_its_debug_text() {
    assert_eq!(FusoError::Abort.to_text(), "Abort");
    assert_eq!(FusoError::Custom("no".to_string()).to_text(), "Custom(\"no\")");
    assert_eq!(FusoError::BadRpcCall(3).to_text(), "BadRpcCall(3)");
}

/// Pending for its first `wait` polls, then abandoned.
struct Abandons(u8);

impl Guard for Abandons {
    fn poll_guard(&mut self, _: &mut Context<'_>) -> Poll<Result<(), FusoError>> {
        if self.0 == 0 {
            Poll::Ready(Err(FusoError::InvaledSetter))
        } else {
            self.0 -= 1;
            Poll::Pending
        }
    }
}

#[test]
fn abandoned_request_is_cancelled_once_over_sweeps() {
    let mut cx = Context::from_waker(Waker::noop());
    let mut guards = Guards::new();
    guards.watch(1, Abandons(1));
    guards.watch(2, Abandons(0));
    assert_eq!(guards.sweep(&mut cx), vec![2]);
    assert_eq!(guards.watched(), vec![1]);
    assert_eq!(guards.sweep(&mut cx), vec![1]);
    assert!(guards.watched().is_empty());
    assert!(guards.sweep(&mut cx).is_empty());
}
