use std::collections::VecDeque;
use std::task::{Context, Waker};

use fuso::error::FusoError;
use fuso::forward::{
    dispatch_whence, mapping_token, split_visitor, visitor_outcome, Accepter, Action, Job, Jobs, Outcome, PortForwarder,
    Round, Visitors, Whence,
};
use fuso::poll::Poll;
use fuso::rpc::{Response, ServerAddr, Target, VisitorProtocol};

#[test]
fn mapping_token_is_big_endian() {
    assert_eq!(mapping_token([0, 0, 0, 0, 0, 0, 1, 2]), 258);
    assert_eq!(mapping_token([1, 2, 3, 4, 5, 6, 7, 8]), u64::from_be_bytes([1, 2, 3, 4, 5, 6, 7, 8]));
    assert_eq!(mapping_token([255; 8]), u64::MAX);
}

#[test]
fn visitor_outcome_of_answers() {
    assert!(matches!(visitor_outcome::<u8>(3, None), Outcome::Transport(3, FusoError::NotResponse)));
    assert!(matches!(visitor_outcome::<u8>(3, Some(Ok(Response::Accepted))), Outcome::Pending(3)));
    match visitor_outcome::<u8>(3, Some(Ok(Response::Error("no".to_string())))) {
        Outcome::Transport(3, FusoError::Custom(m)) => assert_eq!(m, "no"),
        _ => panic!("expected a custom error"),
    }
    assert!(matches!(
        visitor_outcome::<u8>(3, Some(Err(FusoError::Cancel))),
        Outcome::Transport(3, FusoError::Cancel)
    ));
}

#[test]
fn split_visitor_gives_target() {
    let (c, t) = split_visitor(VisitorProtocol::Socks(1u8, Target::Tcp(ServerAddr(vec![]), 80)));
    assert_eq!(c, 1);
    assert!(matches!(t, Some(Target::Tcp(_, 80))));
    let (c, t) = split_visitor(VisitorProtocol::<u8>::Other(2, None));
    assert_eq!(c, 2);
    assert!(t.is_none());
}

#[test]
fn dispatch_whence_routes() {
    assert!(matches!(dispatch_whence(Whence::Visitor(1u8)), Job::PrepareVisitor(1)));
    assert!(matches!(dispatch_whence(Whence::Mapping(2u8)), Job::PrepareMapping(2)));
}

#[test]
fn visitor_is_paired_with_its_mapping_once() {
    let mut v: Visitors<&'static str> = Visitors::default();
    let token = match v.on_outcome(Outcome::Prepared("visitor", None)) {
        Action::Run(Job::RequestMapping(t, None)) => t,
        _ => panic!("expected a mapping request"),
    };
    assert!(matches!(v.on_outcome(Outcome::Pending(token)), Action::Run(Job::WaitTransport(t)) if t == token));
    assert!(matches!(v.on_outcome(Outcome::Ready(token, "mapping")), Action::Accept("visitor", "mapping")));
    assert!(matches!(v.on_outcome(Outcome::Ready(token, "late")), Action::Continue));
}

#[test]
fn timeout_drops_visitor() {
    let mut v: Visitors<&'static str> = Visitors::default();
    let token = v.store("visitor");
    assert!(matches!(v.on_outcome(Outcome::Timeout(token)), Action::Continue));
    assert!(matches!(v.on_outcome(Outcome::Ready(token, "mapping")), Action::Continue));
}

#[test]
fn failed_request_drops_visitor() {
    let mut v: Visitors<&'static str> = Visitors::default();
    let token = v.store("visitor");
    assert!(matches!(v.on_outcome(Outcome::Transport(token, FusoError::NotResponse)), Action::Continue));
    assert_eq!(v.take(token), None);
}

#[test]
fn stopped_control_connection_fails() {
    let mut v: Visitors<u8> = Visitors::default();
    assert!(matches!(v.on_outcome(Outcome::Stopped(None)), Action::Fail(FusoError::Abort)));
    assert!(matches!(v.on_outcome(Outcome::Stopped(Some(FusoError::Timeout))), Action::Fail(FusoError::Timeout)));
}

struct Queue {
    items: VecDeque<Result<Whence<&'static str>, FusoError>>,
}

impl Accepter<Whence<&'static str>> for Queue {
    fn poll_accept(&mut self, _: &mut Context<'_>) -> Poll<Result<Whence<&'static str>, FusoError>> {
        match self.items.pop_front() {
            Some(r) => Poll::Ready(r),
            None => Poll::Pending,
        }
    }
}

/// Runs jobs at once: visitors prepare without a target, the client accepts
/// every request, mappings announce token 0.
struct Instant {
    done: VecDeque<Outcome<&'static str>>,
    started: Vec<String>,
}

impl Jobs<&'static str> for Instant {
    fn add(&mut self, job: Job<&'static str>) {
        match job {
            Job::PrepareVisitor(c) => {
                self.started.push(format!("visitor {c}"));
                self.done.push_back(Outcome::Prepared(c, None));
            }
            Job::PrepareMapping(c) => {
                self.started.push(format!("mapping {c}"));
                self.done.push_back(Outcome::Ready(mapping_token([0; 8]), c));
            }
            Job::RequestMapping(t, _) => {
                self.started.push(format!("request {t}"));
                self.done.push_back(visitor_outcome(t, Some(Ok(Response::Accepted))));
            }
            Job::WaitTransport(t) => {
                self.started.push(format!("wait {t}"));
            }
        }
    }

    fn poll_next(&mut self, _: &mut Context<'_>) -> Poll<Result<Outcome<&'static str>, FusoError>> {
        match self.done.pop_front() {
            Some(o) => Poll::Ready(Ok(o)),
            None => Poll::Pending,
        }
    }
}

fn run<J: Jobs<&'static str>>(f: &mut PortForwarder<Queue, J, &'static str>) -> Poll<Result<(&'static str, &'static str), FusoError>> {
    let mut cx = Context::from_waker(Waker::noop());
    loop {
        match f.poll_round(&mut cx) {
            Round::Again => continue,
            Round::Stop(p) => return p,
        }
    }
}

#[test]
fn forwarder_pairs_visitor_with_mapping() {
    let mut items = VecDeque::new();
    items.push_back(Ok(Whence::Visitor("v")));
    items.push_back(Ok(Whence::Mapping("m")));
    let jobs = Instant { done: VecDeque::new(), started: Vec::new() };
    let mut f = PortForwarder::new(Queue { items }, jobs);
    assert!(matches!(run(&mut f), Poll::Ready(Ok(("v", "m")))));
    assert!(matches!(run(&mut f), Poll::Pending));
}

#[test]
fn forwarder_stops_on_accepter_error() {
    let mut items = VecDeque::new();
    items.push_back(Err(FusoError::InvalidPort));
    let jobs = Instant { done: VecDeque::new(), started: Vec::new() };
    let mut f = PortForwarder::new(Queue { items }, jobs);
    assert!(matches!(run(&mut f), Poll::Ready(Err(FusoError::InvalidPort))));
}

#[test]
fn forwarder_idle_is_pending() {
    let jobs = Instant { done: VecDeque::new(), started: Vec::new() };
    let mut f = PortForwarder::new(Queue { items: VecDeque::new() }, jobs);
    assert!(matches!(run(&mut f), Poll::Pending));
}

/// Jobs whose outcomes are given in advance; notes every job started.
struct Scripted {
    done: VecDeque<Result<Outcome<&'static str>, FusoError>>,
    started: std::sync::Arc<std::sync::Mutex<Vec<String>>>,
}

impl Jobs<&'static str> for Scripted {
    fn add(&mut self, job: Job<&'static str>) {
        self.started.lock().unwrap().push(match job {
            Job::PrepareVisitor(c) => format!("visitor {c}"),
            Job::PrepareMapping(c) => format!("mapping {c}"),
            Job::RequestMapping(t, _) => format!("request {t}"),
            Job::WaitTransport(t) => format!("wait {t}"),
        });
    }

    fn poll_next(&mut self, _: &mut Context<'_>) -> Poll<Result<Outcome<&'static str>, FusoError>> {
        match self.done.pop_front() {
            Some(o) => Poll::Ready(o),
            None => Poll::Pending,
        }
    }
}

type Started = std::sync::Arc<std::sync::Mutex<Vec<String>>>;

fn scripted(
    items: Vec<Result<Whence<&'static str>, FusoError>>,
    done: Vec<Result<Outcome<&'static str>, FusoError>>,
) -> (PortForwarder<Queue, Scripted, &'static str>, Started) {
    let started: Started = std::sync::Arc::new(std::sync::Mutex::new(Vec::new()));
    let jobs = Scripted { done: done.into_iter().collect(), started: started.clone() };
    (PortForwarder::new(Queue { items: items.into_iter().collect() }, jobs), started)
}

#[test]
fn failed_visitor_preprocessing_asks_for_no_mapping() {
    let (mut f, started) = scripted(vec![Ok(Whence::Visitor("v"))], vec![Err(FusoError::InvalidConnection)]);
    assert!(matches!(run(&mut f), Poll::Pending));
    assert_eq!(*started.lock().unwrap(), vec!["visitor v".to_string()]);
}

#[test]
fn forwarder_ends_when_control_connection_stops() {
    let (mut f, _) = scripted(vec![], vec![Ok(Outcome::Stopped(None))]);
    assert!(matches!(run(&mut f), Poll::Ready(Err(FusoError::Abort))));
    let (mut f, _) = scripted(vec![], vec![Ok(Outcome::Stopped(Some(FusoError::Timeout)))]);
    assert!(matches!(run(&mut f), Poll::Ready(Err(FusoError::Timeout))));
}

#[test]
fn timed_out_visitor_is_not_handed_out() {
    let (mut f, started) = scripted(
        vec![],
        vec![
            Ok(Outcome::Prepared("v", None)),
            Ok(Outcome::Pending(0)),
            Ok(Outcome::Timeout(0)),
            Ok(Outcome::Ready(0, "m")),
        ],
    );
    assert!(matches!(run(&mut f), Poll::Pending));
    assert_eq!(*started.lock().unwrap(), vec!["request 0".to_string(), "wait 0".to_string()]);
}
