use rc4::{KeyInit, Rc4, StreamCipher};
use std::task::{Context, Waker};

use fuso::connector::Connector;
use fuso::error::FusoError;
use fuso::mux::{MuxConfig, MuxConnector};
use fuso::poll::Poll;
use fuso::transfer::{AbstractTransmitter, Transmitter};

fn key() -> [u8; 16] {
    let mut k = [0u8; 16];
    for (i, b) in k.iter_mut().enumerate() {
        *b = i as u8;
    }
    k
}

#[test]
fn prefix_is_rc4_of_little_endian_magic() {
    let conf = MuxConfig { magic: 1110, secret: key() };
    // RC4 keystream for key 00..0f starts e9 9c 40 f9; 1110 is 56 04 00 00
    assert_eq!(conf.prefix(), [191, 152, 64, 249]);
    assert_ne!(conf.prefix(), 1110u32.to_le_bytes());
}

struct Recorder {
    out: std::sync::Arc<std::sync::Mutex<Vec<u8>>>,
    stall_once: bool,
}

impl Transmitter for Recorder {
    fn poll_send(&mut self, _: &mut Context<'_>, buf: &[u8]) -> Poll<Result<usize, FusoError>> {
        if self.stall_once {
            self.stall_once = false;
            return Poll::Pending;
        }
        let n = buf.len().min(3);
        self.out.lock().unwrap().extend_from_slice(&buf[..n]);
        Poll::Ready(Ok(n))
    }

    fn poll_recv(&mut self, _: &mut Context<'_>, _: &mut [u8]) -> Poll<Result<usize, FusoError>> {
        Poll::Pending
    }
}

struct Gives {
    out: std::sync::Arc<std::sync::Mutex<Vec<u8>>>,
    fail: bool,
}

impl Connector<u8, AbstractTransmitter<'static>> for Gives {
    fn poll_connect(&mut self, _: &mut Context<'_>, _: &u8) -> Poll<Result<AbstractTransmitter<'static>, FusoError>> {
        if self.fail {
            return Poll::Ready(Err(FusoError::InvalidConnection));
        }
        Poll::Ready(Ok(AbstractTransmitter::new(Recorder { out: self.out.clone(), stall_once: true })))
    }
}

#[test]
fn mux_connector_introduces_connection_with_prefix() {
    let mut cx = Context::from_waker(Waker::noop());
    let out = std::sync::Arc::new(std::sync::Mutex::new(Vec::new()));
    let conf = MuxConfig { magic: 1110, secret: key() };
    let mut c = MuxConnector::new(conf, Gives { out: out.clone(), fail: false });
    assert!(matches!(c.poll_connect(&mut cx, &0), Poll::Pending));
    assert!(matches!(c.poll_connect(&mut cx, &0), Poll::Ready(Ok(_))));
    assert_eq!(*out.lock().unwrap(), vec![191, 152, 64, 249]);
}

#[test]
fn mux_connector_reports_inner_error() {
    let mut cx = Context::from_waker(Waker::noop());
    let out = std::sync::Arc::new(std::sync::Mutex::new(Vec::new()));
    let conf = MuxConfig { magic: 1110, secret: key() };
    let mut c = MuxConnector::new(conf, Gives { out, fail: true });
    assert!(matches!(c.poll_connect(&mut cx, &0), Poll::Ready(Err(FusoError::InvalidConnection))));
}

#[test]
fn prefix_decrypts_to_magic() {
    let conf = MuxConfig { magic: 0xdead_beef, secret: key() };
    let mut bytes = conf.prefix();
    let secret = key();
    let mut cipher = Rc4::<rc4::consts::U16>::new((&secret).into());
    cipher.apply_keystream(&mut bytes);
    assert_eq!(u32::from_le_bytes(bytes), 0xdead_beef);
}

/// Hands out recorders and notes every target it is asked for.
struct Counting {
    out: std::sync::Arc<std::sync::Mutex<Vec<u8>>>,
    targets: std::sync::Arc<std::sync::Mutex<Vec<u8>>>,
}

impl Connector<u8, AbstractTransmitter<'static>> for Counting {
    fn poll_connect(&mut self, _: &mut Context<'_>, target: &u8) -> Poll<Result<AbstractTransmitter<'static>, FusoError>> {
        self.targets.lock().unwrap().push(*target);
        Poll::Ready(Ok(AbstractTransmitter::new(Recorder { out: self.out.clone(), stall_once: true })))
    }
}

#[test]
fn mux_connector_connects_once_with_the_same_target() {
    let mut cx = Context::from_waker(Waker::noop());
    let out = std::sync::Arc::new(std::sync::Mutex::new(Vec::new()));
    let targets = std::sync::Arc::new(std::sync::Mutex::new(Vec::new()));
    let conf = MuxConfig { magic: 1110, secret: key() };
    let mut c = MuxConnector::new(conf, Counting { out: out.clone(), targets: targets.clone() });
    assert!(matches!(c.poll_connect(&mut cx, &7), Poll::Pending));
    assert!(out.lock().unwrap().is_empty());
    assert!(matches!(c.poll_connect(&mut cx, &7), Poll::Ready(Ok(_))));
    assert_eq!(*targets.lock().unwrap(), vec![7]);
    assert_eq!(*out.lock().unwrap(), vec![191, 152, 64, 249]);
    assert!(matches!(c.poll_connect(&mut cx, &9), Poll::Pending));
    assert_eq!(*targets.lock().unwrap(), vec![7, 9]);
}
