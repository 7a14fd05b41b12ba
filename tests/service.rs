use std::sync::mpsc::channel;
use ttrpc_hello::address::{parse_uri, Address};
use ttrpc_hello::command::Command;
use ttrpc_hello::run::{Action, CommandRun};
use ttrpc_hello::types::{Config, HelloService, ShutdownError};

fn config(tx: Option<std::sync::mpsc::Sender<bool>>) -> Config {
    Config {
        server_uri: "unix:///tmp/hello.socket".to_string(),
        interactive: false,
        force_abstract_socket: false,
        use_vsock_crate_for_vsock: false,
        tx,
    }
}

#[test]
fn greeting_names_the_caller() {
    let svc = HelloService::new(config(None));
    assert_eq!(svc.say_hello("foo"), "Hello 'foo'");
    assert_eq!(svc.say_hello(""), "Hello ''");
}

#[test]
fn shutdown_signals_the_waiting_server() {
    let (tx, rx) = channel::<bool>();
    let svc = HelloService::new(config(Some(tx)));
    assert_eq!(svc.shutdown(), Ok(()));
    assert_eq!(rx.recv(), Ok(true));
}

#[test]
fn shutdown_without_channel_fails() {
    let svc = HelloService::new(config(None));
    assert_eq!(svc.shutdown(), Err(ShutdownError::NoSenderChannel));
}

#[test]
fn shutdown_with_nobody_waiting_fails() {
    let (tx, rx) = channel::<bool>();
    drop(rx);
    let svc = HelloService::new(config(Some(tx)));
    assert_eq!(svc.shutdown(), Err(ShutdownError::SendFailed));
}

#[test]
fn hello_then_shutdown_ends_the_run() {
    let (tx, rx) = channel::<bool>();
    let cfg = config(Some(tx));
    assert_eq!(
        parse_uri(&cfg.server_uri, cfg.force_abstract_socket),
        Ok(Address::UnixNamed { path: "/tmp/hello.socket".to_string() })
    );
    let svc = HelloService::new(cfg);
    let mut run = CommandRun::new(vec!["SayHello foo".to_string(), "Shutdown".to_string()]);
    let mut replies = Vec::new();
    let mut calls = 0;
    loop {
        match run.next_action() {
            Action::Call(Command::SayHello, arg) => replies.push(svc.say_hello(&arg)),
            Action::Call(Command::Shutdown, _) => assert_eq!(svc.shutdown(), Ok(())),
            Action::Done => break,
            Action::Fail(e) => panic!("unexpected {:?}", e),
        }
        calls += 1;
    }
    assert_eq!(calls, 2);
    assert!(replies[0].contains("foo"));
    assert_eq!(rx.try_recv(), Ok(true));
}
