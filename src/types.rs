use std::sync::mpsc::Sender;
use std::sync::Arc;
use vstd::prelude::*;
use vstd::string::*;

verus! {

#[verifier::external_type_specification]
#[verifier::external_body]
#[verifier::reject_recursive_types(T)]
pub struct ExSender<T>(Sender<T>);

/// The settings of one run, shared by the client, the server and the handlers.
#[derive(Debug, Clone)]
pub struct Config {
    pub server_uri: String,
    pub interactive: bool,
    pub force_abstract_socket: bool,
    /// For a VSOCK client: connect through the vsock crate rather than nix.
    pub use_vsock_crate_for_vsock: bool,
    /// Where the shutdown handler sends its signal; absent on the client.
    pub tx: Option<Sender<bool>>,
}

/// Why the shutdown handler failed.
#[derive(Debug, Clone, Copy, PartialEq, Eq, Structural)]
pub enum ShutdownError {
    /// The run was set up without a channel to signal on.
    NoSenderChannel,
    /// The signal could not be sent: nobody waits for it any more.
    SendFailed,
}

/// The service's handlers, with the settings that they share.
#[derive(Debug, Clone)]
pub struct HelloService {
    pub cfg: Arc<Config>,
}

pub open spec fn hello_message(name: Seq<char>) -> Seq<char> {
    seq!['H', 'e', 'l', 'l', 'o', ' ', '\''] + name + seq!['\'']
}

/// Relies on `Sender::send`: it hands the value to the receiver, and fails
/// when the receiver is gone. Which of the two happens depends on the other side.
#[verifier::external_body]
fn send_signal(tx: &Sender<bool>) -> (sent: bool) {
    tx.send(true).is_ok()
}

/// The shutdown handler's reply, given whether its signal was sent.
pub fn shutdown_reply(sent: bool) -> (r: Result<(), ShutdownError>)
    ensures
        r == (if sent {
            Ok::<(), ShutdownError>(())
        } else {
            Err(ShutdownError::SendFailed)
        }),
{
    if sent {
        Ok(())
    } else {
        Err(ShutdownError::SendFailed)
    }
}

impl HelloService {
    pub fn new(cfg: Config) -> (r: HelloService)
        ensures
            *r.cfg == cfg,
    {
        HelloService { cfg: Arc::new(cfg) }
    }

    /// The greeting that answers a hello call for `name`.
    pub fn say_hello(&self, name: &str) -> (r: String)
        ensures
            r@ == hello_message(name@),
    {
        proof {
            reveal_strlit("Hello '");
            reveal_strlit("'");
        }
        let mut msg = String::from_str("Hello '");
        msg.append(name);
        msg.append("'");
        assert(msg@ =~= hello_message(name@));
        msg
    }

    /// Handles a shutdown call: signals the waiting server once, through the
    /// run's channel. Without a channel it fails and sends nothing.
    pub fn shutdown(&self) -> (r: Result<(), ShutdownError>)
        ensures
            self.cfg.tx is None <==> r == Err::<(), ShutdownError>(ShutdownError::NoSenderChannel),
            self.cfg.tx is Some ==> r == Ok::<(), ShutdownError>(()) || r == Err::<
                (),
                ShutdownError,
            >(ShutdownError::SendFailed),
    {
        match &self.cfg.tx {
            None => Err(ShutdownError::NoSenderChannel),
            Some(tx) => {
                let sent = send_signal(tx);
                shutdown_reply(sent)
            },
        }
    }
}

} // verus!
