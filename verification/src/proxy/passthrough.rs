//! The authentication exchange, which the proxy passes through.

use super::scan::{scan_from, ReadyScan, Scan};
use vstd::prelude::*;

verus! {

/// What follows from what the backend sent, once it is forwarded to the client.
#[derive(Debug, Clone, Copy, PartialEq, Eq, Structural)]
pub enum AuthStep {
    /// The backend closed the connection.
    BackendClosed,
    /// The backend is ready: the exchange has ended.
    Done,
    /// The client may have to respond, e.g. to a password challenge.
    AwaitClient,
}

/// How long to wait for the client to respond, in milliseconds.
pub const CLIENT_WAIT_MS: u64 = 10;

/// An authentication exchange.
///
/// What the backend sends is forwarded to the client, and what the client
/// responds is forwarded to the backend, until the backend sends a
/// `ReadyForQuery`. It is detected even when it spans two reads.
pub struct AuthExchange {
    scan: ReadyScan,
}

impl View for AuthExchange {
    type V = Seq<u8>;

    /// The received bytes that belong to no complete message yet.
    closed spec fn view(&self) -> Seq<u8> {
        self.scan@
    }
}

impl AuthExchange {
    /// An exchange that has not begun.
    pub fn new() -> (r: Self)
        ensures
            r@ == Seq::<u8>::empty(),
    {
        AuthExchange { scan: ReadyScan::new() }
    }

    /// Takes what the backend sent: nothing if it closed the connection.
    pub fn on_backend(&mut self, chunk: &[u8]) -> (r: AuthStep)
        ensures
            chunk@.len() == 0 ==> r == AuthStep::BackendClosed && final(self)@ == old(self)@,
            chunk@.len() > 0 ==> match scan_from(old(self)@ + chunk@, 0) {
                Scan::Ready(_) => r == AuthStep::Done && final(self)@ == old(self)@ + chunk@,
                Scan::Rest(p) => r == AuthStep::AwaitClient && final(self)@ == (old(self)@
                    + chunk@).skip(p),
            },
    {
        if chunk.len() == 0 {
            return AuthStep::BackendClosed;
        }
        match self.scan.feed(chunk) {
            Some(_) => AuthStep::Done,
            None => AuthStep::AwaitClient,
        }
    }
}

/// The text of the error when the backend closed the connection.
pub fn closed_message() -> (r: String)
    ensures
        r@ == "backend closed during auth"@,
{
    "backend closed during auth".to_owned()
}

/// Whether what the client responded in time is forwarded: it is unless it is
/// nothing.
pub fn forwards_response(response: Option<usize>) -> (r: bool)
    ensures
        r <==> (response matches Some(n) && n > 0),
{
    match response {
        Some(n) => n > 0,
        None => false,
    }
}

} // verus!
