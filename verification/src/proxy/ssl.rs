//! SSL / TLS negotiation for incoming client connections.
//!
//! The Postgres SSL negotiation protocol:
//! 1. Client sends an 8-byte "SSL request" packet.
//! 2. Server responds with `S` (willing) or `N` (not willing).
//! 3. If `S`, the TCP stream is upgraded to TLS in-place.
//! 4. After TLS (or if no TLS), the client sends the regular startup message.

use super::protocol::{startup_read, MessageView, ProtocolError, ReadView, SSL_REQUEST_CODE};
use crate::big_endian::{be_bytes, get_be, lemma_be_ranges, lemma_be_reads_back};
use crate::big_endian::lemma_be_writes_back;
use vstd::prelude::*;

verus! {

/// The 8 bytes that constitute a Postgres SSL request: the length of the
/// packet and the SSL request code.
pub open spec fn ssl_request() -> Seq<u8> {
    be_bytes(8, 4) + be_bytes(SSL_REQUEST_CODE as int, 4)
}

/// The answer of a server that is willing, `S`
pub const SSL_ACCEPT: u8 = 0x53;

/// The answer of a server that is not willing, `N`
pub const SSL_DECLINE: u8 = 0x4E;

/// What to do with a new client.
#[derive(Debug, Clone, Copy, PartialEq, Eq, Structural)]
pub enum SslAction {
    /// Take the request off the stream, answer with this byte, and upgrade to
    /// TLS.
    Upgrade(u8),
    /// Take the request off the stream, answer with this byte, and go on in
    /// plain text.
    Decline(u8),
    /// The client does not ask for TLS; leave its bytes where they are.
    Plain,
}

/// Whether the bytes are an SSL request.
pub fn is_ssl_request(peeked: &[u8]) -> (r: bool)
    ensures
        r <==> peeked@ == ssl_request(),
{
    if peeked.len() != 8 {
        proof {
            lemma_be_ranges();
            lemma_be_reads_back(8, 4);
            lemma_be_reads_back(SSL_REQUEST_CODE as int, 4);
        }
        return false;
    }
    let length: u64 = get_be(peeked, 0, 4);
    let code: u64 = get_be(peeked, 4, 4);
    proof {
        lemma_be_ranges();
        lemma_be_reads_back(8, 4);
        lemma_be_reads_back(SSL_REQUEST_CODE as int, 4);
        let a = peeked@.subrange(0, 4);
        let b = peeked@.subrange(4, 8);
        lemma_be_writes_back(a);
        lemma_be_writes_back(b);
        assert(peeked@ =~= a + b);
        if peeked@ == ssl_request() {
            assert(a =~= be_bytes(8, 4));
            assert(b =~= be_bytes(SSL_REQUEST_CODE as int, 4));
        }
    }
    length == 8 && code == SSL_REQUEST_CODE as u64
}

/// Handle the Postgres SSL negotiation dance, given the first bytes of the
/// stream (at most 8) and whether TLS is configured.
///
/// - If they match the SSL request magic **and** TLS is configured, the
///   request is consumed, `'S'` is sent, and the stream is upgraded to TLS.
/// - If they match the SSL request magic but TLS is not configured, `'N'` is
///   sent and the session continues on plain TCP.
/// - If they do NOT match the SSL request magic, the client is not requesting
///   TLS. The bytes remain in the kernel receive buffer.
pub fn handle_ssl_owned(peeked: &[u8], tls_configured: bool) -> (r: SslAction)
    ensures
        r == if peeked@ != ssl_request() {
            SslAction::Plain
        } else if tls_configured {
            SslAction::Upgrade(SSL_ACCEPT)
        } else {
            SslAction::Decline(SSL_DECLINE)
        },
{
    if !is_ssl_request(peeked) {
        SslAction::Plain
    } else if tls_configured {
        SslAction::Upgrade(SSL_ACCEPT)
    } else {
        SslAction::Decline(SSL_DECLINE)
    }
}

/// The negotiation for a caller that cannot upgrade its stream: always
/// declines TLS with `'N'`.
pub fn handle_ssl_negotiation(peeked: &[u8]) -> (r: SslAction)
    ensures
        r == if peeked@ == ssl_request() {
            SslAction::Decline(SSL_DECLINE)
        } else {
            SslAction::Plain
        },
{
    handle_ssl_owned(peeked, false)
}

/// An SSL request is what the startup reader takes for one.
pub proof fn lemma_ssl_request_reads_back(rest: Seq<u8>)
    ensures
        startup_read(ssl_request() + rest) == Ok::<ReadView, ProtocolError>(
            ReadView::Done(MessageView::SslRequest, 8),
        ),
{
    let b = ssl_request() + rest;
    lemma_be_ranges();
    lemma_be_reads_back(8, 4);
    lemma_be_reads_back(SSL_REQUEST_CODE as int, 4);
    assert(b.subrange(0, 4) =~= be_bytes(8, 4));
    assert(b.subrange(4, 8) =~= be_bytes(SSL_REQUEST_CODE as int, 4));
}

} // verus!
