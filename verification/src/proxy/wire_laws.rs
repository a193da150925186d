//! What stands on the wire, byte by byte.

use super::encode::{raw_bytes, startup_frame};
use super::protocol::{error_body, frame, message_of, startup_read, MessageView, ProtocolError};
use super::protocol::ReadView;
use super::ssl::ssl_request;
use crate::big_endian::{be_bytes, be_value};
use vstd::prelude::*;
use vstd::utf8::encode_utf8;

verus! {

/// A number in four bytes, the highest first.
pub proof fn lemma_four_bytes(n: int)
    requires
        0 <= n,
    ensures
        be_bytes(n, 4) == seq![
            (n / 0x100_0000 % 0x100) as u8,
            (n / 0x1_0000 % 0x100) as u8,
            (n / 0x100 % 0x100) as u8,
            (n % 0x100) as u8,
        ],
{
    reveal_with_fuel(be_bytes, 5);
    assert((n / 256) / 256 == n / 0x1_0000);
    assert((n / 0x1_0000) / 256 == n / 0x100_0000);
    assert(be_bytes(n, 4) =~= seq![
        (n / 0x100_0000 % 0x100) as u8,
        (n / 0x1_0000 % 0x100) as u8,
        (n / 0x100 % 0x100) as u8,
        (n % 0x100) as u8,
    ]);
}

/// Four bytes as a number, the highest first.
pub proof fn lemma_value_of_four_bytes(a: u8, b: u8, c: u8, d: u8)
    ensures
        be_value(seq![a, b, c, d]) == a * 0x100_0000 + b * 0x1_0000 + c * 0x100 + d,
        be_value(seq![a, b]) == a * 0x100 + b,
{
    reveal_with_fuel(be_value, 5);
    assert(seq![a, b, c, d].drop_last() =~= seq![a, b, c]);
    assert(seq![a, b, c].drop_last() =~= seq![a, b]);
    assert(seq![a, b].drop_last() =~= seq![a]);
    assert(seq![a].drop_last() =~= Seq::<u8>::empty());
}

/// A message is its type, its length with the four bytes of the length itself,
/// and its body.
pub proof fn lemma_frame_bytes(msg_type: u8, body: Seq<u8>)
    ensures
        ({
            let n = 4 + body.len();
            frame(msg_type, body) == seq![
                msg_type,
                (n / 0x100_0000 % 0x100) as u8,
                (n / 0x1_0000 % 0x100) as u8,
                (n / 0x100 % 0x100) as u8,
                (n % 0x100) as u8,
            ] + body
        }),
{
    let n = (4 + body.len()) as int;
    lemma_four_bytes(n);
    assert(frame(msg_type, body) =~= seq![
        msg_type,
        (n / 0x100_0000 % 0x100) as u8,
        (n / 0x1_0000 % 0x100) as u8,
        (n / 0x100 % 0x100) as u8,
        (n % 0x100) as u8,
    ] + body);
}

/// A request for TLS is the eight bytes that the protocol fixes.
pub proof fn lemma_ssl_request_bytes()
    ensures
        ssl_request() == seq![0u8, 0u8, 0u8, 8u8, 4u8, 210u8, 22u8, 47u8],
{
    lemma_four_bytes(8);
    lemma_four_bytes(80877103);
    assert(ssl_request() =~= seq![0u8, 0u8, 0u8, 8u8, 4u8, 210u8, 22u8, 47u8]);
}

/// The messages that carry nothing are told by their type alone.
pub proof fn lemma_bare_messages(b: Seq<u8>)
    ensures
        message_of(0x53, b) == Ok::<MessageView, ProtocolError>(MessageView::Sync),
        message_of(0x48, b) == Ok::<MessageView, ProtocolError>(MessageView::Flush),
        message_of(0x58, b) == Ok::<MessageView, ProtocolError>(MessageView::Terminate),
        message_of(0x63, b) == Ok::<MessageView, ProtocolError>(MessageView::CopyDone),
        message_of(0x64, b) == Ok::<MessageView, ProtocolError>(MessageView::CopyData(b)),
        message_of(0x70, b) == Ok::<MessageView, ProtocolError>(MessageView::PasswordMessage(b)),
{
}

/// A type byte that no message has is refused.
pub proof fn lemma_unknown_types_are_refused(msg_type: u8, b: Seq<u8>)
    requires
        msg_type != 0x51 && msg_type != 0x50 && msg_type != 0x42 && msg_type != 0x45 && msg_type
            != 0x44 && msg_type != 0x53 && msg_type != 0x48 && msg_type != 0x43 && msg_type != 0x58
            && msg_type != 0x64 && msg_type != 0x63 && msg_type != 0x66 && msg_type != 0x70,
    ensures
        message_of(msg_type, b) == Err::<MessageView, ProtocolError>(
            ProtocolError::UnknownType(msg_type),
        ),
{
}

/// The wire bytes of the messages that carry nothing: the type, and a length of
/// four.
pub proof fn lemma_bare_message_bytes()
    ensures
        raw_bytes(MessageView::Sync) == seq![0x53u8, 0u8, 0u8, 0u8, 4u8],
        raw_bytes(MessageView::Flush) == seq![0x48u8, 0u8, 0u8, 0u8, 4u8],
        raw_bytes(MessageView::CopyDone) == seq![0x63u8, 0u8, 0u8, 0u8, 4u8],
{
    lemma_frame_bytes(0x53, Seq::empty());
    lemma_frame_bytes(0x48, Seq::empty());
    lemma_frame_bytes(0x63, Seq::empty());
    assert(raw_bytes(MessageView::Sync) =~= seq![0x53u8, 0u8, 0u8, 0u8, 4u8]);
    assert(raw_bytes(MessageView::Flush) =~= seq![0x48u8, 0u8, 0u8, 0u8, 4u8]);
    assert(raw_bytes(MessageView::CopyDone) =~= seq![0x63u8, 0u8, 0u8, 0u8, 4u8]);
}

/// An error goes out as severity, code and message, each with its letter in
/// front and a null byte behind it, and a null byte at the end.
pub proof fn lemma_error_bytes(severity: Seq<char>, code: Seq<char>, message: Seq<char>)
    ensures
        error_body(severity, code, message) == seq![0x53u8] + encode_utf8(severity) + seq![
            0u8,
            0x43u8,
        ] + encode_utf8(code) + seq![0u8, 0x4du8] + encode_utf8(message) + seq![0u8, 0u8],
{
    assert(error_body(severity, code, message) =~= seq![0x53u8] + encode_utf8(severity) + seq![
        0u8,
        0x43u8,
    ] + encode_utf8(code) + seq![0u8, 0x4du8] + encode_utf8(message) + seq![0u8, 0u8]);
}

/// A startup message without parameters: its length, the version 3.0 of the
/// protocol, and a null byte.
pub proof fn lemma_empty_startup_bytes()
    ensures
        startup_frame(Seq::empty()) == seq![0u8, 0u8, 0u8, 9u8, 0u8, 3u8, 0u8, 0u8, 0u8],
{
    lemma_four_bytes(196608);
    lemma_four_bytes(9);
    let none = Seq::<(Seq<char>, Seq<char>)>::empty();
    assert(super::encode::pairs_bytes(none) =~= Seq::<u8>::empty());
    assert(super::encode::startup_body(none).len() == 5);
    assert(startup_frame(none) =~= seq![0u8, 0u8, 0u8, 9u8, 0u8, 3u8, 0u8, 0u8, 0u8]);
}

/// A message with a text is told by its type and the text before the null byte.
pub proof fn lemma_text_messages(text: Seq<char>)
    requires
        super::laws::null_free(text),
    ensures
        message_of(0x51, encode_utf8(text) + seq![0u8]) == Ok::<MessageView, ProtocolError>(
            MessageView::Query(text),
        ),
        message_of(0x66, encode_utf8(text) + seq![0u8]) == Ok::<MessageView, ProtocolError>(
            MessageView::CopyFail(text),
        ),
        message_of(0x44, seq![0x53u8] + encode_utf8(text) + seq![0u8]) == Ok::<
            MessageView,
            ProtocolError,
        >(MessageView::Describe { kind: 0x53, name: text }),
        message_of(0x43, seq![0x50u8] + encode_utf8(text) + seq![0u8]) == Ok::<
            MessageView,
            ProtocolError,
        >(MessageView::Close { kind: 0x50, name: text }),
{
    let body = encode_utf8(text) + seq![0u8];
    assert(body =~= super::encode::terminated(text));
    assert(body.subrange(0, body.len() as int) =~= body);
    super::laws::lemma_cstring_reads_back(body, 0, text);
    let describe = seq![0x53u8] + encode_utf8(text) + seq![0u8];
    assert(describe.subrange(1, describe.len() as int) =~= body);
    super::laws::lemma_cstring_reads_back(describe, 1, text);
    let close = seq![0x50u8] + encode_utf8(text) + seq![0u8];
    assert(close.subrange(1, close.len() as int) =~= body);
    super::laws::lemma_cstring_reads_back(close, 1, text);
}

/// Where a message ends is told from its length. It is read once all of it is
/// there, and takes as many bytes.
pub proof fn lemma_message_needs_all_its_bytes(b: Seq<u8>)
    requires
        b.len() >= 5,
    ensures
        ({
            let n = b[1] * 0x100_0000 + b[2] * 0x1_0000 + b[3] * 0x100 + b[4];
            let r = super::protocol::frontend_read(b);
            &&& n < 4 ==> r == Err::<ReadView, ProtocolError>(
                ProtocolError::LengthTooSmall(n as u32),
            )
            &&& n >= 4 && b.len() < n + 1 ==> r == Ok::<ReadView, ProtocolError>(
                ReadView::More(n + 1),
            )
            &&& n >= 4 && b.len() >= n + 1 ==> match message_of(b[0], b.subrange(5, n + 1)) {
                Ok(m) => r == Ok::<ReadView, ProtocolError>(ReadView::Done(m, n + 1)),
                Err(e) => r == Err::<ReadView, ProtocolError>(e),
            }
        }),
{
    lemma_value_of_four_bytes(b[1], b[2], b[3], b[4]);
    assert(b.subrange(1, 5) =~= seq![b[1], b[2], b[3], b[4]]);
}

/// The first message of a client is told by the code behind its length.
pub proof fn lemma_first_message(b: Seq<u8>)
    requires
        b.len() >= 8,
    ensures
        ({
            let n = b[0] * 0x100_0000 + b[1] * 0x1_0000 + b[2] * 0x100 + b[3];
            let code = b[4] * 0x100_0000 + b[5] * 0x1_0000 + b[6] * 0x100 + b[7];
            let r = startup_read(b);
            &&& n < 8 ==> r == Err::<ReadView, ProtocolError>(
                ProtocolError::StartupTooShort(n as u32),
            )
            &&& n >= 8 && code == 80877103 ==> r == Ok::<ReadView, ProtocolError>(
                ReadView::Done(MessageView::SslRequest, 8),
            )
            &&& n >= 8 && code == 80877102 && b.len() >= 16 ==> r == Ok::<ReadView, ProtocolError>(
                ReadView::Done(
                    MessageView::CancelRequest {
                        pid: (b[8] * 0x100_0000 + b[9] * 0x1_0000 + b[10] * 0x100 + b[11]) as u32,
                        secret: (b[12] * 0x100_0000 + b[13] * 0x1_0000 + b[14] * 0x100
                            + b[15]) as u32,
                    },
                    16,
                ),
            )
            &&& n >= 8 && code == 196608 && b.len() < n ==> r == Ok::<ReadView, ProtocolError>(
                ReadView::More(n),
            )
            &&& n >= 8 && code != 80877103 && code != 80877102 && code != 196608 ==> r == Err::<
                ReadView,
                ProtocolError,
            >(ProtocolError::UnknownStartupCode(code as u32))
        }),
{
    lemma_value_of_four_bytes(b[0], b[1], b[2], b[3]);
    assert(b.subrange(0, 4) =~= seq![b[0], b[1], b[2], b[3]]);
    lemma_value_of_four_bytes(b[4], b[5], b[6], b[7]);
    assert(b.subrange(4, 8) =~= seq![b[4], b[5], b[6], b[7]]);
    if b.len() >= 16 {
        lemma_value_of_four_bytes(b[8], b[9], b[10], b[11]);
        assert(b.subrange(8, 12) =~= seq![b[8], b[9], b[10], b[11]]);
        lemma_value_of_four_bytes(b[12], b[13], b[14], b[15]);
        assert(b.subrange(12, 16) =~= seq![b[12], b[13], b[14], b[15]]);
    }
}

/// The end of a response is the message `Z` with a length of five, and its last
/// byte is the status.
pub proof fn lemma_end_of_response(status: u8, rest: Seq<u8>)
    ensures
        super::scan::scan_from(seq![0x5au8, 0u8, 0u8, 0u8, 5u8, status] + rest, 0)
            == super::scan::Scan::Ready(status),
{
    let b = seq![0x5au8, 0u8, 0u8, 0u8, 5u8, status] + rest;
    lemma_value_of_four_bytes(0, 0, 0, 5);
    assert(b.subrange(1, 5) =~= seq![0u8, 0u8, 0u8, 5u8]);
}

/// Where a Bind message holds its parameters: behind the names of the portal and
/// the statement, as many format codes of two bytes as it says, and the number
/// of the parameters.
pub proof fn lemma_bind_parts(
    portal: Seq<char>,
    statement: Seq<char>,
    formats: Seq<u8>,
    count: int,
    rest: Seq<u8>,
)
    requires
        super::laws::null_free(portal),
        super::laws::null_free(statement),
        formats.len() % 2 == 0,
        formats.len() / 2 <= 0xffff,
        0 <= count <= 0xffff,
    ensures
        ({
            let head = encode_utf8(portal) + seq![0u8] + encode_utf8(statement) + seq![0u8];
            let b = head + be_bytes((formats.len() / 2) as int, 2) + formats + be_bytes(count, 2)
                + rest;
            super::protocol::bind_values_at(b) == Ok::<
                (Seq<char>, Seq<char>, int, int),
                ProtocolError,
            >((portal, statement, (head.len() + 4 + formats.len()) as int, count))
        }),
{
    let f = (formats.len() / 2) as int;
    let first = super::encode::terminated(portal);
    let second = super::encode::terminated(statement);
    let head = encode_utf8(portal) + seq![0u8] + encode_utf8(statement) + seq![0u8];
    assert(head =~= first + second);
    let b = head + be_bytes(f, 2) + formats + be_bytes(count, 2) + rest;
    crate::big_endian::lemma_be_ranges();
    reveal_with_fuel(crate::big_endian::be_range, 3);
    crate::big_endian::lemma_be_reads_back(f, 2);
    crate::big_endian::lemma_be_reads_back(count, 2);
    assert(b.subrange(0, first.len() as int) =~= first);
    super::laws::lemma_cstring_reads_back(b, 0, portal);
    let p = first.len() as int;
    assert(b.subrange(p, p + second.len()) =~= second);
    super::laws::lemma_cstring_reads_back(b, p, statement);
    let q = head.len() as int;
    assert(b.subrange(q, q + 2) =~= be_bytes(f, 2));
    let v = q + 2 + 2 * f;
    assert(b.subrange(v, v + 2) =~= be_bytes(count, 2));
}

/// One parameter of a Bind message: its length in four bytes and as many bytes.
/// A length of -1 stands for NULL and takes no bytes. One that is longer than
/// the message is an overrun.
pub proof fn lemma_bind_parameter(
    before: Seq<u8>,
    value: Seq<u8>,
    rest: Seq<u8>,
    n: int,
    values: Seq<Seq<u8>>,
)
    requires
        n > 0,
        value.len() < 0x8000_0000,
    ensures
        ({
            let b = before + be_bytes(value.len() as int, 4) + value + rest;
            super::protocol::values_at(b, before.len() as int, n, values)
                == super::protocol::values_at(
                b,
                (before.len() + 4 + value.len()) as int,
                n - 1,
                values.push(value),
            )
        }),
        ({
            let b = before + seq![255u8, 255u8, 255u8, 255u8] + rest;
            super::protocol::values_at(b, before.len() as int, n, values)
                == super::protocol::values_at(
                b,
                (before.len() + 4) as int,
                n - 1,
                values.push(Seq::empty()),
            )
        }),
        value.len() > 0 ==> super::protocol::values_at(
            before + be_bytes(value.len() as int, 4),
            before.len() as int,
            n,
            values,
        ) is Overrun,
        super::protocol::values_at(before, before.len() as int, n, values) is Short,
        super::protocol::values_at(before, before.len() as int, 0, values)
            == super::protocol::BindParams::Values(values),
{
    let p = before.len() as int;
    crate::big_endian::lemma_be_ranges();
    crate::big_endian::lemma_be_reads_back(value.len() as int, 4);
    let b = before + be_bytes(value.len() as int, 4) + value + rest;
    assert(b.subrange(p, p + 4) =~= be_bytes(value.len() as int, 4));
    assert(b.subrange(p + 4, p + 4 + value.len()) =~= value);
    let c = before + seq![255u8, 255u8, 255u8, 255u8] + rest;
    lemma_value_of_four_bytes(255, 255, 255, 255);
    assert(c.subrange(p, p + 4) =~= seq![255u8, 255u8, 255u8, 255u8]);
    let d = before + be_bytes(value.len() as int, 4);
    assert(d.subrange(p, p + 4) =~= be_bytes(value.len() as int, 4));
}

/// An Execute message holds the name of the portal and the number of rows, in
/// four bytes with a sign.
pub proof fn lemma_execute_parts(portal: Seq<char>, a: u8, b: u8, c: u8, d: u8)
    requires
        super::laws::null_free(portal),
    ensures
        ({
            let n = a * 0x100_0000 + b * 0x1_0000 + c * 0x100 + d;
            message_of(0x45, encode_utf8(portal) + seq![0u8] + seq![a, b, c, d]) == Ok::<
                MessageView,
                ProtocolError,
            >(
                MessageView::Execute {
                    portal,
                    max_rows: (if a >= 128 {
                        n - 0x1_0000_0000
                    } else {
                        n
                    }) as i32,
                },
            )
        }),
{
    let first = super::encode::terminated(portal);
    let body = encode_utf8(portal) + seq![0u8] + seq![a, b, c, d];
    assert(body.subrange(0, first.len() as int) =~= first);
    super::laws::lemma_cstring_reads_back(body, 0, portal);
    let p = first.len() as int;
    assert(body.subrange(p, p + 4) =~= seq![a, b, c, d]);
    lemma_value_of_four_bytes(a, b, c, d);
}

/// A Parse message holds the name of the statement, its text, and as many
/// parameter types of four bytes as it says.
pub proof fn lemma_parse_parts(
    name: Seq<char>,
    query: Seq<char>,
    a: u8,
    b: u8,
    c: u8,
    d: u8,
)
    requires
        super::laws::null_free(name),
        super::laws::null_free(query),
    ensures
        ({
            let head = encode_utf8(name) + seq![0u8] + encode_utf8(query) + seq![0u8];
            &&& message_of(0x50, head + seq![0u8, 0u8]) == Ok::<MessageView, ProtocolError>(
                MessageView::Parse { name, query, param_types: Seq::empty() },
            )
            &&& message_of(0x50, head + seq![0u8, 1u8, a, b, c, d]) == Ok::<
                MessageView,
                ProtocolError,
            >(
                MessageView::Parse {
                    name,
                    query,
                    param_types: seq![
                        (a * 0x100_0000 + b * 0x1_0000 + c * 0x100 + d) as u32,
                    ],
                },
            )
            &&& message_of(0x50, head + seq![0u8, 1u8, a, b]) == Err::<MessageView, ProtocolError>(
                ProtocolError::ShortU32,
            )
            &&& message_of(0x50, head) == Err::<MessageView, ProtocolError>(
                ProtocolError::ShortU16,
            )
        }),
{
    let head = encode_utf8(name) + seq![0u8] + encode_utf8(query) + seq![0u8];
    lemma_parse_head(name, query, seq![0u8, 0u8]);
    lemma_parse_head(name, query, seq![0u8, 1u8, a, b, c, d]);
    lemma_parse_head(name, query, seq![0u8, 1u8, a, b]);
    lemma_parse_head(name, query, Seq::empty());
    assert(head + Seq::<u8>::empty() =~= head);
    let q = head.len() as int;
    lemma_value_of_four_bytes(0, 0, 0, 0);
    lemma_value_of_four_bytes(0, 1, 0, 0);
    lemma_value_of_four_bytes(a, b, c, d);
    let none = head + seq![0u8, 0u8];
    assert(none.subrange(q, q + 2) =~= seq![0u8, 0u8]);
    let one = head + seq![0u8, 1u8, a, b, c, d];
    assert(one.subrange(q, q + 2) =~= seq![0u8, 1u8]);
    assert(one.subrange(q + 2, q + 6) =~= seq![a, b, c, d]);
    let short = head + seq![0u8, 1u8, a, b];
    assert(short.subrange(q, q + 2) =~= seq![0u8, 1u8]);
    let n = (a * 0x100_0000 + b * 0x1_0000 + c * 0x100 + d) as u32;
    assert(super::protocol::types_at(one, q + 2, 1)->0 =~= seq![n]);
    assert(super::protocol::types_at(none, q + 2, 0)->0 =~= Seq::<u32>::empty());
}

proof fn lemma_parse_head(name: Seq<char>, query: Seq<char>, rest: Seq<u8>)
    requires
        super::laws::null_free(name),
        super::laws::null_free(query),
    ensures
        ({
            let head = encode_utf8(name) + seq![0u8] + encode_utf8(query) + seq![0u8];
            let b = head + rest;
            let p = encode_utf8(name).len() + 1;
            &&& super::protocol::cstring(b, 0) == Ok::<
                (Seq<char>, int),
                super::protocol::StringError,
            >((name, p as int))
            &&& super::protocol::cstring(b, p as int) == Ok::<
                (Seq<char>, int),
                super::protocol::StringError,
            >((query, head.len() as int))
        }),
{
    let first = super::encode::terminated(name);
    let second = super::encode::terminated(query);
    let head = encode_utf8(name) + seq![0u8] + encode_utf8(query) + seq![0u8];
    let b = head + rest;
    assert(b.subrange(0, first.len() as int) =~= first);
    super::laws::lemma_cstring_reads_back(b, 0, name);
    let p = first.len() as int;
    assert(b.subrange(p, p + second.len()) =~= second);
    super::laws::lemma_cstring_reads_back(b, p, query);
}

/// A Bind message reads as its portal, its statement and its parameters: none, a
/// value of so many bytes, or NULL, which is read as no bytes. One whose
/// parameter is longer than the message is refused, as an overrun.
pub proof fn lemma_bind_message(portal: Seq<char>, statement: Seq<char>, value: Seq<u8>)
    requires
        super::laws::null_free(portal),
        super::laws::null_free(statement),
        value.len() < 0x8000_0000,
    ensures
        ({
            let head = encode_utf8(portal) + seq![0u8] + encode_utf8(statement) + seq![0u8];
            let one = head + seq![0u8, 0u8] + seq![0u8, 1u8];
            let none = head + seq![0u8, 0u8] + seq![0u8, 0u8];
            &&& message_of(0x42, none) == Ok::<MessageView, ProtocolError>(
                MessageView::Bind { portal, statement, params: Seq::empty() },
            )
            &&& message_of(0x42, one + be_bytes(value.len() as int, 4) + value) == Ok::<
                MessageView,
                ProtocolError,
            >(MessageView::Bind { portal, statement, params: seq![value] })
            &&& message_of(0x42, one + seq![255u8, 255u8, 255u8, 255u8]) == Ok::<
                MessageView,
                ProtocolError,
            >(MessageView::Bind { portal, statement, params: seq![Seq::<u8>::empty()] })
            &&& message_of(0x42, one) is Err
            &&& !super::protocol::overruns(0x42, none)
            &&& !super::protocol::overruns(0x42, one)
            &&& !super::protocol::overruns(0x42, one + be_bytes(value.len() as int, 4) + value)
            &&& super::protocol::overruns(0x42, one + be_bytes(value.len() as int, 4))
                == (value.len() > 0)
        }),
{
    let head = encode_utf8(portal) + seq![0u8] + encode_utf8(statement) + seq![0u8];
    let one = head + seq![0u8, 0u8] + seq![0u8, 1u8];
    let none = head + seq![0u8, 0u8] + seq![0u8, 0u8];
    let empty = Seq::<u8>::empty();
    let length = be_bytes(value.len() as int, 4);
    let null = seq![255u8, 255u8, 255u8, 255u8];
    reveal_with_fuel(be_bytes, 3);
    assert(be_bytes(0, 2) =~= seq![0u8, 0u8]);
    assert(be_bytes(1, 2) =~= seq![0u8, 1u8]);
    lemma_bind_parts(portal, statement, empty, 0, empty);
    assert(head + be_bytes(0, 2) + empty + be_bytes(0, 2) + empty =~= none);
    lemma_bind_parts(portal, statement, empty, 1, empty);
    assert(head + be_bytes(0, 2) + empty + be_bytes(1, 2) + empty =~= one);
    lemma_bind_parts(portal, statement, empty, 1, length + value);
    assert(head + be_bytes(0, 2) + empty + be_bytes(1, 2) + (length + value) =~= one + length
        + value);
    lemma_bind_parts(portal, statement, empty, 1, null);
    assert(head + be_bytes(0, 2) + empty + be_bytes(1, 2) + null =~= one + null);
    lemma_bind_parts(portal, statement, empty, 1, length);
    assert(head + be_bytes(0, 2) + empty + be_bytes(1, 2) + length =~= one + length);
    lemma_bind_parameter(one, value, empty, 1, Seq::empty());
    assert(one + length + value + empty =~= one + length + value);
    assert(one + null + empty =~= one + null);
    assert(Seq::<Seq<u8>>::empty().push(value) =~= seq![value]);
    assert(Seq::<Seq<u8>>::empty().push(empty) =~= seq![empty]);
    lemma_bind_parameter(none, value, empty, 1, Seq::empty());
    lemma_four_bytes(value.len() as int);
    if value.len() == 0 {
        assert(one + length =~= one + length + value);
    }
}

/// Only a Bind message overruns.
pub proof fn lemma_only_bind_overruns(msg_type: u8, b: Seq<u8>)
    requires
        super::protocol::overruns(msg_type, b),
    ensures
        msg_type == 0x42,
{
}

/// What ends a list of startup parameters, and what is wrong with one: a name
/// must end in a zero byte, and names and values must be text. A value that
/// stands last needs no zero byte.
pub proof fn lemma_startup_parameters(
    key: Seq<u8>,
    value: Seq<u8>,
    rest: Seq<u8>,
    params: Map<Seq<char>, Seq<char>>,
)
    requires
        key.len() > 0,
        super::laws::zero_free(key),
        super::laws::zero_free(value),
    ensures
        super::protocol::startup_params(seq![0u8] + rest, 0, params) == Ok::<
            Map<Seq<char>, Seq<char>>,
            ProtocolError,
        >(params),
        super::protocol::startup_params(Seq::empty(), 0, params) == Ok::<
            Map<Seq<char>, Seq<char>>,
            ProtocolError,
        >(params),
        super::protocol::startup_params(key, 0, params) == Err::<
            Map<Seq<char>, Seq<char>>,
            ProtocolError,
        >(ProtocolError::ParamValueMissing),
        !vstd::utf8::valid_utf8(key) ==> super::protocol::startup_params(
            key + seq![0u8] + value,
            0,
            params,
        ) == Err::<Map<Seq<char>, Seq<char>>, ProtocolError>(ProtocolError::ParamKeyNotUtf8),
        vstd::utf8::valid_utf8(key) && !vstd::utf8::valid_utf8(value)
            ==> super::protocol::startup_params(key + seq![0u8] + value, 0, params) == Err::<
            Map<Seq<char>, Seq<char>>,
            ProtocolError,
        >(ProtocolError::ParamValueNotUtf8),
        vstd::utf8::valid_utf8(key) && vstd::utf8::valid_utf8(value)
            ==> super::protocol::startup_params(key + seq![0u8] + value, 0, params) == Ok::<
            Map<Seq<char>, Seq<char>>,
            ProtocolError,
        >(params.insert(vstd::utf8::decode_utf8(key), vstd::utf8::decode_utf8(value))),
{
    super::protocol::lemma_zero_from(seq![0u8] + rest, 0, 0);
    super::protocol::lemma_zero_from(Seq::empty(), 0, 0);
    super::protocol::lemma_zero_from(key, 0, key.len() as int);
    let b = key + seq![0u8] + value;
    let k = key.len() as int;
    assert forall|j: int| 0 <= j < k implies b[j] != 0 by {
        assert(b[j] == key[j]);
    }
    super::protocol::lemma_zero_from(b, 0, k);
    assert forall|j: int| k + 1 <= j < b.len() implies b[j] != 0 by {
        assert(b[j] == value[j - k - 1]);
    }
    super::protocol::lemma_zero_from(b, k + 1, b.len() as int);
    assert(b.subrange(0, k) =~= key);
    assert(b.subrange(k + 1, b.len() as int) =~= value);
    reveal_with_fuel(super::protocol::startup_params, 2);
}

/// A read that succeeds gives what the bytes mean; one that fails, fails where
/// they mean nothing, and with the fault that they have.
pub proof fn lemma_reading_agrees(
    r: Result<super::protocol::FrontendMessage, ProtocolError>,
    v: Result<MessageView, ProtocolError>,
)
    requires
        super::protocol::agrees(r, v),
    ensures
        r is Ok <==> v is Ok,
        r matches Ok(m) ==> v == Ok::<MessageView, ProtocolError>(m@),
        r matches Err(e) ==> v == Err::<MessageView, ProtocolError>(e),
{
}

} // verus!
