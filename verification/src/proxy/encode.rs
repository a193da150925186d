//! Frontend messages as wire bytes, for forwarding to a backend.

use super::protocol::{frame, write_message, FrontendMessage, MessageView, PROTOCOL_V3};
use super::protocol::{BIND, CLOSE, COPY_DATA, COPY_DONE, COPY_FAIL, DESCRIBE, EXECUTE, FLUSH};
use super::protocol::{PARSE, QUERY, SYNC};
use crate::big_endian::{be_bytes, put_be};
use crate::table::{views, NameTable};
use vstd::prelude::*;
use vstd::utf8::encode_utf8;

verus! {

// ── The encodings ────────────────────────────────────────────────────────────

/// A text as a null-terminated string.
pub open spec fn terminated(t: Seq<char>) -> Seq<u8> {
    encode_utf8(t).push(0)
}

/// Startup parameters as null-terminated keys and values.
pub open spec fn pairs_bytes(pairs: Seq<(Seq<char>, Seq<char>)>) -> Seq<u8>
    decreases pairs.len(),
{
    if pairs.len() == 0 {
        Seq::empty()
    } else {
        pairs_bytes(pairs.drop_last()) + terminated(pairs.last().0) + terminated(pairs.last().1)
    }
}

/// The body of a startup message: the protocol version and the parameters.
pub open spec fn startup_body(pairs: Seq<(Seq<char>, Seq<char>)>) -> Seq<u8> {
    be_bytes(PROTOCOL_V3 as int, 4) + pairs_bytes(pairs) + seq![0u8]
}

/// A startup message, with its length in front.
pub open spec fn startup_frame(pairs: Seq<(Seq<char>, Seq<char>)>) -> Seq<u8> {
    be_bytes((4 + startup_body(pairs).len()) as int, 4) + startup_body(pairs)
}

/// Parameter types, four bytes each.
pub open spec fn types_bytes(types: Seq<u32>) -> Seq<u8>
    decreases types.len(),
{
    if types.len() == 0 {
        Seq::empty()
    } else {
        types_bytes(types.drop_last()) + be_bytes(types.last() as int, 4)
    }
}

/// Parameter values, each with its length in front.
pub open spec fn values_bytes(values: Seq<Seq<u8>>) -> Seq<u8>
    decreases values.len(),
{
    if values.len() == 0 {
        Seq::empty()
    } else {
        values_bytes(values.drop_last()) + be_bytes(values.last().len() as int, 4) + values.last()
    }
}

/// The signed number `n` in four bytes.
pub open spec fn signed_bytes(n: int) -> Seq<u8> {
    be_bytes(
        if n < 0 {
            n + 0x1_0000_0000
        } else {
            n
        },
        4,
    )
}

/// The type byte and the body of a message that is forwarded to a backend;
/// `None` for the messages that are not.
pub open spec fn raw_message(m: MessageView) -> Option<(u8, Seq<u8>)> {
    match m {
        MessageView::Sync => Some((SYNC, Seq::empty())),
        MessageView::Flush => Some((FLUSH, Seq::empty())),
        MessageView::CopyDone => Some((COPY_DONE, Seq::empty())),
        MessageView::CopyData(data) => Some((COPY_DATA, data)),
        MessageView::CopyFail(reason) => Some((COPY_FAIL, terminated(reason))),
        MessageView::Describe { kind, name } => Some((DESCRIBE, seq![kind] + terminated(name))),
        MessageView::Close { kind, name } => Some((CLOSE, seq![kind] + terminated(name))),
        MessageView::Execute { portal, max_rows } => Some(
            (EXECUTE, terminated(portal) + signed_bytes(max_rows as int)),
        ),
        MessageView::Parse { name, query, param_types } => Some(
            (
                PARSE,
                terminated(name) + terminated(query) + be_bytes(param_types.len() as int, 2)
                    + types_bytes(param_types),
            ),
        ),
        MessageView::Bind { portal, statement, params } => Some(
            (
                BIND,
                terminated(portal) + terminated(statement) + be_bytes(0, 2) + be_bytes(
                    params.len() as int,
                    2,
                ) + values_bytes(params) + be_bytes(0, 2),
            ),
        ),
        _ => None,
    }
}

/// The wire bytes of a message that is forwarded to a backend; none for the
/// other messages.
pub open spec fn raw_bytes(m: MessageView) -> Seq<u8> {
    match raw_message(m) {
        Some((msg_type, body)) => frame(msg_type, body),
        None => Seq::empty(),
    }
}

/// Whether the length of a message fits into its length field.
pub open spec fn sendable(m: MessageView) -> bool {
    raw_message(m) matches Some((msg_type, body)) ==> 4 + body.len() <= u32::MAX
}

// ── Encoding ─────────────────────────────────────────────────────────────────

fn put_terminated(out: &mut Vec<u8>, text: &str)
    ensures
        final(out)@ == old(out)@ + terminated(text@),
{
    let ghost before = out@;
    out.extend_from_slice(text.as_bytes());
    out.push(0);
    assert(out@ =~= before + terminated(text@));
}

/// Re-encode the startup message (protocol 3.0 format) for forwarding.
pub fn encode_startup_message(params: &NameTable<String>) -> (r: Vec<u8>)
    requires
        4 + startup_body(params.pairs()).len() <= u32::MAX,
    ensures
        r@ == startup_frame(params.pairs()),
{
    let ghost pairs = params.pairs();
    let mut body: Vec<u8> = Vec::new();
    // Protocol version 3.0
    put_be(&mut body, PROTOCOL_V3 as u64, 4);
    let ghost version = body@;
    assert(version =~= be_bytes(PROTOCOL_V3 as int, 4));
    assert(pairs.take(0) =~= Seq::<(Seq<char>, Seq<char>)>::empty());
    assert(body@ =~= version + pairs_bytes(pairs.take(0)));
    let n = params.len();
    for i in 0..n
        invariant
            n == pairs.len(),
            pairs == params.pairs(),
            body@ == version + pairs_bytes(pairs.take(i as int)),
    {
        put_terminated(&mut body, params.name_at(i).as_str());
        put_terminated(&mut body, params.value_at(i).as_str());
        assert(pairs.take(i + 1).drop_last() =~= pairs.take(i as int));
        assert(body@ =~= version + pairs_bytes(pairs.take(i + 1)));
    }
    assert(pairs.take(n as int) =~= pairs);
    body.push(0);  // terminator
    assert(body@ =~= startup_body(pairs));
    // Prepend 4-byte total length (includes the length field itself)
    let mut msg: Vec<u8> = Vec::new();
    put_be(&mut msg, 4 + body.len() as u64, 4);
    msg.extend_from_slice(body.as_slice());
    assert(msg@ =~= startup_frame(pairs));
    msg
}

/// Builds a framed message.
pub fn build_msg(type_byte: u8, body: &[u8]) -> (r: Vec<u8>)
    requires
        4 + body@.len() <= u32::MAX,
    ensures
        r@ == frame(type_byte, body@),
{
    let mut msg: Vec<u8> = Vec::new();
    write_message(&mut msg, type_byte, body);
    assert(msg@ =~= frame(type_byte, body@));
    msg
}

/// Encode a simple Query message ('Q').
pub fn encode_query_message(sql: &str) -> (r: Vec<u8>)
    requires
        4 + terminated(sql@).len() <= u32::MAX,
    ensures
        r@ == frame(QUERY, terminated(sql@)),
{
    let mut body: Vec<u8> = Vec::new();
    put_terminated(&mut body, sql);
    assert(body@ =~= terminated(sql@));
    build_msg(QUERY, body.as_slice())
}

fn no_body() -> (r: Vec<u8>)
    ensures
        r@ == Seq::<u8>::empty(),
{
    Vec::new()
}

fn kind_and_name(kind: u8, name: &str) -> (r: Vec<u8>)
    ensures
        r@ == seq![kind] + terminated(name@),
{
    let mut body: Vec<u8> = Vec::new();
    body.push(kind);
    put_terminated(&mut body, name);
    assert(body@ =~= seq![kind] + terminated(name@));
    body
}

fn put_i32(out: &mut Vec<u8>, n: i32)
    ensures
        final(out)@ == old(out)@ + signed_bytes(n as int),
{
    let raw: u64 = if n < 0 {
        (n as i64 + 0x1_0000_0000) as u64
    } else {
        n as u64
    };
    put_be(out, raw, 4);
}

fn parse_body(name: &str, query: &str, param_types: &Vec<u32>) -> (r: Vec<u8>)
    ensures
        r@ == terminated(name@) + terminated(query@) + be_bytes(param_types@.len() as int, 2)
            + types_bytes(param_types@),
{
    let mut body: Vec<u8> = Vec::new();
    put_terminated(&mut body, name);
    put_terminated(&mut body, query);
    put_be(&mut body, param_types.len() as u64, 2);
    let ghost head = body@;
    assert(head =~= terminated(name@) + terminated(query@) + be_bytes(
        param_types@.len() as int,
        2,
    ));
    assert(param_types@.take(0) =~= Seq::<u32>::empty());
    assert(body@ =~= head + types_bytes(param_types@.take(0)));
    for i in 0..param_types.len()
        invariant
            body@ == head + types_bytes(param_types@.take(i as int)),
    {
        put_be(&mut body, param_types[i] as u64, 4);
        assert(param_types@.take(i + 1).drop_last() =~= param_types@.take(i as int));
        assert(body@ =~= head + types_bytes(param_types@.take(i + 1)));
    }
    assert(param_types@.take(param_types@.len() as int) =~= param_types@);
    body
}

fn bind_body(portal: &str, statement: &str, params: &Vec<Vec<u8>>) -> (r: Vec<u8>)
    ensures
        r@ == terminated(portal@) + terminated(statement@) + be_bytes(0, 2) + be_bytes(
            params@.len() as int,
            2,
        ) + values_bytes(views(params@)) + be_bytes(0, 2),
{
    let ghost values = views(params@);
    let mut body: Vec<u8> = Vec::new();
    put_terminated(&mut body, portal);
    put_terminated(&mut body, statement);
    // Format codes: 0 (use text for all)
    put_be(&mut body, 0, 2);
    // Parameter values
    put_be(&mut body, params.len() as u64, 2);
    let ghost head = body@;
    assert(head =~= terminated(portal@) + terminated(statement@) + be_bytes(0, 2) + be_bytes(
        params@.len() as int,
        2,
    ));
    assert(values.take(0) =~= Seq::<Seq<u8>>::empty());
    assert(body@ =~= head + values_bytes(values.take(0)));
    for i in 0..params.len()
        invariant
            values == views(params@),
            body@ == head + values_bytes(values.take(i as int)),
    {
        put_be(&mut body, params[i].len() as u64, 4);
        body.extend_from_slice(params[i].as_slice());
        assert(values.take(i + 1).drop_last() =~= values.take(i as int));
        assert(body@ =~= head + values_bytes(values.take(i + 1)));
    }
    assert(values.take(params@.len() as int) =~= values);
    // Result format codes: 0 (text)
    put_be(&mut body, 0, 2);
    body
}

fn raw_parts(msg: &FrontendMessage) -> (r: Option<(u8, Vec<u8>)>)
    ensures
        r is Some <==> raw_message(msg@) is Some,
        r matches Some((t, b)) ==> raw_message(msg@) == Some((t, b@)),
{
    match msg {
        FrontendMessage::Sync => Some((SYNC, no_body())),
        FrontendMessage::Flush => Some((FLUSH, no_body())),
        FrontendMessage::CopyDone => Some((COPY_DONE, no_body())),
        FrontendMessage::CopyData(data) => {
            let mut body: Vec<u8> = Vec::new();
            body.extend_from_slice(data.as_slice());
            assert(body@ =~= data@);
            Some((COPY_DATA, body))
        },
        FrontendMessage::CopyFail(reason) => {
            let mut body: Vec<u8> = Vec::new();
            put_terminated(&mut body, reason.as_str());
            assert(body@ =~= terminated(reason@));
            Some((COPY_FAIL, body))
        },
        FrontendMessage::Describe { kind, name } => Some(
            (DESCRIBE, kind_and_name(*kind, name.as_str())),
        ),
        FrontendMessage::Close { kind, name } => Some((CLOSE, kind_and_name(*kind, name.as_str()))),
        FrontendMessage::Execute { portal, max_rows } => {
            let mut body: Vec<u8> = Vec::new();
            put_terminated(&mut body, portal.as_str());
            put_i32(&mut body, *max_rows);
            assert(body@ =~= terminated(portal@) + signed_bytes(*max_rows as int));
            Some((EXECUTE, body))
        },
        FrontendMessage::Parse { name, query, param_types } => Some(
            (PARSE, parse_body(name.as_str(), query.as_str(), param_types)),
        ),
        FrontendMessage::Bind { portal, statement, params } => Some(
            (BIND, bind_body(portal.as_str(), statement.as_str(), params)),
        ),
        // These should not be re-encoded here.
        _ => None,
    }
}

/// Whether the length of a message fits into its length field.
pub fn is_sendable(msg: &FrontendMessage) -> (r: bool)
    ensures
        r == sendable(msg@),
{
    match raw_parts(msg) {
        Some((_, body)) => 4 + body.len() as u128 <= u32::MAX as u128,
        None => true,
    }
}

/// Re-encode a frontend message back to wire bytes for forwarding. Messages
/// that are not forwarded give no bytes.
pub fn encode_raw_message(msg: &FrontendMessage) -> (r: Vec<u8>)
    requires
        sendable(msg@),
    ensures
        r@ == raw_bytes(msg@),
{
    match raw_parts(msg) {
        Some((type_byte, body)) => build_msg(type_byte, body.as_slice()),
        None => Vec::new(),
    }
}

} // verus!
