//! What reading and writing the wire protocol promise together.

use super::encode::{pairs_bytes, raw_bytes, raw_message, sendable, startup_body};
use super::encode::{startup_frame, terminated, types_bytes, values_bytes};
use super::protocol::{cstring, frame, frontend_read, message_of, number_at, signed, startup_params};
use super::protocol::{startup_read, types_at, values_at, zero_from, BindParams, MessageView};
use super::protocol::{bind_values_at, lemma_zero_from, lemma_zero_from_bounds, ReadView};
use super::protocol::{frame_overrun, overruns, PROTOCOL_V3, QUERY};
use crate::big_endian::{be_bytes, be_range, be_value, lemma_be_len, lemma_be_ranges};
use crate::big_endian::{lemma_be_reads_back, lemma_be_writes_back};
use super::protocol::{intent_of, mentions_write, StatementIntent};
use crate::table::{distinct_names, map_of_entries};
use crate::text::{ascii_lower, ascii_lowercase, ascii_upper, ascii_uppercase, begins_with};
use crate::text::{contains_text, is_space, lemma_begins_parts, lemma_contains_parts};
use crate::text::{lemma_trimming, trimmed_start, upper_text};
use vstd::prelude::*;
use vstd::utf8::{decode_utf8, encode_scalar, encode_utf8, is_ascii_chars, valid_utf8};

verus! {

// ── Null bytes ───────────────────────────────────────────────────────────────

/// Whether a text has no null character.
pub open spec fn null_free(t: Seq<char>) -> bool {
    forall|i: int| 0 <= i < t.len() ==> (#[trigger] t[i]) as u32 != 0
}

/// Whether there is no null byte.
pub open spec fn zero_free(b: Seq<u8>) -> bool {
    forall|i: int| 0 <= i < b.len() ==> #[trigger] b[i] != 0
}

proof fn lemma_scalar_zero(v: u32)
    ensures
        v != 0 ==> zero_free(encode_scalar(v)),
        v == 0 ==> encode_scalar(v).len() == 1 && encode_scalar(v)[0] == 0,
{
    assert(v != 0 && v <= 0x7F ==> (v & 0x7F) as u8 != 0) by (bit_vector);
    assert((0u32 & 0x7F) as u8 == 0) by (bit_vector);
    assert(0xC0 | ((v >> 6) & 0x1F) as u8 != 0) by (bit_vector);
    assert(0xE0 | ((v >> 12) & 0x0F) as u8 != 0) by (bit_vector);
    assert(0xF0 | ((v >> 18) & 0x7) as u8 != 0) by (bit_vector);
    assert(0x80 | (v & 0x3F) as u8 != 0) by (bit_vector);
    assert(0x80 | ((v >> 6) & 0x3F) as u8 != 0) by (bit_vector);
    assert(0x80 | ((v >> 12) & 0x3F) as u8 != 0) by (bit_vector);
}

/// The encoding of a text has a null byte exactly if the text has a null
/// character.
proof fn lemma_utf8_zero(t: Seq<char>)
    ensures
        zero_free(encode_utf8(t)) <==> null_free(t),
    decreases t.len(),
{
    if t.len() > 0 {
        let rest = t.drop_first();
        let head = encode_scalar(t[0] as u32);
        let tail = encode_utf8(rest);
        lemma_utf8_zero(rest);
        lemma_scalar_zero(t[0] as u32);
        let all = encode_utf8(t);
        assert(all == head + tail);
        if null_free(t) {
            assert forall|i: int| 0 <= i < rest.len() implies (#[trigger] rest[i]) as u32 != 0 by {
                assert(rest[i] == t[i + 1]);
            }
            assert forall|i: int| 0 <= i < all.len() implies #[trigger] all[i] != 0 by {
                if i < head.len() {
                    assert(all[i] == head[i]);
                } else {
                    assert(all[i] == tail[i - head.len()]);
                }
            }
        }
        if zero_free(all) {
            assert forall|i: int| 0 <= i < tail.len() implies #[trigger] tail[i] != 0 by {
                assert(all[head.len() + i] == tail[i]);
            }
            if t[0] as u32 == 0 {
                assert(all[0] == head[0]);
            }
            assert forall|i: int| 0 <= i < t.len() implies (#[trigger] t[i]) as u32 != 0 by {
                if i > 0 {
                    assert(rest[i - 1] == t[i]);
                }
            }
        }
    }
}

/// What is read from bytes without a null byte has no null character.
proof fn lemma_decoded_null_free(b: Seq<u8>)
    requires
        valid_utf8(b),
        zero_free(b),
    ensures
        null_free(decode_utf8(b)),
{
    vstd::utf8::decode_utf8_encode_utf8(b);
    lemma_utf8_zero(decode_utf8(b));
}

/// A null-terminated string is read back wherever it stands.
pub proof fn lemma_cstring_reads_back(b: Seq<u8>, at: int, t: Seq<char>)
    requires
        0 <= at,
        at + terminated(t).len() <= b.len(),
        b.subrange(at, at + terminated(t).len()) == terminated(t),
        null_free(t),
    ensures
        cstring(b, at) == Ok::<(Seq<char>, int), super::protocol::StringError>(
            (t, at + terminated(t).len()),
        ),
{
    let e = encode_utf8(t);
    let w = b.subrange(at, at + terminated(t).len());
    lemma_utf8_zero(t);
    assert forall|j: int| at <= j < at + e.len() implies b[j] != 0 by {
        assert(w[j - at] == e[j - at]);
    }
    assert(w[e.len() as int] == 0);
    lemma_zero_from(b, at, at + e.len());
    assert(b.subrange(at, at + e.len()) =~= e) by {
        assert forall|j: int| 0 <= j < e.len() implies b[at + j] == e[j] by {
            assert(w[j] == e[j]);
        }
    }
    vstd::utf8::encode_utf8_valid_utf8(t);
    vstd::utf8::encode_utf8_decode_utf8(t);
}

/// What is read as a null-terminated string has no null character.
proof fn lemma_cstring_null_free(b: Seq<u8>, at: int)
    requires
        0 <= at <= b.len(),
        cstring(b, at) is Ok,
    ensures
        null_free(cstring(b, at)->Ok_0.0),
        at < cstring(b, at)->Ok_0.1 <= b.len(),
{
    lemma_zero_from_bounds(b, at);
    let end = zero_from(b, at);
    assert(zero_free(b.subrange(at, end)));
    lemma_decoded_null_free(b.subrange(at, end));
}

/// A number is read back wherever it stands.
proof fn lemma_number_reads_back(b: Seq<u8>, at: int, n: int, k: nat)
    requires
        0 <= at,
        at + k <= b.len(),
        0 <= n < be_range(k),
        b.subrange(at, at + k) == be_bytes(n, k),
    ensures
        number_at(b, at, k as int) == Some(n),
{
    lemma_be_reads_back(n, k);
}

// ── Regular messages ─────────────────────────────────────────────────────────

/// Whether a message can be told from its wire bytes: texts have no null
/// character, and counts and lengths fit into their fields.
pub open spec fn wire_safe(m: MessageView) -> bool {
    match m {
        MessageView::Query(sql) => null_free(sql),
        MessageView::Parse { name, query, param_types } => null_free(name) && null_free(query)
            && param_types.len() <= u16::MAX,
        MessageView::Bind { portal, statement, params } => null_free(portal) && null_free(
            statement,
        ) && params.len() <= u16::MAX && forall|i: int|
            0 <= i < params.len() ==> (#[trigger] params[i]).len() <= i32::MAX,
        MessageView::Execute { portal, max_rows } => null_free(portal),
        MessageView::Describe { kind, name } => null_free(name),
        MessageView::Close { kind, name } => null_free(name),
        MessageView::CopyFail(reason) => null_free(reason),
        _ => true,
    }
}

proof fn lemma_types_len(types: Seq<u32>)
    ensures
        types_bytes(types).len() == 4 * types.len(),
    decreases types.len(),
{
    if types.len() > 0 {
        lemma_types_len(types.drop_last());
        lemma_be_len(types.last() as int, 4);
    }
}

proof fn lemma_type_at(types: Seq<u32>, i: int)
    requires
        0 <= i < types.len(),
    ensures
        types_bytes(types).len() == 4 * types.len(),
        types_bytes(types).subrange(4 * i, 4 * i + 4) == be_bytes(types[i] as int, 4),
    decreases types.len(),
{
    lemma_types_len(types);
    lemma_types_len(types.drop_last());
    lemma_be_len(types.last() as int, 4);
    let front = types_bytes(types.drop_last());
    if i < types.len() - 1 {
        lemma_type_at(types.drop_last(), i);
        assert(types_bytes(types).subrange(4 * i, 4 * i + 4) =~= front.subrange(4 * i, 4 * i + 4));
    } else {
        assert(types_bytes(types).subrange(4 * i, 4 * i + 4) =~= be_bytes(types[i] as int, 4));
    }
}

proof fn lemma_types_read_back(b: Seq<u8>, p: int, types: Seq<u32>)
    requires
        0 <= p,
        p + types_bytes(types).len() <= b.len(),
        b.subrange(p, p + types_bytes(types).len()) == types_bytes(types),
    ensures
        types_at(b, p, types.len() as int) == Some(types),
{
    lemma_types_len(types);
    let w = types_bytes(types);
    let r = Seq::new(
        types.len(),
        |i: int| be_value(b.subrange(p + 4 * i, p + 4 * i + 4)) as u32,
    );
    lemma_be_ranges();
    assert forall|i: int| 0 <= i < types.len() implies r[i] == types[i] by {
        lemma_type_at(types, i);
        let c = b.subrange(p, p + w.len());
        assert(b.subrange(p + 4 * i, p + 4 * i + 4) =~= c.subrange(4 * i, 4 * i + 4));
        lemma_be_reads_back(types[i] as int, 4);
    }
    assert(r =~= types);
}

proof fn lemma_values_take(values: Seq<Seq<u8>>, i: int)
    requires
        0 <= i < values.len(),
    ensures
        values_bytes(values.take(i + 1)) == values_bytes(values.take(i)) + be_bytes(
            values[i].len() as int,
            4,
        ) + values[i],
{
    assert(values.take(i + 1).drop_last() =~= values.take(i));
}

proof fn lemma_values_prefix(values: Seq<Seq<u8>>, i: int)
    requires
        0 <= i <= values.len(),
    ensures
        values_bytes(values.take(i)).len() <= values_bytes(values).len(),
        values_bytes(values).take(values_bytes(values.take(i)).len() as int) == values_bytes(
            values.take(i),
        ),
    decreases values.len() - i,
{
    if i < values.len() {
        lemma_values_prefix(values, i + 1);
        lemma_values_take(values, i);
        let a = values_bytes(values.take(i));
        let c = values_bytes(values.take(i + 1));
        let w = values_bytes(values);
        assert(w.take(a.len() as int) =~= c.take(a.len() as int));
        assert(c.take(a.len() as int) =~= a);
    } else {
        assert(values.take(i) =~= values);
        assert(values_bytes(values).take(values_bytes(values).len() as int) =~= values_bytes(
            values,
        ));
    }
}

proof fn lemma_values_read_back(b: Seq<u8>, p: int, values: Seq<Seq<u8>>, i: int)
    requires
        0 <= p,
        0 <= i <= values.len(),
        p + values_bytes(values).len() <= b.len(),
        b.subrange(p, p + values_bytes(values).len()) == values_bytes(values),
        forall|j: int| 0 <= j < values.len() ==> (#[trigger] values[j]).len() <= i32::MAX,
    ensures
        values_at(
            b,
            p + values_bytes(values.take(i)).len(),
            values.len() - i,
            values.take(i),
        ) == BindParams::Values(values),
    decreases values.len() - i,
{
    let a = values_bytes(values.take(i));
    let at = p + a.len();
    if i < values.len() {
        let v = values[i];
        let c = values_bytes(values.take(i + 1));
        let w = values_bytes(values);
        lemma_values_take(values, i);
        lemma_values_prefix(values, i + 1);
        lemma_be_len(v.len() as int, 4);
        lemma_be_ranges();
        let shown = b.subrange(p, p + w.len());
        assert(w.take(c.len() as int) == c);
        assert(b.subrange(at, at + 4) =~= be_bytes(v.len() as int, 4)) by {
            assert forall|k: int| 0 <= k < 4 implies b[at + k] == be_bytes(v.len() as int, 4)[k] by {
                assert(shown[a.len() + k] == w.take(c.len() as int)[a.len() + k]);
            }
        }
        lemma_number_reads_back(b, at, v.len() as int, 4);
        assert(b.subrange(at + 4, at + 4 + v.len()) =~= v) by {
            assert forall|k: int| 0 <= k < v.len() implies b[at + 4 + k] == v[k] by {
                assert(shown[a.len() + 4 + k] == w.take(c.len() as int)[a.len() + 4 + k]);
            }
        }
        assert(values.take(i).push(v) =~= values.take(i + 1));
        lemma_values_read_back(b, p, values, i + 1);
    } else {
        assert(values.take(i) =~= values);
    }
}

/// The body of a forwarded message.
spec fn raw_body(m: MessageView) -> Seq<u8> {
    match raw_message(m) {
        Some((_, b)) => b,
        None => Seq::empty(),
    }
}

/// Whether the body of a forwarded message is read back as the message.
spec fn reads_back(m: MessageView) -> bool {
    raw_message(m) matches Some((t, b)) ==> message_of(t, b) == Ok::<
        MessageView,
        super::protocol::ProtocolError,
    >(m) && !overruns(t, b)
}

proof fn lemma_execute_reads_back(portal: Seq<char>, max_rows: i32)
    requires
        wire_safe((MessageView::Execute { portal, max_rows })),
    ensures
        reads_back((MessageView::Execute { portal, max_rows })),
{
    let m = MessageView::Execute { portal, max_rows };
    let b = raw_body(m);
    lemma_be_ranges();
        let p = terminated(portal).len() as int;
        assert(b.subrange(0, p) =~= terminated(portal));
        lemma_cstring_reads_back(b, 0, portal);
        let n = if max_rows < 0 {
            max_rows + 0x1_0000_0000
        } else {
            max_rows as int
        };
        lemma_be_len(n, 4);
        assert(b.subrange(p, p + 4) =~= be_bytes(n, 4));
        lemma_number_reads_back(b, p, n, 4);
}

proof fn lemma_parse_reads_back(name: Seq<char>, query: Seq<char>, param_types: Seq<u32>)
    requires
        wire_safe((MessageView::Parse { name, query, param_types })),
    ensures
        reads_back((MessageView::Parse { name, query, param_types })),
{
    let m = MessageView::Parse { name, query, param_types };
    let b = raw_body(m);
    lemma_be_ranges();
        let p = terminated(name).len() as int;
        let q = p + terminated(query).len();
        let count = param_types.len() as int;
        lemma_be_len(count, 2);
        assert(b.subrange(0, p) =~= terminated(name));
        lemma_cstring_reads_back(b, 0, name);
        assert(b.subrange(p, q) =~= terminated(query));
        lemma_cstring_reads_back(b, p, query);
        assert(b.subrange(q, q + 2) =~= be_bytes(count, 2));
        lemma_number_reads_back(b, q, count, 2);
        assert(b.subrange(q + 2, b.len() as int) =~= types_bytes(param_types));
        lemma_types_read_back(b, q + 2, param_types);
}

proof fn lemma_bind_reads_back(portal: Seq<char>, statement: Seq<char>, params: Seq<Seq<u8>>)
    requires
        wire_safe((MessageView::Bind { portal, statement, params })),
    ensures
        reads_back((MessageView::Bind { portal, statement, params })),
{
    let m = MessageView::Bind { portal, statement, params };
    let b = raw_body(m);
    lemma_be_ranges();
        let p = terminated(portal).len() as int;
        let q = p + terminated(statement).len();
        let count = params.len() as int;
        let w = values_bytes(params);
        lemma_be_len(0, 2);
        lemma_be_len(count, 2);
        assert(b.subrange(0, p) =~= terminated(portal));
        lemma_cstring_reads_back(b, 0, portal);
        assert(b.subrange(p, q) =~= terminated(statement));
        lemma_cstring_reads_back(b, p, statement);
        assert(b.subrange(q, q + 2) =~= be_bytes(0, 2));
        lemma_number_reads_back(b, q, 0, 2);
        assert(b.subrange(q + 2, q + 4) =~= be_bytes(count, 2));
        lemma_number_reads_back(b, q + 2, count, 2);
        assert(b.subrange(q + 4, q + 4 + w.len()) =~= w);
        assert(params.take(0) =~= Seq::<Seq<u8>>::empty());
        lemma_values_read_back(b, q + 4, params, 0);
}

/// The body of a forwarded message is read back as the message.
proof fn lemma_body_reads_back(m: MessageView)
    requires
        wire_safe(m),
        raw_message(m) is Some,
    ensures
        reads_back(m),
{
    let (t, b) = raw_message(m)->0;
    match m {
        MessageView::CopyFail(reason) => {
            assert(b.subrange(0, b.len() as int) =~= terminated(reason));
            lemma_cstring_reads_back(b, 0, reason);
        },
        MessageView::Describe { kind, name } => {
            assert(b.subrange(1, b.len() as int) =~= terminated(name));
            lemma_cstring_reads_back(b, 1, name);
        },
        MessageView::Close { kind, name } => {
            assert(b.subrange(1, b.len() as int) =~= terminated(name));
            lemma_cstring_reads_back(b, 1, name);
        },
        MessageView::Execute { portal, max_rows } => {
            lemma_execute_reads_back(portal, max_rows);
        },
        MessageView::Parse { name, query, param_types } => {
            lemma_parse_reads_back(name, query, param_types);
        },
        MessageView::Bind { portal, statement, params } => {
            lemma_bind_reads_back(portal, statement, params);
        },
        _ => {},
    }
}

/// A framed message is told apart from whatever follows it.
proof fn lemma_frame_read(msg_type: u8, body: Seq<u8>, rest: Seq<u8>)
    requires
        4 + body.len() <= u32::MAX,
    ensures
        ({
            let b = frame(msg_type, body) + rest;
            &&& frame(msg_type, body).len() == 5 + body.len()
            &&& b[0] == msg_type
            &&& be_value(b.subrange(1, 5)) == 4 + body.len()
            &&& b.subrange(5, (5 + body.len()) as int) == body
        }),
{
    let b = frame(msg_type, body) + rest;
    let n = (4 + body.len()) as int;
    lemma_be_ranges();
    lemma_be_reads_back(n, 4);
    assert(b.subrange(1, 5) =~= be_bytes(n, 4));
    assert(b.subrange(5, (5 + body.len()) as int) =~= body);
}

/// A forwarded message reaches the backend as it was read: its wire bytes,
/// with anything behind them, are read as the message.
pub proof fn lemma_forwarded_message_reads_back(m: MessageView, rest: Seq<u8>)
    requires
        wire_safe(m),
        raw_message(m) is Some,
        sendable(m),
    ensures
        frontend_read(raw_bytes(m) + rest) == Ok::<ReadView, super::protocol::ProtocolError>(
            ReadView::Done(m, raw_bytes(m).len() as int),
        ),
        !frame_overrun(raw_bytes(m) + rest),
{
    let (t, body) = raw_message(m)->0;
    lemma_body_reads_back(m);
    lemma_frame_read(t, body, rest);
}

/// A forwarded query reaches the backend as it was read.
pub proof fn lemma_query_reads_back(sql: Seq<char>, rest: Seq<u8>)
    requires
        null_free(sql),
        4 + terminated(sql).len() <= u32::MAX,
    ensures
        frontend_read(frame(QUERY, terminated(sql)) + rest) == Ok::<
            ReadView,
            super::protocol::ProtocolError,
        >(ReadView::Done(MessageView::Query(sql), frame(QUERY, terminated(sql)).len() as int)),
{
    let body = terminated(sql);
    assert(body.subrange(0, body.len() as int) =~= body);
    lemma_cstring_reads_back(body, 0, sql);
    lemma_frame_read(QUERY, body, rest);
}

proof fn lemma_values_at_safe(b: Seq<u8>, p: int, n: int, values: Seq<Seq<u8>>)
    requires
        0 <= p <= b.len(),
        0 <= n,
        forall|j: int| 0 <= j < values.len() ==> (#[trigger] values[j]).len() <= i32::MAX,
        values_at(b, p, n, values) is Values,
    ensures
        values_at(b, p, n, values)->Values_0.len() == values.len() + n,
        forall|j: int|
            0 <= j < values_at(b, p, n, values)->Values_0.len() ==> (#[trigger] values_at(
                b,
                p,
                n,
                values,
            )->Values_0[j]).len() <= i32::MAX,
    decreases n,
{
    if n > 0 {
        let raw = number_at(b, p, 4)->0;
        let len = signed(raw);
        lemma_be_ranges();
        lemma_be_writes_back(b.subrange(p, p + 4));
        if len < 0 {
            lemma_values_at_safe(b, p + 4, n - 1, values.push(Seq::empty()));
        } else {
            lemma_values_at_safe(
                b,
                p + 4 + len,
                n - 1,
                values.push(b.subrange(p + 4, p + 4 + len)),
            );
        }
    }
}

/// Every message that was read can be told from its wire bytes. So a message
/// that the proxy reads, encodes and sends is read as the same message.
pub proof fn lemma_read_messages_are_safe(msg_type: u8, b: Seq<u8>)
    requires
        message_of(msg_type, b) is Ok,
    ensures
        wire_safe(message_of(msg_type, b)->Ok_0),
{
    let m = message_of(msg_type, b)->Ok_0;
    lemma_be_ranges();
    match m {
        MessageView::Query(_) | MessageView::CopyFail(_) | MessageView::Execute { .. } => {
            lemma_cstring_null_free(b, 0);
        },
        MessageView::Describe { .. } | MessageView::Close { .. } => {
            lemma_cstring_null_free(b, 1);
        },
        MessageView::Parse { name, query, param_types } => {
            lemma_cstring_null_free(b, 0);
            let p = cstring(b, 0)->Ok_0.1;
            lemma_cstring_null_free(b, p);
            let q = cstring(b, p)->Ok_0.1;
            lemma_be_writes_back(b.subrange(q, q + 2));
        },
        MessageView::Bind { portal, statement, params } => {
            lemma_cstring_null_free(b, 0);
            let p = cstring(b, 0)->Ok_0.1;
            lemma_cstring_null_free(b, p);
            let q = cstring(b, p)->Ok_0.1;
            lemma_be_writes_back(b.subrange(q, q + 2));
            let (_, _, at, count) = bind_values_at(b)->Ok_0;
            lemma_be_writes_back(b.subrange(at - 2, at));
            lemma_values_at_safe(b, at, count, Seq::empty());
        },
        _ => {},
    }
}

// ── Startup messages ─────────────────────────────────────────────────────────

/// Whether startup parameters can be told from their wire bytes: every name
/// occurs once and is not empty, and there are no null characters.
pub open spec fn safe_params(pairs: Seq<(Seq<char>, Seq<char>)>) -> bool {
    &&& distinct_names(pairs)
    &&& forall|i: int|
        0 <= i < pairs.len() ==> (#[trigger] pairs[i]).0.len() != 0 && null_free(pairs[i].0)
            && null_free(pairs[i].1)
}

proof fn lemma_pairs_take(pairs: Seq<(Seq<char>, Seq<char>)>, i: int)
    requires
        0 <= i < pairs.len(),
    ensures
        pairs_bytes(pairs.take(i + 1)) == pairs_bytes(pairs.take(i)) + terminated(pairs[i].0)
            + terminated(pairs[i].1),
{
    assert(pairs.take(i + 1).drop_last() =~= pairs.take(i));
}

proof fn lemma_pairs_prefix(pairs: Seq<(Seq<char>, Seq<char>)>, i: int)
    requires
        0 <= i <= pairs.len(),
    ensures
        pairs_bytes(pairs.take(i)).len() <= pairs_bytes(pairs).len(),
        pairs_bytes(pairs).take(pairs_bytes(pairs.take(i)).len() as int) == pairs_bytes(
            pairs.take(i),
        ),
    decreases pairs.len() - i,
{
    if i < pairs.len() {
        lemma_pairs_prefix(pairs, i + 1);
        lemma_pairs_take(pairs, i);
        let a = pairs_bytes(pairs.take(i));
        let c = pairs_bytes(pairs.take(i + 1));
        let w = pairs_bytes(pairs);
        assert(w.take(a.len() as int) =~= c.take(a.len() as int));
        assert(c.take(a.len() as int) =~= a);
    } else {
        assert(pairs.take(i) =~= pairs);
        assert(pairs_bytes(pairs).take(pairs_bytes(pairs).len() as int) =~= pairs_bytes(pairs));
    }
}

/// A text that is not empty has a first byte.
proof fn lemma_utf8_not_empty(t: Seq<char>)
    requires
        t.len() > 0,
    ensures
        encode_utf8(t).len() > 0,
{
}

/// A null-terminated text ends at the first null byte, and is UTF-8.
proof fn lemma_text_at(b: Seq<u8>, at: int, t: Seq<char>)
    requires
        0 <= at,
        at + terminated(t).len() <= b.len(),
        b.subrange(at, at + terminated(t).len()) == terminated(t),
        null_free(t),
    ensures
        zero_from(b, at) == at + terminated(t).len() - 1,
        valid_utf8(b.subrange(at, zero_from(b, at))),
        decode_utf8(b.subrange(at, zero_from(b, at))) == t,
{
    lemma_cstring_reads_back(b, at, t);
}

proof fn lemma_params_read_back(b: Seq<u8>, pairs: Seq<(Seq<char>, Seq<char>)>, i: int)
    requires
        safe_params(pairs),
        0 <= i <= pairs.len(),
        b == pairs_bytes(pairs) + seq![0u8],
    ensures
        startup_params(
            b,
            pairs_bytes(pairs.take(i)).len() as int,
            map_of_entries(pairs.take(i)),
        ) == Ok::<Map<Seq<char>, Seq<char>>, super::protocol::ProtocolError>(map_of_entries(pairs)),
    decreases pairs.len() - i,
{
    let a = pairs_bytes(pairs.take(i));
    let p = a.len() as int;
    let w = pairs_bytes(pairs);
    if i < pairs.len() {
        let (k, v) = pairs[i];
        let c = pairs_bytes(pairs.take(i + 1));
        lemma_pairs_take(pairs, i);
        lemma_pairs_prefix(pairs, i + 1);
        let q = p + terminated(k).len();
        let r = q + terminated(v).len();
        assert(c == a + terminated(k) + terminated(v));
        assert(w.take(c.len() as int) == c);
        assert(b.subrange(p, q) =~= terminated(k)) by {
            assert forall|j: int| 0 <= j < terminated(k).len() implies b[p + j] == terminated(k)[j] by {
                assert(w.take(c.len() as int)[p + j] == c[p + j]);
            }
        }
        assert(b.subrange(q, r) =~= terminated(v)) by {
            assert forall|j: int| 0 <= j < terminated(v).len() implies b[q + j] == terminated(v)[j] by {
                assert(w.take(c.len() as int)[q + j] == c[q + j]);
            }
        }
        lemma_text_at(b, p, k);
        lemma_text_at(b, q, v);
        lemma_utf8_not_empty(k);
        let before = pairs.take(i);
        assert(before.push((k, v)) =~= pairs.take(i + 1));
        assert(!crate::table::has_name(before, k)) by {
            if crate::table::has_name(before, k) {
                let j = crate::table::name_position(before, k);
                assert(before[j].0 == pairs[j].0);
                assert(pairs[j].0 != pairs[i].0);
            }
        }
        assert(distinct_names(before)) by {
            assert forall|x: int, y: int| 0 <= x < y < before.len() implies (#[trigger] before[x]).0
                != (#[trigger] before[y]).0 by {
                assert(pairs[x].0 != pairs[y].0);
            }
        }
        crate::table::lemma_map_push(before, k, v);
        lemma_params_read_back(b, pairs, i + 1);
    } else {
        assert(pairs.take(i) =~= pairs);
        assert(b[p] == 0);
        lemma_zero_from(b, p, p);
    }
}

/// The parameters of a startup message are those that were written into it,
/// however long it is.
pub proof fn lemma_startup_params_read_back(pairs: Seq<(Seq<char>, Seq<char>)>)
    requires
        safe_params(pairs),
    ensures
        startup_params(startup_frame(pairs).skip(8), 0, Map::empty()) == Ok::<
            Map<Seq<char>, Seq<char>>,
            super::protocol::ProtocolError,
        >(map_of_entries(pairs)),
{
    let payload = pairs_bytes(pairs) + seq![0u8];
    lemma_be_len((4 + startup_body(pairs).len()) as int, 4);
    lemma_be_len(PROTOCOL_V3 as int, 4);
    assert(startup_frame(pairs).skip(8) =~= payload);
    assert(pairs.take(0) =~= Seq::<(Seq<char>, Seq<char>)>::empty());
    assert(map_of_entries(pairs.take(0)) =~= Map::<Seq<char>, Seq<char>>::empty());
    lemma_params_read_back(payload, pairs, 0);
}

/// A forwarded startup message reaches the backend with the parameters that
/// the client sent.
pub proof fn lemma_startup_reads_back(pairs: Seq<(Seq<char>, Seq<char>)>, rest: Seq<u8>)
    requires
        safe_params(pairs),
        4 + startup_body(pairs).len() <= u32::MAX,
    ensures
        startup_read(startup_frame(pairs) + rest) == Ok::<
            ReadView,
            super::protocol::ProtocolError,
        >(
            ReadView::Done(
                MessageView::StartupMessage { params: map_of_entries(pairs) },
                startup_frame(pairs).len() as int,
            ),
        ),
{
    let b = startup_frame(pairs) + rest;
    let body = startup_body(pairs);
    let total = (4 + body.len()) as int;
    lemma_be_ranges();
    lemma_be_reads_back(total, 4);
    lemma_be_reads_back(PROTOCOL_V3 as int, 4);
    assert(b.subrange(0, 4) =~= be_bytes(total, 4));
    assert(b.subrange(4, 8) =~= be_bytes(PROTOCOL_V3 as int, 4));
    let payload = pairs_bytes(pairs) + seq![0u8];
    assert(b.subrange(8, total) =~= payload);
    assert(pairs.take(0) =~= Seq::<(Seq<char>, Seq<char>)>::empty());
    assert(map_of_entries(pairs.take(0)) =~= Map::<Seq<char>, Seq<char>>::empty());
    lemma_params_read_back(payload, pairs, 0);
}

/// Whether all names are not empty, and there are no null characters.
pub open spec fn safe_map(m: Map<Seq<char>, Seq<char>>) -> bool {
    forall|k: Seq<char>| #[trigger]
        m.contains_key(k) ==> k.len() != 0 && null_free(k) && null_free(m[k])
}

proof fn lemma_params_stay_safe(b: Seq<u8>, p: int, params: Map<Seq<char>, Seq<char>>)
    requires
        0 <= p,
        safe_map(params),
        startup_params(b, p, params) is Ok,
    ensures
        safe_map(startup_params(b, p, params)->Ok_0),
    decreases b.len() + 1 - p,
{
    if p <= b.len() {
        lemma_zero_from_bounds(b, p);
        let key_end = zero_from(b, p);
        if p < key_end < b.len() {
            lemma_zero_from_bounds(b, key_end + 1);
            let value_end = zero_from(b, key_end + 1);
            let k = b.subrange(p, key_end);
            let v = b.subrange(key_end + 1, value_end);
            assert(zero_free(k));
            assert(zero_free(v));
            if valid_utf8(k) && valid_utf8(v) {
                lemma_decoded_null_free(k);
                lemma_decoded_null_free(v);
                vstd::utf8::decode_utf8_encode_utf8(k);
                assert(decode_utf8(k).len() != 0) by {
                    if decode_utf8(k).len() == 0 {
                        assert(encode_utf8(decode_utf8(k)).len() == 0);
                    }
                }
                lemma_params_stay_safe(b, value_end + 1, params.insert(
                    decode_utf8(k),
                    decode_utf8(v),
                ));
            }
        }
    }
}

/// Startup parameters that were read can be sent on: whatever order they are
/// written in, they are told from their wire bytes.
pub proof fn lemma_read_params_are_safe(b: Seq<u8>, pairs: Seq<(Seq<char>, Seq<char>)>)
    requires
        startup_params(b, 0, Map::empty()) == Ok::<
            Map<Seq<char>, Seq<char>>,
            super::protocol::ProtocolError,
        >(map_of_entries(pairs)),
        distinct_names(pairs),
    ensures
        safe_params(pairs),
{
    lemma_params_stay_safe(b, 0, Map::empty());
    assert forall|i: int| 0 <= i < pairs.len() implies (#[trigger] pairs[i]).0.len() != 0
        && null_free(pairs[i].0) && null_free(pairs[i].1) by {
        crate::table::lemma_entry_in_map(pairs, i);
    }
}

// ── Classification ───────────────────────────────────────────────────────────

/// White space in front of a statement does not change where it goes.
pub proof fn lemma_leading_space_is_ignored(space: Seq<char>, sql: Seq<char>)
    requires
        forall|i: int| 0 <= i < space.len() ==> is_space(#[trigger] space[i]),
    ensures
        intent_of(upper_text(trimmed_start(space + sql))) == intent_of(
            upper_text(trimmed_start(sql)),
        ),
    decreases space.len(),
{
    if space.len() == 0 {
        assert(space + sql =~= sql);
    } else {
        assert((space + sql)[0] == space[0]);
        assert((space + sql).skip(1) =~= space.skip(1) + sql);
        assert forall|i: int| 0 <= i < space.skip(1).len() implies is_space(
            #[trigger] space.skip(1)[i],
        ) by {
            assert(space.skip(1)[i] == space[i + 1]);
        }
        lemma_leading_space_is_ignored(space.skip(1), sql);
    }
}

/// Two texts that differ in the case of ASCII letters only are still such
/// texts without their leading white space.
proof fn lemma_trimmed_alike(s: Seq<char>, t: Seq<char>)
    requires
        ascii_upper(s) == ascii_upper(t),
    ensures
        ascii_upper(trimmed_start(s)) == ascii_upper(trimmed_start(t)),
    decreases s.len(),
{
    assert(ascii_upper(s).len() == s.len() && ascii_upper(t).len() == t.len());
    if s.len() > 0 {
        assert(ascii_upper(s)[0] == ascii_uppercase(s[0]));
        assert(ascii_upper(t)[0] == ascii_uppercase(t[0]));
        assert(is_space(s[0]) == is_space(t[0]));
        if is_space(s[0]) {
            assert(ascii_upper(s.skip(1)) =~= ascii_upper(s).skip(1));
            assert(ascii_upper(t.skip(1)) =~= ascii_upper(t).skip(1));
            lemma_trimmed_alike(s.skip(1), t.skip(1));
        }
    }
}

proof fn lemma_ascii_alike(a: Seq<char>, b: Seq<char>)
    requires
        ascii_upper(a) == ascii_upper(b),
    ensures
        is_ascii_chars(a) ==> is_ascii_chars(b),
{
    assert(ascii_upper(a).len() == a.len() && ascii_upper(b).len() == b.len());
    assert forall|i: int| is_ascii_chars(a) && 0 <= i < b.len() implies '\0' <= #[trigger] b[i]
        <= '\u{7f}' by {
        assert('\0' <= a[i] <= '\u{7f}');
        assert(ascii_upper(a)[i] == ascii_uppercase(a[i]));
        assert(ascii_upper(b)[i] == ascii_uppercase(b[i]));
    }
}

/// Statements that differ in the case of ASCII letters only go to the same
/// place.
pub proof fn lemma_case_is_ignored(s: Seq<char>, t: Seq<char>)
    requires
        ascii_upper(s) == ascii_upper(t),
    ensures
        intent_of(upper_text(trimmed_start(s))) == intent_of(upper_text(trimmed_start(t))),
{
    lemma_trimmed_alike(s, t);
    let a = trimmed_start(s);
    let b = trimmed_start(t);
    lemma_ascii_alike(a, b);
    lemma_ascii_alike(b, a);
}

/// Writing a statement in upper or in lower case does not change where it goes.
pub proof fn lemma_upper_and_lower_case(s: Seq<char>)
    ensures
        intent_of(upper_text(trimmed_start(ascii_lower(s)))) == intent_of(
            upper_text(trimmed_start(s)),
        ),
        intent_of(upper_text(trimmed_start(ascii_upper(s)))) == intent_of(
            upper_text(trimmed_start(s)),
        ),
{
    assert(ascii_upper(ascii_lower(s)) =~= ascii_upper(s)) by {
        assert forall|i: int| 0 <= i < s.len() implies ascii_uppercase(
            ascii_lowercase(#[trigger] s[i]),
        ) == ascii_uppercase(s[i]) by {}
    }
    assert(ascii_upper(ascii_upper(s)) =~= ascii_upper(s));
    lemma_case_is_ignored(ascii_lower(s), s);
    lemma_case_is_ignored(ascii_upper(s), s);
}

/// Only a statement that begins with one of five words is taken for a read,
/// and one with a common table expression that mentions a write never is.
pub proof fn lemma_in_doubt_it_is_a_write(upper: Seq<char>)
    ensures
        intent_of(upper) == StatementIntent::Read ==> begins_with(upper, "SELECT"@) || begins_with(
            upper,
            "TABLE"@,
        ) || begins_with(upper, "VALUES"@) || begins_with(upper, "WITH"@) || begins_with(
            upper,
            "BEGIN READ ONLY"@,
        ),
        begins_with(upper, "WITH"@) && mentions_write(upper) ==> intent_of(upper)
            == StatementIntent::Write,
{
    reveal_strlit("SELECT");
    reveal_strlit("TABLE");
    reveal_strlit("VALUES");
    reveal_strlit("WITH");
    if begins_with(upper, "WITH"@) {
        assert(upper.subrange(0, 4)[0] == 'W');
        if begins_with(upper, "SELECT"@) {
            assert(upper.subrange(0, 6)[0] == 'S');
        }
        if begins_with(upper, "TABLE"@) {
            assert(upper.subrange(0, 5)[0] == 'T');
        }
        if begins_with(upper, "VALUES"@) {
            assert(upper.subrange(0, 6)[0] == 'V');
        }
    }
}

/// A common table expression in which any of the four words for writing occurs
/// is a write, whatever else it holds. One in which none occurs is a read if
/// it selects.
pub proof fn lemma_table_expression_that_writes(upper: Seq<char>)
    requires
        begins_with(upper, "WITH"@),
    ensures
        contains_text(upper, "INSERT"@) ==> intent_of(upper) == StatementIntent::Write,
        contains_text(upper, "UPDATE"@) ==> intent_of(upper) == StatementIntent::Write,
        contains_text(upper, "DELETE"@) ==> intent_of(upper) == StatementIntent::Write,
        contains_text(upper, "MERGE"@) ==> intent_of(upper) == StatementIntent::Write,
        !contains_text(upper, "SELECT"@) ==> intent_of(upper) == StatementIntent::Write,
        contains_text(upper, "SELECT"@) && !contains_text(upper, "INSERT"@) && !contains_text(
            upper,
            "UPDATE"@,
        ) && !contains_text(upper, "DELETE"@) && !contains_text(upper, "MERGE"@) ==> intent_of(
            upper,
        ) == StatementIntent::Read,
{
    lemma_in_doubt_it_is_a_write(upper);
    lemma_with_is_no_other_word(upper);
}

/// The same, told from the parts of the statement.
pub proof fn lemma_writing_words(a: Seq<char>, b: Seq<char>)
    ensures
        intent_of("WITH"@ + (a + "INSERT"@ + b)) == StatementIntent::Write,
        intent_of("WITH"@ + (a + "UPDATE"@ + b)) == StatementIntent::Write,
        intent_of("WITH"@ + (a + "DELETE"@ + b)) == StatementIntent::Write,
        intent_of("WITH"@ + (a + "MERGE"@ + b)) == StatementIntent::Write,
{
    lemma_writing_word(a, "INSERT"@, b);
    lemma_writing_word(a, "UPDATE"@, b);
    lemma_writing_word(a, "DELETE"@, b);
    lemma_writing_word(a, "MERGE"@, b);
}

proof fn lemma_writing_word(a: Seq<char>, word: Seq<char>, b: Seq<char>)
    requires
        word == "INSERT"@ || word == "UPDATE"@ || word == "DELETE"@ || word == "MERGE"@,
    ensures
        intent_of("WITH"@ + (a + word + b)) == StatementIntent::Write,
{
    let s = "WITH"@ + (a + word + b);
    assert(s == "WITH"@ + (a + word + b));
    lemma_begins_parts(s, "WITH"@);
    assert(s =~= ("WITH"@ + a) + word + b);
    lemma_contains_parts(s, word);
    lemma_table_expression_that_writes(s);
}

proof fn lemma_with_is_no_other_word(upper: Seq<char>)
    requires
        begins_with(upper, "WITH"@),
    ensures
        !begins_with(upper, "SELECT"@),
        !begins_with(upper, "TABLE"@),
        !begins_with(upper, "VALUES"@),
{
    reveal_strlit("SELECT");
    reveal_strlit("TABLE");
    reveal_strlit("VALUES");
    reveal_strlit("WITH");
    assert(upper.subrange(0, 4)[0] == 'W');
    if begins_with(upper, "SELECT"@) {
        assert(upper.subrange(0, 6)[0] == 'S');
    }
    if begins_with(upper, "TABLE"@) {
        assert(upper.subrange(0, 5)[0] == 'T');
    }
    if begins_with(upper, "VALUES"@) {
        assert(upper.subrange(0, 6)[0] == 'V');
    }
}

/// The first word tells a statement: three words read, SET stays with the
/// session, and a transaction that is opened as read-only reads.
pub proof fn lemma_first_word(rest: Seq<char>)
    ensures
        intent_of("SELECT"@ + rest) == StatementIntent::Read,
        intent_of("TABLE"@ + rest) == StatementIntent::Read,
        intent_of("VALUES"@ + rest) == StatementIntent::Read,
        intent_of("SET"@ + rest) == StatementIntent::SetLocal,
        intent_of("BEGIN READ ONLY"@ + rest) == StatementIntent::Read,
{
    reveal_strlit("SELECT");
    reveal_strlit("TABLE");
    reveal_strlit("VALUES");
    reveal_strlit("WITH");
    reveal_strlit("SET");
    reveal_strlit("BEGIN READ ONLY");
    lemma_begins_parts("SELECT"@ + rest, "SELECT"@);
    lemma_begins_parts("TABLE"@ + rest, "TABLE"@);
    lemma_begins_parts("VALUES"@ + rest, "VALUES"@);
    let set = "SET"@ + rest;
    lemma_begins_parts(set, "SET"@);
    assert(set[0] == 'S' && set[1] == 'E' && set[2] == 'T');
    if begins_with(set, "SELECT"@) {
        assert(set.subrange(0, 6)[2] == 'L');
    }
    lemma_other_first_letter(set);
    let begin = "BEGIN READ ONLY"@ + rest;
    lemma_begins_parts(begin, "BEGIN READ ONLY"@);
    assert(begin[0] == 'B');
    if begins_with(begin, "SELECT"@) {
        assert(begin.subrange(0, 6)[0] == 'S');
    }
    if begins_with(begin, "SET"@) {
        assert(begin.subrange(0, 3)[0] == 'S');
    }
    lemma_other_first_letter(begin);
}

proof fn lemma_other_first_letter(s: Seq<char>)
    requires
        s.len() > 0,
        s[0] != 'T' && s[0] != 'V' && s[0] != 'W',
    ensures
        !begins_with(s, "TABLE"@),
        !begins_with(s, "VALUES"@),
        !begins_with(s, "WITH"@),
{
    reveal_strlit("TABLE");
    reveal_strlit("VALUES");
    reveal_strlit("WITH");
    if begins_with(s, "TABLE"@) {
        assert(s.subrange(0, 5)[0] == 'T');
    }
    if begins_with(s, "VALUES"@) {
        assert(s.subrange(0, 6)[0] == 'V');
    }
    if begins_with(s, "WITH"@) {
        assert(s.subrange(0, 4)[0] == 'W');
    }
}

/// Any other first word is a write.
pub proof fn lemma_any_other_word_writes(upper: Seq<char>)
    requires
        forall|rest: Seq<char>| upper != #[trigger] ("SELECT"@ + rest),
        forall|rest: Seq<char>| upper != #[trigger] ("TABLE"@ + rest),
        forall|rest: Seq<char>| upper != #[trigger] ("VALUES"@ + rest),
        forall|rest: Seq<char>| upper != #[trigger] ("WITH"@ + rest),
        forall|rest: Seq<char>| upper != #[trigger] ("SET"@ + rest),
        forall|rest: Seq<char>| upper != #[trigger] ("BEGIN READ ONLY"@ + rest),
    ensures
        intent_of(upper) == StatementIntent::Write,
{
    lemma_begins_parts(upper, "SELECT"@);
    lemma_begins_parts(upper, "TABLE"@);
    lemma_begins_parts(upper, "VALUES"@);
    lemma_begins_parts(upper, "WITH"@);
    lemma_begins_parts(upper, "SET"@);
    lemma_begins_parts(upper, "BEGIN READ ONLY"@);
}

/// A statement in ASCII letters is classified by its upper-case form, whatever
/// white space stands before it.
pub proof fn lemma_statement_is_classified_in_upper_case(space: Seq<char>, sql: Seq<char>)
    requires
        forall|i: int| 0 <= i < space.len() ==> is_space(#[trigger] space[i]),
        sql.len() > 0,
        !is_space(sql[0]),
        is_ascii_chars(sql),
    ensures
        intent_of(upper_text(trimmed_start(space + sql))) == intent_of(
            sql.map_values(
                |c: char|
                    if 'a' <= c <= 'z' {
                        (c as u32 - 32) as char
                    } else {
                        c
                    },
            ),
        ),
{
    lemma_trimming(space, sql);
    assert(ascii_upper(sql) =~= sql.map_values(
        |c: char|
            if 'a' <= c <= 'z' {
                (c as u32 - 32) as char
            } else {
                c
            },
    ));
}

// ── Partial reads ────────────────────────────────────────────────────────────

/// A startup message that was read stays the same whatever arrives behind it.
pub proof fn lemma_startup_read_is_stable(b: Seq<u8>, rest: Seq<u8>)
    requires
        startup_read(b) is Err || startup_read(b)->Ok_0 is Done,
    ensures
        startup_read(b + rest) == startup_read(b),
{
    let c = b + rest;
    assert(b.len() >= 4);
    assert(c.subrange(0, 4) =~= b.subrange(0, 4));
    if b.len() >= 8 {
        assert(c.subrange(4, 8) =~= b.subrange(4, 8));
        let total = be_value(b.subrange(0, 4));
        if b.len() >= total && total >= 8 {
            assert(c.subrange(8, total) =~= b.subrange(8, total));
        }
        if b.len() >= 16 {
            assert(c.subrange(8, 12) =~= b.subrange(8, 12));
            assert(c.subrange(12, 16) =~= b.subrange(12, 16));
        }
    }
}

/// A message that was read stays the same whatever arrives behind it.
pub proof fn lemma_frontend_read_is_stable(b: Seq<u8>, rest: Seq<u8>)
    requires
        frontend_read(b) is Err || frontend_read(b)->Ok_0 is Done,
    ensures
        frontend_read(b + rest) == frontend_read(b),
{
    let c = b + rest;
    assert(b.len() >= 5);
    assert(c.subrange(1, 5) =~= b.subrange(1, 5));
    let length = be_value(b.subrange(1, 5));
    if length >= 4 {
        assert(c.subrange(5, length + 1) =~= b.subrange(5, length + 1));
    }
}

/// A reader that waits asks for more bytes than it has, and never for more
/// than the message takes.
pub proof fn lemma_reads_make_progress(b: Seq<u8>, rest: Seq<u8>)
    requires
        frontend_read(b) is Ok,
        frontend_read(b)->Ok_0 is More,
    ensures
        frontend_read(b)->Ok_0->More_0 > b.len(),
        frontend_read(b + rest) matches Ok(ReadView::Done(m, n)) ==> n
            >= frontend_read(b)->Ok_0->More_0,
{
    let c = b + rest;
    if b.len() >= 5 {
        assert(c.subrange(1, 5) =~= b.subrange(1, 5));
    }
}

// ── Server messages ──────────────────────────────────────────────────────────

/// The length field of a written message counts everything but the type byte.
pub proof fn lemma_length_field(msg_type: u8, body: Seq<u8>)
    requires
        4 + body.len() <= u32::MAX,
    ensures
        frame(msg_type, body)[0] == msg_type,
        be_value(frame(msg_type, body).subrange(1, 5)) == frame(msg_type, body).len() - 1,
        frame(msg_type, body).skip(5) == body,
{
    lemma_frame_read(msg_type, body, Seq::empty());
    assert(frame(msg_type, body) + Seq::<u8>::empty() =~= frame(msg_type, body));
    assert(frame(msg_type, body).skip(5) =~= body);
}

} // verus!
