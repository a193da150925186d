//! PostgreSQL wire protocol v3 — message framing and classification.
//!
//! This module handles:
//! - Startup message / SSL request parsing
//! - Regular frontend message parsing
//! - Writing common server responses (ErrorResponse, ReadyForQuery)
//! - Statement classification for routing decisions

use crate::big_endian::{be_bytes, be_value, get_be, lemma_be_ranges, lemma_be_writes_back, put_be};
use crate::numerals::{decimal, decimal_string, numeral, padded_numeral, zero_padded};
use crate::table::{views, NameTable};
use crate::text::{begins_with, contains_text, has_text, starts_with, text_from_utf8};
use crate::text::{to_uppercase, trim_start, trimmed_start, upper_text};
use vstd::prelude::*;
use vstd::string::StringExecFns;
use vstd::utf8::{decode_utf8, encode_utf8, valid_utf8};

verus! {

// ── Protocol constants ───────────────────────────────────────────────────────

/// Protocol version 3.0 (major=3, minor=0)
pub const PROTOCOL_V3: u32 = 196608;

/// Magic bytes for an SSL request message
pub const SSL_REQUEST_CODE: u32 = 80877103;

/// Magic bytes for a cancel request
pub const CANCEL_REQUEST_CODE: u32 = 80877102;

// ── Message types ────────────────────────────────────────────────────────────

/// Simple query, `Q`
pub const QUERY: u8 = 0x51;

/// Extended query: Parse, `P`
pub const PARSE: u8 = 0x50;

/// Extended query: Bind, `B`
pub const BIND: u8 = 0x42;

/// Extended query: Execute, `E`
pub const EXECUTE: u8 = 0x45;

/// Extended query: Describe, `D`
pub const DESCRIBE: u8 = 0x44;

/// Extended query: Sync, `S`
pub const SYNC: u8 = 0x53;

/// Flush, `H`
pub const FLUSH: u8 = 0x48;

/// Extended query: Close, `C`
pub const CLOSE: u8 = 0x43;

/// Terminate, `X`
pub const TERMINATE: u8 = 0x58;

/// COPY data, `d`
pub const COPY_DATA: u8 = 0x64;

/// COPY done, `c`
pub const COPY_DONE: u8 = 0x63;

/// COPY failed, `f`
pub const COPY_FAIL: u8 = 0x66;

/// Password / SASL auth response, `p`
pub const PASSWORD: u8 = 0x70;

/// Server error response, `E`
pub const ERROR_RESPONSE: u8 = 0x45;

/// Server ready for the next query, `Z`
pub const READY_FOR_QUERY: u8 = 0x5A;

// ── Frontend messages ────────────────────────────────────────────────────────

/// All message types a Postgres client can send.
#[allow(inconsistent_fields)]
#[derive(Debug)]
pub enum FrontendMessage {
    /// Initial handshake (before authentication)
    StartupMessage { params: NameTable<String> },
    /// Client is requesting TLS upgrade
    SslRequest,
    /// Simple query protocol
    Query(String),
    /// Extended query: Parse
    Parse { name: String, query: String, param_types: Vec<u32> },
    /// Extended query: Bind
    Bind { portal: String, statement: String, params: Vec<Vec<u8>> },
    /// Extended query: Execute
    Execute { portal: String, max_rows: i32 },
    /// Extended query: Describe — `kind` is b'S' (statement) or b'P' (portal)
    Describe { kind: u8, name: String },
    /// Extended query: Sync (flush pipeline and return to idle)
    Sync,
    /// Flush buffered output without returning to idle
    Flush,
    /// Extended query: Close
    Close { kind: u8, name: String },
    /// Cancel a running query (identified by pid + secret)
    CancelRequest { pid: u32, secret: u32 },
    /// Client is closing the connection
    Terminate,
    /// COPY sub-protocol
    CopyData(Vec<u8>),
    CopyDone,
    CopyFail(String),
    /// Password / SASL auth response
    PasswordMessage(Vec<u8>),
}

/// What a [`FrontendMessage`] stands for.
#[verifier::ext_equal]
#[allow(inconsistent_fields)]
pub enum MessageView {
    StartupMessage { params: Map<Seq<char>, Seq<char>> },
    SslRequest,
    Query(Seq<char>),
    Parse { name: Seq<char>, query: Seq<char>, param_types: Seq<u32> },
    Bind { portal: Seq<char>, statement: Seq<char>, params: Seq<Seq<u8>> },
    Execute { portal: Seq<char>, max_rows: i32 },
    Describe { kind: u8, name: Seq<char> },
    Sync,
    Flush,
    Close { kind: u8, name: Seq<char> },
    CancelRequest { pid: u32, secret: u32 },
    Terminate,
    CopyData(Seq<u8>),
    CopyDone,
    CopyFail(Seq<char>),
    PasswordMessage(Seq<u8>),
}

impl View for FrontendMessage {
    type V = MessageView;

    open spec fn view(&self) -> MessageView {
        match self {
            FrontendMessage::StartupMessage { params } => MessageView::StartupMessage {
                params: params@,
            },
            FrontendMessage::SslRequest => MessageView::SslRequest,
            FrontendMessage::Query(sql) => MessageView::Query(sql@),
            FrontendMessage::Parse { name, query, param_types } => MessageView::Parse {
                name: name@,
                query: query@,
                param_types: param_types@,
            },
            FrontendMessage::Bind { portal, statement, params } => MessageView::Bind {
                portal: portal@,
                statement: statement@,
                params: views(params@),
            },
            FrontendMessage::Execute { portal, max_rows } => MessageView::Execute {
                portal: portal@,
                max_rows: *max_rows,
            },
            FrontendMessage::Describe { kind, name } => MessageView::Describe {
                kind: *kind,
                name: name@,
            },
            FrontendMessage::Sync => MessageView::Sync,
            FrontendMessage::Flush => MessageView::Flush,
            FrontendMessage::Close { kind, name } => MessageView::Close { kind: *kind, name: name@ },
            FrontendMessage::CancelRequest { pid, secret } => MessageView::CancelRequest {
                pid: *pid,
                secret: *secret,
            },
            FrontendMessage::Terminate => MessageView::Terminate,
            FrontendMessage::CopyData(data) => MessageView::CopyData(data@),
            FrontendMessage::CopyDone => MessageView::CopyDone,
            FrontendMessage::CopyFail(reason) => MessageView::CopyFail(reason@),
            FrontendMessage::PasswordMessage(data) => MessageView::PasswordMessage(data@),
        }
    }
}

// ── Errors ───────────────────────────────────────────────────────────────────

/// Why a null-terminated string cannot be read.
#[derive(Debug, Clone, Copy, PartialEq, Eq, Structural)]
pub enum StringError {
    /// No null byte follows the offset.
    Unterminated(usize),
    /// The bytes are not UTF-8.
    NotUtf8,
}

/// Why a message cannot be read.
#[derive(Debug, Clone, Copy, PartialEq, Eq, Structural)]
pub enum ProtocolError {
    QueryString(StringError),
    DescribeName(StringError),
    CloseName(StringError),
    CopyFailMessage(StringError),
    /// A name in a Parse, Bind or Execute message.
    Name(StringError),
    ShortU16,
    ShortU32,
    ShortI32,
    EmptyDescribe,
    EmptyClose,
    UnknownType(u8),
    StartupTooShort(u32),
    UnknownStartupCode(u32),
    LengthTooSmall(u32),
    ParamValueMissing,
    ParamKeyNotUtf8,
    ParamValueNotUtf8,
}

/// The message for a string that cannot be read.
pub open spec fn string_error_text(e: StringError) -> Seq<char> {
    match e {
        StringError::Unterminated(at) => "missing null terminator at offset "@ + decimal(at as int),
        StringError::NotUtf8 => "string is not valid UTF-8"@,
    }
}

/// `n` in at least `width` hexadecimal digits.
pub open spec fn hex(n: int, width: int) -> Seq<char> {
    zero_padded(numeral(n, 16), width)
}

fn hex_string(n: u64, width: usize) -> (r: String)
    ensures
        r@ == hex(n as int, width as int),
{
    padded_numeral(n, 16, width)
}

impl StringError {
    /// The message for the operator.
    pub fn message(&self) -> (r: String)
        ensures
            r@ == string_error_text(*self),
    {
        match self {
            StringError::Unterminated(at) => "missing null terminator at offset ".to_owned().concat(
                decimal_string(*at as u64).as_str(),
            ),
            StringError::NotUtf8 => "string is not valid UTF-8".to_owned(),
        }
    }
}

impl ProtocolError {
    /// The message for the operator.
    pub open spec fn text(self) -> Seq<char> {
        match self {
            ProtocolError::QueryString(_) => "Query string"@,
            ProtocolError::DescribeName(_) => "Describe name"@,
            ProtocolError::CloseName(_) => "Close name"@,
            ProtocolError::CopyFailMessage(_) => "CopyFail message"@,
            ProtocolError::Name(e) => string_error_text(e),
            ProtocolError::ShortU16 => "read u16"@,
            ProtocolError::ShortU32 => "read u32"@,
            ProtocolError::ShortI32 => "read i32"@,
            ProtocolError::EmptyDescribe => "Describe: empty payload"@,
            ProtocolError::EmptyClose => "Close: empty payload"@,
            ProtocolError::UnknownType(t) => "unknown frontend message type: 0x"@ + hex(
                t as int,
                2,
            ),
            ProtocolError::StartupTooShort(n) => "startup message too short: "@ + decimal(n as int),
            ProtocolError::UnknownStartupCode(c) => "unknown startup code: 0x"@ + hex(c as int, 8),
            ProtocolError::LengthTooSmall(n) => "message length "@ + decimal(n as int)
                + " too small"@,
            ProtocolError::ParamValueMissing => "startup param value missing"@,
            ProtocolError::ParamKeyNotUtf8 => "startup param key not UTF-8"@,
            ProtocolError::ParamValueNotUtf8 => "startup param value not UTF-8"@,
        }
    }

    /// The message for the operator.
    pub fn message(&self) -> (r: String)
        ensures
            r@ == self.text(),
    {
        match self {
            ProtocolError::QueryString(_) => "Query string".to_owned(),
            ProtocolError::DescribeName(_) => "Describe name".to_owned(),
            ProtocolError::CloseName(_) => "Close name".to_owned(),
            ProtocolError::CopyFailMessage(_) => "CopyFail message".to_owned(),
            ProtocolError::Name(e) => e.message(),
            ProtocolError::ShortU16 => "read u16".to_owned(),
            ProtocolError::ShortU32 => "read u32".to_owned(),
            ProtocolError::ShortI32 => "read i32".to_owned(),
            ProtocolError::EmptyDescribe => "Describe: empty payload".to_owned(),
            ProtocolError::EmptyClose => "Close: empty payload".to_owned(),
            ProtocolError::UnknownType(t) => "unknown frontend message type: 0x".to_owned().concat(
                hex_string(*t as u64, 2).as_str(),
            ),
            ProtocolError::StartupTooShort(n) => "startup message too short: ".to_owned().concat(
                decimal_string(*n as u64).as_str(),
            ),
            ProtocolError::UnknownStartupCode(c) => "unknown startup code: 0x".to_owned().concat(
                hex_string(*c as u64, 8).as_str(),
            ),
            ProtocolError::LengthTooSmall(n) => "message length ".to_owned().concat(
                decimal_string(*n as u64).as_str(),
            ).concat(" too small"),
            ProtocolError::ParamValueMissing => "startup param value missing".to_owned(),
            ProtocolError::ParamKeyNotUtf8 => "startup param key not UTF-8".to_owned(),
            ProtocolError::ParamValueNotUtf8 => "startup param value not UTF-8".to_owned(),
        }
    }
}

// ── Statement classification ─────────────────────────────────────────────────

/// Routing intent derived from a SQL statement.
#[derive(Debug, Clone, Copy, PartialEq, Eq, Structural)]
pub enum StatementIntent {
    /// Statement must go to the primary (INSERT, UPDATE, DELETE, DDL, …)
    Write,
    /// Statement can go to a replica (SELECT, TABLE, VALUES, WITH … SELECT)
    Read,
    /// Session-scoped SET — must go to the same backend as the current session
    SetLocal,
}

/// Whether an upper-case text names a statement that writes.
pub open spec fn mentions_write(upper: Seq<char>) -> bool {
    ||| contains_text(upper, "INSERT"@)
    ||| contains_text(upper, "UPDATE"@)
    ||| contains_text(upper, "DELETE"@)
    ||| contains_text(upper, "MERGE"@)
}

/// The routing intent of a statement, given in upper case and without leading
/// white space.
pub open spec fn intent_of(upper: Seq<char>) -> StatementIntent {
    if begins_with(upper, "SELECT"@) || begins_with(upper, "TABLE"@) || begins_with(
        upper,
        "VALUES"@,
    ) {
        StatementIntent::Read
    } else if begins_with(upper, "WITH"@) {
        if contains_text(upper, "SELECT"@) && !mentions_write(upper) {
            StatementIntent::Read
        } else {
            StatementIntent::Write
        }
    } else if begins_with(upper, "SET"@) {
        StatementIntent::SetLocal
    } else if begins_with(upper, "BEGIN READ ONLY"@) {
        StatementIntent::Read
    } else {
        StatementIntent::Write
    }
}

/// Classify a SQL statement into a routing intent.
///
/// The classification is purely syntactic (no parsing) and is intentionally
/// conservative: when in doubt, we return `Write` so the statement goes to the
/// primary.
pub fn classify_statement(sql: &str) -> (r: StatementIntent)
    ensures
        r == intent_of(upper_text(trimmed_start(sql@))),
{
    let upper = to_uppercase(trim_start(sql).as_str());
    classify_upper(upper.as_str())
}

/// Classifies a statement that is given in upper case and without leading
/// white space.
pub fn classify_upper(upper: &str) -> (r: StatementIntent)
    ensures
        r == intent_of(upper@),
{
    if starts_with(upper, "SELECT") || starts_with(upper, "TABLE") || starts_with(
        upper,
        "VALUES",
    ) {
        return StatementIntent::Read;
    }
    // WITH … SELECT is a read; WITH … INSERT/UPDATE/DELETE is a write.

    if starts_with(upper, "WITH") {
        let has_select = has_text(upper, "SELECT");
        let has_write = has_text(upper, "INSERT") || has_text(upper, "UPDATE") || has_text(
            upper,
            "DELETE",
        ) || has_text(upper, "MERGE");
        if has_select && !has_write {
            return StatementIntent::Read;
        }
        return StatementIntent::Write;
    }
    if starts_with(upper, "SET") {
        return StatementIntent::SetLocal;
    }
    // "BEGIN READ ONLY" is a read-only transaction opener

    if starts_with(upper, "BEGIN READ ONLY") {
        return StatementIntent::Read;
    }
    // Everything else (INSERT, UPDATE, DELETE, DDL, BEGIN, CALL, COMMIT, …)

    StatementIntent::Write
}

// ── Byte-level reading ───────────────────────────────────────────────────────

/// The first position from `p` on that holds a null byte, or the length of
/// `b` if there is none.
pub open spec fn zero_from(b: Seq<u8>, p: int) -> int
    decreases b.len() - p,
{
    if p >= b.len() {
        b.len() as int
    } else if b[p] == 0 {
        p
    } else {
        zero_from(b, p + 1)
    }
}

/// The null-terminated string at `at`, and the position behind it.
pub open spec fn cstring(b: Seq<u8>, at: int) -> Result<(Seq<char>, int), StringError> {
    let end = zero_from(b, at);
    if end >= b.len() {
        Err(StringError::Unterminated(at as usize))
    } else if !valid_utf8(b.subrange(at, end)) {
        Err(StringError::NotUtf8)
    } else {
        Ok((decode_utf8(b.subrange(at, end)), end + 1))
    }
}

/// The unsigned number in the `k` bytes at `at`, if there are as many.
pub open spec fn number_at(b: Seq<u8>, at: int, k: int) -> Option<int> {
    if at + k <= b.len() {
        Some(be_value(b.subrange(at, at + k)))
    } else {
        None
    }
}

/// The signed number that four bytes with the unsigned value `n` denote.
pub open spec fn signed(n: int) -> int {
    if n >= 0x8000_0000 {
        n - 0x1_0000_0000
    } else {
        n
    }
}

/// The first null byte is characterised by what stands at it and before it.
pub proof fn lemma_zero_from(b: Seq<u8>, p: int, i: int)
    requires
        0 <= p <= i <= b.len(),
        forall|j: int| p <= j < i ==> b[j] != 0,
        i < b.len() ==> b[i] == 0,
    ensures
        zero_from(b, p) == i,
    decreases i - p,
{
    if p < i {
        lemma_zero_from(b, p + 1, i);
    }
}

/// No position behind the end is given.
pub proof fn lemma_zero_from_within(b: Seq<u8>, p: int)
    ensures
        zero_from(b, p) <= b.len(),
    decreases b.len() - p,
{
    if p < b.len() && b[p] != 0 {
        lemma_zero_from_within(b, p + 1);
    }
}

/// The first null byte lies within the bytes, and none stands before it.
pub proof fn lemma_zero_from_bounds(b: Seq<u8>, p: int)
    requires
        0 <= p <= b.len(),
    ensures
        p <= zero_from(b, p) <= b.len(),
        zero_from(b, p) < b.len() ==> b[zero_from(b, p)] == 0,
        forall|j: int| p <= j < zero_from(b, p) ==> b[j] != 0,
    decreases b.len() - p,
{
    if p < b.len() && b[p] != 0 {
        lemma_zero_from_bounds(b, p + 1);
    }
}

fn find_zero(b: &[u8], from: usize) -> (r: usize)
    requires
        from <= b@.len(),
    ensures
        r == zero_from(b@, from as int),
        from <= r <= b@.len(),
{
    let mut i: usize = from;
    let n: usize = b.len();
    while i < n
        invariant
            from <= i <= n,
            n == b@.len(),
            forall|j: int| from <= j < i ==> b@[j] != 0,
        decreases n - i,
    {
        if b[i] == 0 {
            proof {
                lemma_zero_from(b@, from as int, i as int);
            }
            return i;
        }
        i = i + 1;
    }
    proof {
        lemma_zero_from(b@, from as int, n as int);
    }
    n
}

fn read_cstring_with_pos(b: &[u8], at: usize) -> (r: Result<(String, usize), StringError>)
    requires
        at <= b@.len(),
    ensures
        match (r, cstring(b@, at as int)) {
            (Ok((s, p)), Ok((t, q))) => s@ == t && p == q && at < p <= b@.len(),
            (Err(e), Err(f)) => e == f,
            _ => false,
        },
{
    let n: usize = b.len();
    let end = find_zero(b, at);
    if end >= n {
        return Err(StringError::Unterminated(at));
    }
    match text_from_utf8(&b[at..end]) {
        Some(s) => Ok((s, end + 1)),
        None => Err(StringError::NotUtf8),
    }
}

fn read_cstring(b: &[u8], at: usize) -> (r: Result<String, StringError>)
    requires
        at <= b@.len(),
    ensures
        match (r, cstring(b@, at as int)) {
            (Ok(s), Ok((t, q))) => s@ == t,
            (Err(e), Err(f)) => e == f,
            _ => false,
        },
{
    match read_cstring_with_pos(b, at) {
        Ok((s, _)) => Ok(s),
        Err(e) => Err(e),
    }
}

fn read_number(b: &[u8], at: usize, k: usize) -> (r: Option<u64>)
    requires
        k <= 4,
    ensures
        r is Some <==> number_at(b@, at as int, k as int) is Some,
        r matches Some(n) ==> number_at(b@, at as int, k as int) == Some(n as int) && n
            <= u32::MAX && (k == 2 ==> n <= u16::MAX) && at + k <= b@.len(),
{
    let n: usize = b.len();
    if at <= n && n - at >= k {
        proof {
            lemma_be_ranges();
            lemma_be_writes_back(b@.subrange(at as int, at + k));
            if k < 4 {
                lemma_range_small(k as nat);
            }
        }
        Some(get_be(b, at, k))
    } else {
        None
    }
}

proof fn lemma_range_small(k: nat)
    requires
        k < 4,
    ensures
        crate::big_endian::be_range(k) <= 0x100_0000,
{
    reveal_with_fuel(crate::big_endian::be_range, 5);
}

fn read_i32(b: &[u8], at: usize) -> (r: Option<i32>)
    ensures
        r is Some <==> number_at(b@, at as int, 4) is Some,
        r matches Some(n) ==> n == signed(number_at(b@, at as int, 4)->0) && at + 4 <= b@.len(),
{
    match read_number(b, at, 4) {
        Some(n) => if n >= 0x8000_0000 {
            Some((n as i64 - 0x1_0000_0000) as i32)
        } else {
            Some(n as i32)
        },
        None => None,
    }
}

// ── Startup messages ─────────────────────────────────────────────────────────

/// The parameters in the null-terminated `key\0value\0` pairs from `p` on,
/// added to those already read. The list ends at an empty key or at the end
/// of the bytes.
pub open spec fn startup_params(
    b: Seq<u8>,
    p: int,
    params: Map<Seq<char>, Seq<char>>,
) -> Result<Map<Seq<char>, Seq<char>>, ProtocolError>
    decreases b.len() + 1 - p,
{
    let key_end = zero_from(b, p);
    let value_end = zero_from(b, key_end + 1);
    if p > b.len() || key_end <= p {
        Ok(params)
    } else if key_end >= b.len() {
        Err(ProtocolError::ParamValueMissing)
    } else if !valid_utf8(b.subrange(p, key_end)) {
        Err(ProtocolError::ParamKeyNotUtf8)
    } else if !valid_utf8(b.subrange(key_end + 1, value_end)) {
        Err(ProtocolError::ParamValueNotUtf8)
    } else if value_end <= key_end {
        Ok(params)
    } else {
        proof {
            lemma_zero_from_within(b, key_end + 1);
        }
        startup_params(
            b,
            value_end + 1,
            params.insert(
                decode_utf8(b.subrange(p, key_end)),
                decode_utf8(b.subrange(key_end + 1, value_end)),
            ),
        )
    }
}

/// Parse the null-terminated key=value pairs from a startup payload.
///
/// Format: `key\0value\0key\0value\0\0`
pub fn parse_startup_params(b: &[u8]) -> (r: Result<NameTable<String>, ProtocolError>)
    ensures
        match (r, startup_params(b@, 0, Map::empty())) {
            (Ok(t), Ok(m)) => t@ == m,
            (Err(e), Err(f)) => e == f,
            _ => false,
        },
{
    let n: usize = b.len();
    let mut params: NameTable<String> = NameTable::new();
    let mut p: usize = 0;
    let ghost full = startup_params(b@, 0, Map::empty());
    loop
        invariant
            n == b@.len(),
            p <= n,
            full == startup_params(b@, 0, Map::empty()),
            full == startup_params(b@, p as int, params@),
        decreases n + 1 - p,
    {
        let key_end = find_zero(b, p);
        if key_end == p {
            return Ok(params);
        }
        if key_end >= n {
            return Err(ProtocolError::ParamValueMissing);
        }
        let value_end = find_zero(b, key_end + 1);
        let key = match text_from_utf8(&b[p..key_end]) {
            Some(s) => s,
            None => return Err(ProtocolError::ParamKeyNotUtf8),
        };
        let value = match text_from_utf8(&b[key_end + 1..value_end]) {
            Some(s) => s,
            None => return Err(ProtocolError::ParamValueNotUtf8),
        };
        params.insert(key, value);
        if value_end >= n {
            assert(startup_params(b@, value_end + 1, params@) == Ok::<
                Map<Seq<char>, Seq<char>>,
                ProtocolError,
            >(params@));
            return Ok(params);
        }
        p = value_end + 1;
    }
}

/// What a reader has of a message in the bytes received so far.
#[derive(Debug)]
pub enum Read {
    /// The message is not complete before this many bytes.
    More(u64),
    /// The message, and how many bytes it takes.
    Done(FrontendMessage, usize),
}

/// What a [`Read`] stands for.
pub enum ReadView {
    More(int),
    Done(MessageView, int),
}

impl View for Read {
    type V = ReadView;

    open spec fn view(&self) -> ReadView {
        match self {
            Read::More(n) => ReadView::More(*n as int),
            Read::Done(m, n) => ReadView::Done(m@, *n as int),
        }
    }
}

/// The first message of a connection, in the bytes received so far.
pub open spec fn startup_read(b: Seq<u8>) -> Result<ReadView, ProtocolError> {
    let total = be_value(b.subrange(0, 4));
    let code = be_value(b.subrange(4, 8));
    if b.len() < 4 {
        Ok(ReadView::More(4))
    } else if total < 8 {
        Err(ProtocolError::StartupTooShort(total as u32))
    } else if b.len() < 8 {
        Ok(ReadView::More(8))
    } else if code == SSL_REQUEST_CODE {
        Ok(ReadView::Done(MessageView::SslRequest, 8))
    } else if code == CANCEL_REQUEST_CODE {
        if b.len() < 16 {
            Ok(ReadView::More(16))
        } else {
            Ok(
                ReadView::Done(
                    MessageView::CancelRequest {
                        pid: be_value(b.subrange(8, 12)) as u32,
                        secret: be_value(b.subrange(12, 16)) as u32,
                    },
                    16,
                ),
            )
        }
    } else if code == PROTOCOL_V3 {
        if b.len() < total {
            Ok(ReadView::More(total))
        } else {
            match startup_params(b.subrange(8, total), 0, Map::empty()) {
                Ok(params) => Ok(ReadView::Done(MessageView::StartupMessage { params }, total)),
                Err(e) => Err(e),
            }
        }
    } else {
        Err(ProtocolError::UnknownStartupCode(code as u32))
    }
}

/// Read the very first message on a new connection from the bytes received
/// so far.
///
/// This is special because it has no type byte — just a 4-byte length followed
/// by a 4-byte protocol version / request code, then a payload.
pub fn read_startup_message(b: &[u8]) -> (r: Result<Read, ProtocolError>)
    ensures
        match (r, startup_read(b@)) {
            (Ok(m), Ok(v)) => m@ == v,
            (Err(e), Err(f)) => e == f,
            _ => false,
        },
{
    let n: usize = b.len();
    if n < 4 {
        return Ok(Read::More(4));
    }
    proof {
        lemma_be_ranges();
    }
    let total: u64 = get_be(b, 0, 4);
    if total < 8 {
        return Err(ProtocolError::StartupTooShort(total as u32));
    }
    if n < 8 {
        return Ok(Read::More(8));
    }
    let code: u32 = get_be(b, 4, 4) as u32;
    if code == SSL_REQUEST_CODE {
        Ok(Read::Done(FrontendMessage::SslRequest, 8))
    } else if code == CANCEL_REQUEST_CODE {
        if n < 16 {
            return Ok(Read::More(16));
        }
        let pid = get_be(b, 8, 4) as u32;
        let secret = get_be(b, 12, 4) as u32;
        Ok(Read::Done(FrontendMessage::CancelRequest { pid, secret }, 16))
    } else if code == PROTOCOL_V3 {
        if (n as u64) < total {
            return Ok(Read::More(total));
        }
        match parse_startup_params(&b[8..total as usize]) {
            Ok(params) => Ok(
                Read::Done(FrontendMessage::StartupMessage { params }, total as usize),
            ),
            Err(e) => Err(e),
        }
    } else {
        Err(ProtocolError::UnknownStartupCode(code))
    }
}

// ── Regular messages ─────────────────────────────────────────────────────────

/// The `n` parameter types at `p`, if there are as many.
pub open spec fn types_at(b: Seq<u8>, p: int, n: int) -> Option<Seq<u32>> {
    if p + 4 * n <= b.len() {
        Some(Seq::new(n as nat, |i: int| be_value(b.subrange(p + 4 * i, p + 4 * i + 4)) as u32))
    } else {
        None
    }
}

/// The parameter values of a Bind message.
pub enum BindParams {
    Values(Seq<Seq<u8>>),
    /// A length field is cut off.
    Short,
    /// A value is longer than what is left of the message.
    Overrun,
}

/// The `n` parameter values at `p`, behind those already read. A negative
/// length stands for NULL and gives an empty value.
pub open spec fn values_at(b: Seq<u8>, p: int, n: int, values: Seq<Seq<u8>>) -> BindParams
    decreases n,
{
    if n <= 0 {
        BindParams::Values(values)
    } else {
        match number_at(b, p, 4) {
            None => BindParams::Short,
            Some(raw) => {
                let len = signed(raw);
                if len < 0 {
                    values_at(b, p + 4, n - 1, values.push(Seq::empty()))
                } else if p + 4 + len > b.len() {
                    BindParams::Overrun
                } else {
                    values_at(
                        b,
                        p + 4 + len,
                        n - 1,
                        values.push(b.subrange(p + 4, p + 4 + len)),
                    )
                }
            },
        }
    }
}

/// The Parse message in a payload.
pub open spec fn parse_message(b: Seq<u8>) -> Result<MessageView, ProtocolError> {
    match cstring(b, 0) {
        Err(e) => Err(ProtocolError::Name(e)),
        Ok((name, p)) => match cstring(b, p) {
            Err(e) => Err(ProtocolError::Name(e)),
            Ok((query, q)) => match number_at(b, q, 2) {
                None => Err(ProtocolError::ShortU16),
                Some(count) => match types_at(b, q + 2, count) {
                    None => Err(ProtocolError::ShortU32),
                    Some(param_types) => Ok(MessageView::Parse { name, query, param_types }),
                },
            },
        },
    }
}

/// Where the parameter values of a Bind message stand, and how many there are.
pub open spec fn bind_values_at(b: Seq<u8>) -> Result<
    (Seq<char>, Seq<char>, int, int),
    ProtocolError,
> {
    match cstring(b, 0) {
        Err(e) => Err(ProtocolError::Name(e)),
        Ok((portal, p)) => match cstring(b, p) {
            Err(e) => Err(ProtocolError::Name(e)),
            Ok((statement, q)) => match number_at(b, q, 2) {
                None => Err(ProtocolError::ShortU16),
                Some(formats) => match number_at(b, q + 2 + 2 * formats, 2) {
                    None => Err(ProtocolError::ShortU16),
                    Some(count) => Ok((portal, statement, q + 4 + 2 * formats, count)),
                },
            },
        },
    }
}

/// The Bind message in a payload.
pub open spec fn bind_message(b: Seq<u8>) -> Result<MessageView, ProtocolError> {
    match bind_values_at(b) {
        Err(e) => Err(e),
        Ok((portal, statement, p, count)) => match values_at(b, p, count, Seq::empty()) {
            BindParams::Values(params) => Ok(MessageView::Bind { portal, statement, params }),
            _ => Err(ProtocolError::ShortI32),
        },
    }
}

/// Whether a payload is that of a Bind message with a parameter value that is
/// longer than what is left of the message.
pub open spec fn overruns(msg_type: u8, b: Seq<u8>) -> bool {
    &&& msg_type == BIND
    &&& bind_values_at(b) matches Ok((portal, statement, p, count)) && values_at(
        b,
        p,
        count,
        Seq::empty(),
    ) is Overrun
}

/// The message that a type byte and a payload make.
pub open spec fn message_of(msg_type: u8, b: Seq<u8>) -> Result<MessageView, ProtocolError> {
    if msg_type == QUERY {
        match cstring(b, 0) {
            Ok((sql, _)) => Ok(MessageView::Query(sql)),
            Err(e) => Err(ProtocolError::QueryString(e)),
        }
    } else if msg_type == PARSE {
        parse_message(b)
    } else if msg_type == BIND {
        bind_message(b)
    } else if msg_type == EXECUTE {
        match cstring(b, 0) {
            Err(e) => Err(ProtocolError::Name(e)),
            Ok((portal, p)) => match number_at(b, p, 4) {
                None => Err(ProtocolError::ShortI32),
                Some(n) => Ok(MessageView::Execute { portal, max_rows: signed(n) as i32 }),
            },
        }
    } else if msg_type == DESCRIBE {
        if b.len() == 0 {
            Err(ProtocolError::EmptyDescribe)
        } else {
            match cstring(b, 1) {
                Ok((name, _)) => Ok(MessageView::Describe { kind: b[0], name }),
                Err(e) => Err(ProtocolError::DescribeName(e)),
            }
        }
    } else if msg_type == SYNC {
        Ok(MessageView::Sync)
    } else if msg_type == FLUSH {
        Ok(MessageView::Flush)
    } else if msg_type == CLOSE {
        if b.len() == 0 {
            Err(ProtocolError::EmptyClose)
        } else {
            match cstring(b, 1) {
                Ok((name, _)) => Ok(MessageView::Close { kind: b[0], name }),
                Err(e) => Err(ProtocolError::CloseName(e)),
            }
        }
    } else if msg_type == TERMINATE {
        Ok(MessageView::Terminate)
    } else if msg_type == COPY_DATA {
        Ok(MessageView::CopyData(b))
    } else if msg_type == COPY_DONE {
        Ok(MessageView::CopyDone)
    } else if msg_type == COPY_FAIL {
        match cstring(b, 0) {
            Ok((reason, _)) => Ok(MessageView::CopyFail(reason)),
            Err(e) => Err(ProtocolError::CopyFailMessage(e)),
        }
    } else if msg_type == PASSWORD {
        Ok(MessageView::PasswordMessage(b))
    } else {
        Err(ProtocolError::UnknownType(msg_type))
    }
}

/// Whether a result is what the specification says.
pub open spec fn agrees(
    r: Result<FrontendMessage, ProtocolError>,
    v: Result<MessageView, ProtocolError>,
) -> bool {
    match (r, v) {
        (Ok(m), Ok(w)) => m@ == w,
        (Err(e), Err(f)) => e == f,
        _ => false,
    }
}

fn bytes_of(b: &[u8]) -> (r: Vec<u8>)
    ensures
        r@ == b@,
{
    let mut v: Vec<u8> = Vec::new();
    v.extend_from_slice(b);
    assert(v@ =~= b@);
    v
}

fn read_parse(b: &[u8]) -> (r: Result<FrontendMessage, ProtocolError>)
    ensures
        agrees(r, parse_message(b@)),
{
    let n: usize = b.len();
    let (name, p) = match read_cstring_with_pos(b, 0) {
        Ok(x) => x,
        Err(e) => return Err(ProtocolError::Name(e)),
    };
    let (query, q) = match read_cstring_with_pos(b, p) {
        Ok(x) => x,
        Err(e) => return Err(ProtocolError::Name(e)),
    };
    let count: usize = match read_number(b, q, 2) {
        Some(c) => c as usize,
        None => return Err(ProtocolError::ShortU16),
    };
    let mut param_types: Vec<u32> = Vec::new();
    let mut at: usize = q + 2;
    let ghost start = at as int;
    for i in 0..count
        invariant
            n == b@.len(),
            start == q + 2,
            at == start + 4 * i,
            at <= n,
            name@ == cstring(b@, 0)->Ok_0.0,
            cstring(b@, 0) is Ok,
            cstring(b@, 0)->Ok_0.1 == p,
            cstring(b@, p as int) is Ok,
            cstring(b@, p as int)->Ok_0.1 == q,
            number_at(b@, q as int, 2) == Some(count as int),
            param_types@ == Seq::new(
                i as nat,
                |j: int| be_value(b@.subrange(start + 4 * j, start + 4 * j + 4)) as u32,
            ),
    {
        match read_number(b, at, 4) {
            Some(t) => {
                param_types.push(t as u32);
            },
            None => return Err(ProtocolError::ShortU32),
        }
        at = at + 4;
    }
    Ok(FrontendMessage::Parse { name, query, param_types })
}

/// The header of a Bind message: its names, where the parameter values stand,
/// and how many there are.
fn read_bind_header(b: &[u8]) -> (r: Result<(String, String, usize, usize), ProtocolError>)
    ensures
        match (r, bind_values_at(b@)) {
            (Ok((s, t, p, n)), Ok((u, v, q, m))) => s@ == u && t@ == v && p == q && n == m && p
                <= b@.len() && n <= u16::MAX,
            (Err(e), Err(f)) => e == f,
            _ => false,
        },
{
    let n: usize = b.len();
    let (portal, p) = match read_cstring_with_pos(b, 0) {
        Ok(x) => x,
        Err(e) => return Err(ProtocolError::Name(e)),
    };
    let (statement, q) = match read_cstring_with_pos(b, p) {
        Ok(x) => x,
        Err(e) => return Err(ProtocolError::Name(e)),
    };
    // Format codes (skip them for our purpose — we're a proxy)
    let formats: usize = match read_number(b, q, 2) {
        Some(c) => c as usize,
        None => return Err(ProtocolError::ShortU16),
    };
    if n - q - 2 < 2 * formats {
        return Err(ProtocolError::ShortU16);
    }
    let at: usize = q + 2 + 2 * formats;
    match read_number(b, at, 2) {
        Some(c) => Ok((portal, statement, at + 2, c as usize)),
        None => Err(ProtocolError::ShortU16),
    }
}

/// Reads the parameter values of a Bind message; `Some(None)` if a length is
/// cut off, `None` if a value is longer than what is left.
fn read_bind_values(b: &[u8], from: usize, count: usize) -> (r: Option<Option<Vec<Vec<u8>>>>)
    requires
        from <= b@.len(),
    ensures
        match values_at(b@, from as int, count as int, Seq::empty()) {
            BindParams::Values(v) => r matches Some(Some(w)) && views(w@) == v,
            BindParams::Short => r == Some(None::<Vec<Vec<u8>>>),
            BindParams::Overrun => r is None,
        },
{
    let n: usize = b.len();
    let mut params: Vec<Vec<u8>> = Vec::new();
    let mut p: usize = from;
    let ghost full = values_at(b@, from as int, count as int, Seq::empty());
    assert(views(params@) =~= Seq::empty());
    for i in 0..count
        invariant
            n == b@.len(),
            p <= n,
            full == values_at(b@, from as int, count as int, Seq::empty()),
            full == values_at(b@, p as int, count - i, views(params@)),
    {
        let len: i32 = match read_i32(b, p) {
            Some(l) => l,
            None => return Some(None),
        };
        p = p + 4;
        let ghost before = params@;
        if len < 0 {
            // NULL
            let empty: Vec<u8> = Vec::new();
            params.push(empty);
            assert(views(params@) =~= views(before).push(Seq::empty()));
        } else {
            let size: usize = len as usize;
            if size > n - p {
                return None;
            }
            let value = bytes_of(&b[p..p + size]);
            params.push(value);
            assert(views(params@) =~= views(before).push(b@.subrange(p as int, p + size)));
            p = p + size;
        }
    }
    Some(Some(params))
}

/// Whether a payload is that of a Bind message with a parameter value that is
/// longer than what is left of the message.
pub fn payload_overruns(msg_type: u8, b: &[u8]) -> (r: bool)
    ensures
        r == overruns(msg_type, b@),
{
    if msg_type != BIND {
        return false;
    }
    match read_bind_header(b) {
        Ok((_, _, p, count)) => match read_bind_values(b, p, count) {
            None => true,
            Some(_) => false,
        },
        Err(_) => false,
    }
}

fn read_bind(b: &[u8]) -> (r: Result<FrontendMessage, ProtocolError>)
    requires
        !overruns(BIND, b@),
    ensures
        agrees(r, bind_message(b@)),
{
    match read_bind_header(b) {
        Ok((portal, statement, p, count)) => match read_bind_values(b, p, count) {
            Some(Some(params)) => Ok(FrontendMessage::Bind { portal, statement, params }),
            _ => Err(ProtocolError::ShortI32),
        },
        Err(e) => Err(e),
    }
}

/// Parses the payload of a regular message.
pub fn parse_frontend_message(msg_type: u8, b: &[u8]) -> (r: Result<FrontendMessage, ProtocolError>)
    requires
        !overruns(msg_type, b@),
    ensures
        agrees(r, message_of(msg_type, b@)),
{
    if msg_type == QUERY {
        // Simple Query: null-terminated string
        match read_cstring(b, 0) {
            Ok(sql) => Ok(FrontendMessage::Query(sql)),
            Err(e) => Err(ProtocolError::QueryString(e)),
        }
    } else if msg_type == PARSE {
        // Parse: name\0 query\0 param_count:u16 param_types...
        read_parse(b)
    } else if msg_type == BIND {
        // Bind: portal\0 statement\0 … params …
        read_bind(b)
    } else if msg_type == EXECUTE {
        // Execute: portal\0 max_rows:i32
        match read_cstring_with_pos(b, 0) {
            Err(e) => Err(ProtocolError::Name(e)),
            Ok((portal, p)) => match read_i32(b, p) {
                Some(max_rows) => Ok(FrontendMessage::Execute { portal, max_rows }),
                None => Err(ProtocolError::ShortI32),
            },
        }
    } else if msg_type == DESCRIBE {
        // Describe: kind:u8 name\0
        if b.len() == 0 {
            return Err(ProtocolError::EmptyDescribe);
        }
        match read_cstring(b, 1) {
            Ok(name) => Ok(FrontendMessage::Describe { kind: b[0], name }),
            Err(e) => Err(ProtocolError::DescribeName(e)),
        }
    } else if msg_type == SYNC {
        Ok(FrontendMessage::Sync)
    } else if msg_type == FLUSH {
        Ok(FrontendMessage::Flush)
    } else if msg_type == CLOSE {
        // Close: kind:u8 name\0
        if b.len() == 0 {
            return Err(ProtocolError::EmptyClose);
        }
        match read_cstring(b, 1) {
            Ok(name) => Ok(FrontendMessage::Close { kind: b[0], name }),
            Err(e) => Err(ProtocolError::CloseName(e)),
        }
    } else if msg_type == TERMINATE {
        Ok(FrontendMessage::Terminate)
    } else if msg_type == COPY_DATA {
        Ok(FrontendMessage::CopyData(bytes_of(b)))
    } else if msg_type == COPY_DONE {
        Ok(FrontendMessage::CopyDone)
    } else if msg_type == COPY_FAIL {
        match read_cstring(b, 0) {
            Ok(reason) => Ok(FrontendMessage::CopyFail(reason)),
            Err(e) => Err(ProtocolError::CopyFailMessage(e)),
        }
    } else if msg_type == PASSWORD {
        Ok(FrontendMessage::PasswordMessage(bytes_of(b)))
    } else {
        Err(ProtocolError::UnknownType(msg_type))
    }
}

/// A regular message, in the bytes received so far.
pub open spec fn frontend_read(b: Seq<u8>) -> Result<ReadView, ProtocolError> {
    let length = be_value(b.subrange(1, 5));
    if b.len() < 1 {
        Ok(ReadView::More(1))
    } else if b.len() < 5 {
        Ok(ReadView::More(5))
    } else if length < 4 {
        Err(ProtocolError::LengthTooSmall(length as u32))
    } else if b.len() < length + 1 {
        Ok(ReadView::More(length + 1))
    } else {
        match message_of(b[0], b.subrange(5, length + 1)) {
            Ok(m) => Ok(ReadView::Done(m, length + 1)),
            Err(e) => Err(e),
        }
    }
}

/// Whether the bytes begin with a complete message that overruns.
pub open spec fn frame_overrun(b: Seq<u8>) -> bool {
    let length = be_value(b.subrange(1, 5));
    5 <= b.len() && 4 <= length && length + 1 <= b.len() && overruns(
        b[0],
        b.subrange(5, length + 1),
    )
}

/// Whether the bytes begin with a complete message that overruns.
pub fn frame_overruns(b: &[u8]) -> (r: bool)
    ensures
        r == frame_overrun(b@),
{
    let n: usize = b.len();
    if n < 5 {
        return false;
    }
    proof {
        lemma_be_ranges();
    }
    let length: u64 = get_be(b, 1, 4);
    if length < 4 || (n as u64) < length + 1 {
        return false;
    }
    payload_overruns(b[0], &b[5..(length + 1) as usize])
}

/// Read a regular (post-startup) frontend message from the bytes received so
/// far.
///
/// Format: `[type:u8][length:u32 (includes itself)][payload]`
pub fn read_frontend_message(b: &[u8]) -> (r: Result<Read, ProtocolError>)
    requires
        !frame_overrun(b@),
    ensures
        match (r, frontend_read(b@)) {
            (Ok(m), Ok(v)) => m@ == v,
            (Err(e), Err(f)) => e == f,
            _ => false,
        },
{
    let n: usize = b.len();
    if n < 1 {
        return Ok(Read::More(1));
    }
    if n < 5 {
        return Ok(Read::More(5));
    }
    proof {
        lemma_be_ranges();
    }
    let msg_type = b[0];
    let length: u64 = get_be(b, 1, 4);
    // `length` includes the 4-byte length field but NOT the type byte.
    if length < 4 {
        return Err(ProtocolError::LengthTooSmall(length as u32));
    }
    if (n as u64) < length + 1 {
        return Ok(Read::More(length + 1));
    }
    let end: usize = (length + 1) as usize;
    match parse_frontend_message(msg_type, &b[5..end]) {
        Ok(m) => Ok(Read::Done(m, end)),
        Err(e) => Err(e),
    }
}

// ── Writing server messages ──────────────────────────────────────────────────

/// A framed message: `[type:u8][length:u32 BE][body]`, where the length
/// counts itself.
pub open spec fn frame(msg_type: u8, body: Seq<u8>) -> Seq<u8> {
    seq![msg_type] + be_bytes((4 + body.len()) as int, 4) + body
}

/// One field of an ErrorResponse: its type and a null-terminated text.
pub open spec fn error_field(kind: u8, text: Seq<char>) -> Seq<u8> {
    seq![kind] + encode_utf8(text) + seq![0u8]
}

/// The body of an ErrorResponse: severity, SQLSTATE code and message.
pub open spec fn error_body(severity: Seq<char>, code: Seq<char>, message: Seq<char>) -> Seq<u8> {
    error_field(0x53, severity) + error_field(0x43, code) + error_field(0x4D, message) + seq![0u8]
}

/// Write a framed server message: `[type:u8][length:u32 BE][body]`.
///
/// `length` = 4 (length field itself) + body.len()
pub fn write_message(out: &mut Vec<u8>, msg_type: u8, body: &[u8])
    requires
        4 + body@.len() <= u32::MAX,
    ensures
        final(out)@ == old(out)@ + frame(msg_type, body@),
{
    let ghost before = out@;
    out.push(msg_type);
    put_be(out, 4 + body.len() as u64, 4);
    out.extend_from_slice(body);
    assert(out@ =~= before + frame(msg_type, body@));
}

fn put_field(out: &mut Vec<u8>, kind: u8, text: &str)
    ensures
        final(out)@ == old(out)@ + error_field(kind, text@),
{
    let ghost before = out@;
    out.push(kind);
    out.extend_from_slice(text.as_bytes());
    out.push(0);
    assert(out@ =~= before + error_field(kind, text@));
}

/// Write an `ErrorResponse` ('E') server message.
///
/// Fields written:
/// - `S` Severity
/// - `C` SQLSTATE code
/// - `M` Message
pub fn write_error_response(out: &mut Vec<u8>, severity: &str, code: &str, message: &str)
    requires
        4 + error_body(severity@, code@, message@).len() <= u32::MAX,
    ensures
        final(out)@ == old(out)@ + frame(
            ERROR_RESPONSE,
            error_body(severity@, code@, message@),
        ),
{
    let mut body: Vec<u8> = Vec::new();
    // Severity
    put_field(&mut body, 0x53, severity);
    // SQLSTATE code
    put_field(&mut body, 0x43, code);
    // Message
    put_field(&mut body, 0x4D, message);
    // Terminator
    body.push(0);
    assert(body@ =~= error_body(severity@, code@, message@));
    write_message(out, ERROR_RESPONSE, body.as_slice());
}

/// Write a `ReadyForQuery` ('Z') server message.
///
/// `txn_status` must be one of:
/// - `b'I'` — Idle (no transaction)
/// - `b'T'` — In a transaction block
/// - `b'E'` — In a failed transaction block
pub fn write_ready_for_query(out: &mut Vec<u8>, txn_status: u8)
    ensures
        final(out)@ == old(out)@ + frame(READY_FOR_QUERY, seq![txn_status]),
{
    let mut body: Vec<u8> = Vec::new();
    body.push(txn_status);
    assert(body@ =~= seq![txn_status]);
    write_message(out, READY_FOR_QUERY, body.as_slice());
}

} // verus!
