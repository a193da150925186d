//! Which requests need a key, and which keys are accepted.

use super::UNAUTHORIZED;
use crate::text::{strip_prefix, trim, trimmed, without_prefix};
use vstd::prelude::*;
use vstd::utf8::encode_utf8_decode_utf8;

verus! {

/// What is left of a header value behind `Bearer `, without white space around
/// it.
pub open spec fn bearer(header: Seq<char>) -> Option<Seq<char>> {
    match without_prefix(header, "Bearer "@) {
        Some(rest) => Some(trimmed(rest)),
        None => None,
    }
}

/// The token that an `Authorization` header carries, if it carries one.
pub fn bearer_token(header: &str) -> (r: Option<String>)
    ensures
        match bearer(header@) {
            Some(token) => r matches Some(t) && t@ == token,
            None => r is None,
        },
{
    match strip_prefix(header, "Bearer ") {
        Some(rest) => Some(trim(rest.as_str())),
        None => None,
    }
}

/// Compare two strings in constant time to prevent timing side-channel attacks.
///
/// Returns `true` only when both slices have identical length and identical
/// byte content, without short-circuiting on the first differing byte.
pub fn constant_time_eq(a: &str, b: &str) -> (r: bool)
    ensures
        r == (a@ == b@),
{
    let x = a.as_bytes();
    let y = b.as_bytes();
    proof {
        encode_utf8_decode_utf8(a@);
        encode_utf8_decode_utf8(b@);
    }
    let n: usize = x.len();
    if n != y.len() {
        return false;
    }
    let mut diff: u8 = 0;
    for i in 0..n
        invariant
            n == x@.len(),
            n == y@.len(),
            diff == 0 <==> (forall|j: int| 0 <= j < i ==> x@[j] == y@[j]),
    {
        let p: u8 = x[i];
        let q: u8 = y[i];
        assert((diff | (p ^ q)) == 0 <==> diff == 0 && p == q) by (bit_vector);
        diff = diff | (p ^ q);
    }
    assert(diff == 0 <==> x@ =~= y@);
    diff == 0
}

/// Whether a list of keys holds a token.
pub open spec fn holds_key(keys: Seq<String>, token: Seq<char>) -> bool {
    exists|i: int| 0 <= i < keys.len() && #[trigger] keys[i]@ == token
}

/// Whether a token is among the keys. Every comparison takes the same time for
/// keys of the same length.
pub fn is_known_key(keys: &Vec<String>, token: &str) -> (r: bool)
    ensures
        r == holds_key(keys@, token@),
{
    for i in 0..keys.len()
        invariant
            forall|j: int| 0 <= j < i ==> (#[trigger] keys@[j])@ != token@,
    {
        if constant_time_eq(keys[i].as_str(), token) {
            return true;
        }
    }
    false
}

/// Whether a method only reads.
pub open spec fn only_reads(method: Seq<char>) -> bool {
    method == "GET"@ || method == "HEAD"@
}

/// Whether a request may be served:
/// - If there are no keys: all requests are allowed.
/// - If reading is public: GET and HEAD requests are allowed.
/// - Otherwise: a valid `Authorization: Bearer <key>` header is required.
pub open spec fn allowed(
    keys: Seq<String>,
    public_read: bool,
    method: Seq<char>,
    header: Option<Seq<char>>,
) -> bool {
    ||| keys.len() == 0
    ||| public_read && only_reads(method)
    ||| header matches Some(h) && bearer(h) matches Some(token) && holds_key(keys, token)
}

/// Validates the `Authorization` header of a request against the keys.
/// `header` is its value, if it is there and is plain text.
pub fn require_auth(
    keys: &Vec<String>,
    public_read: bool,
    method: &str,
    header: Option<String>,
) -> (r: Result<(), u16>)
    ensures
        r is Ok <==> allowed(
            keys@,
            public_read,
            method@,
            match header {
                Some(h) => Some(h@),
                None => None,
            },
        ),
        r matches Err(status) ==> status == UNAUTHORIZED,
{
    if keys.len() == 0 {
        return Ok(());
    }
    if public_read && (crate::text::same_text(method, "GET") || crate::text::same_text(
        method,
        "HEAD",
    )) {
        return Ok(());
    }
    let token = match header {
        Some(h) => bearer_token(h.as_str()),
        None => None,
    };
    match token {
        Some(t) => if is_known_key(keys, t.as_str()) {
            Ok(())
        } else {
            Err(UNAUTHORIZED)
        },
        None => Err(UNAUTHORIZED),
    }
}

// ── Laws ─────────────────────────────────────────────────────────────────────

/// Without keys every request is allowed.
pub proof fn lemma_no_keys_no_auth(
    keys: Seq<String>,
    public_read: bool,
    method: Seq<char>,
    header: Option<Seq<char>>,
)
    requires
        keys.len() == 0,
    ensures
        allowed(keys, public_read, method, header),
{
}

/// Where there are keys, a request that changes something is allowed only with
/// one of them, also if reading is public.
pub proof fn lemma_writes_need_a_key(
    keys: Seq<String>,
    public_read: bool,
    method: Seq<char>,
    header: Option<Seq<char>>,
)
    requires
        keys.len() > 0,
        !only_reads(method),
        allowed(keys, public_read, method, header),
    ensures
        header matches Some(h) && bearer(h) matches Some(token) && holds_key(keys, token),
{
}

} // verus!
