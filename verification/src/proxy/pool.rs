//! Per-(database, user, backend) connection pool.
//!
//! Each pool slot stands for a backend connection that can be borrowed by a
//! proxy session and returned when the transaction completes (transaction-mode
//! pooling, the PgBouncer default). The pool knows connections by number; the
//! caller holds the sockets.

use crate::config::PoolConfig;
use crate::table::views;
use crate::text::{contains_text, has_text};
use vstd::prelude::*;
use vstd::string::StringExecFns;

verus! {

// ── PoolKey ──────────────────────────────────────────────────────────────────

/// Composite key that uniquely identifies a pool bucket.
#[derive(Debug, Clone, PartialEq, Eq, Hash)]
pub struct PoolKey {
    pub database: String,
    pub user: String,
    /// `"<node_id>:<addr>"` — e.g. `"pg1:10.0.0.1:5432"`
    pub backend: String,
}

/// The text that a bucket is filed under.
pub open spec fn bucket_name(database: Seq<char>, user: Seq<char>, backend: Seq<char>) -> Seq<
    char,
> {
    database + "|"@ + user + "|"@ + backend
}

/// The text that a bucket is filed under.
pub open spec fn bucket_of(
    database: Seq<char>,
    user: Seq<char>,
    node_id: Seq<char>,
    addr: Seq<char>,
) -> Seq<char> {
    bucket_name(database, user, node_id + ":"@ + addr)
}

impl PoolKey {
    /// The key of a database, a user and a backend.
    pub fn new(database: &str, user: &str, node_id: &str, addr: &str) -> (r: Self)
        ensures
            r.database@ == database@,
            r.user@ == user@,
            r.backend@ == node_id@ + ":"@ + addr@,
    {
        PoolKey {
            database: database.to_owned(),
            user: user.to_owned(),
            backend: node_id.to_owned().concat(":").concat(addr),
        }
    }

    /// The key as a text.
    pub fn string_key(&self) -> (r: String)
        ensures
            r@ == bucket_name(self.database@, self.user@, self.backend@),
    {
        self.database.clone().concat("|").concat(self.user.as_str()).concat("|").concat(
            self.backend.as_str(),
        )
    }
}

// ── Internal pool bucket ─────────────────────────────────────────────────────

/// The connections of one key.
#[derive(Debug)]
pub struct PoolBucket {
    /// The connections that nobody uses, the most recently returned last.
    pub idle: Vec<u64>,
    /// Total connections alive (idle + in-use).
    pub total: usize,
    pub max: usize,
    /// How often the backend was drained.
    pub generation: u64,
}

/// What a [`PoolBucket`] stands for.
#[verifier::ext_equal]
pub struct BucketView {
    pub idle: Seq<u64>,
    pub total: usize,
    pub max: usize,
    pub generation: u64,
}

impl View for PoolBucket {
    type V = BucketView;

    open spec fn view(&self) -> BucketView {
        BucketView {
            idle: self.idle@,
            total: self.total,
            max: self.max,
            generation: self.generation,
        }
    }
}

fn copy_ids(v: &Vec<u64>) -> (r: Vec<u64>)
    ensures
        r@ == v@,
{
    let mut out: Vec<u64> = Vec::new();
    out.extend_from_slice(v.as_slice());
    assert(out@ =~= v@);
    out
}

impl Clone for PoolBucket {
    fn clone(&self) -> (r: Self)
        ensures
            r@ == self@,
    {
        PoolBucket {
            idle: copy_ids(&self.idle),
            total: self.total,
            max: self.max,
            generation: self.generation,
        }
    }
}

impl BucketView {
    /// A bucket without connections.
    pub open spec fn empty(max: usize) -> BucketView {
        BucketView { idle: Seq::empty(), total: 0, max, generation: 0 }
    }

    /// The bucket with one connection less.
    pub open spec fn without_one(self) -> BucketView {
        BucketView { total: self.total.wrapping_sub(1), ..self }
    }

    /// The bucket with one connection more.
    pub open spec fn with_one(self) -> BucketView {
        BucketView { total: self.total.wrapping_add(1), ..self }
    }

    /// The bucket after it was asked for a connection: an idle connection
    /// leaves, or a slot is reserved for a new one, or nothing changes.
    pub open spec fn after_acquire(self) -> BucketView {
        if self.idle.len() > 0 {
            BucketView { idle: self.idle.drop_last(), ..self }
        } else if self.total < self.max {
            self.with_one()
        } else {
            self
        }
    }

    /// Whether a connection that comes back is kept: it is alive, it was
    /// handed out since the backend was last drained, and the bucket does not
    /// hold more idle connections than its limit.
    pub open spec fn keeps(self, conn: PooledConn, alive: bool) -> bool {
        alive && conn.generation == self.generation && self.idle.len() <= self.max
    }

    /// The bucket after a connection came back.
    pub open spec fn after_release(self, conn: PooledConn, alive: bool) -> BucketView {
        if self.keeps(conn, alive) {
            BucketView { idle: self.idle.push(conn.id), ..self }
        } else {
            self.without_one()
        }
    }

    /// The bucket after a connection was donated.
    pub open spec fn after_inject(self, id: u64) -> BucketView {
        BucketView { idle: self.idle.push(id), ..self.with_one() }
    }

    /// The bucket after its backend was drained.
    pub open spec fn drained(self) -> BucketView {
        BucketView {
            idle: Seq::empty(),
            total: less(self.total, self.idle.len() as int),
            generation: self.generation.wrapping_add(1),
            ..self
        }
    }

    /// The bucket without the idle connections in `expired`.
    pub open spec fn evicted(self, expired: Seq<u64>) -> BucketView {
        let kept = self.idle.filter(|id: u64| !expired.contains(id));
        BucketView {
            idle: kept,
            total: less(self.total, self.idle.len() - kept.len()),
            ..self
        }
    }
}

/// `total` counted down `n` times.
pub open spec fn less(total: usize, n: int) -> usize
    decreases n,
{
    if n <= 0 {
        total
    } else {
        less(total.wrapping_sub(1), n - 1)
    }
}

/// A connection that was handed out.
#[derive(Debug, Clone, Copy, PartialEq, Eq, Structural)]
pub struct PooledConn {
    pub id: u64,
    /// The generation of the bucket when the connection was handed out.
    pub generation: u64,
}

/// What to do to get a connection.
#[derive(Debug, Clone, Copy, PartialEq, Eq, Structural)]
pub enum Acquire {
    /// Use this idle connection if it is alive; otherwise report it as broken
    /// and ask again.
    Idle(PooledConn),
    /// Open a new connection; a slot is reserved for it.
    Open { generation: u64 },
    /// The limit is reached: wait until a connection is returned.
    Wait,
}

/// What a bucket tells a session that needs a connection.
pub open spec fn acquire_step(b: BucketView) -> Acquire {
    if b.idle.len() > 0 {
        Acquire::Idle(PooledConn { id: b.idle.last(), generation: b.generation })
    } else if b.total < b.max {
        Acquire::Open { generation: b.generation }
    } else {
        Acquire::Wait
    }
}

impl PoolBucket {
    fn new(max: usize) -> (r: Self)
        ensures
            r@ == BucketView::empty(max),
    {
        let r = PoolBucket { idle: Vec::new(), total: 0, max, generation: 0 };
        assert(r@ =~= BucketView::empty(max));
        r
    }

    fn decrement(&mut self)
        ensures
            final(self)@ == old(self)@.without_one(),
    {
        self.total = self.total.wrapping_sub(1);
    }

    fn increment(&mut self)
        ensures
            final(self)@ == old(self)@.with_one(),
    {
        self.total = self.total.wrapping_add(1);
    }

    fn acquire(&mut self) -> (r: Acquire)
        ensures
            r == acquire_step(old(self)@),
            final(self)@ == old(self)@.after_acquire(),
    {
        let generation = self.generation;
        match self.idle.pop() {
            Some(id) => {
                assert(self@ =~= old(self)@.after_acquire());
                Acquire::Idle(PooledConn { id, generation })
            },
            None => {
                assert(old(self)@.idle.len() == 0);
                if self.total < self.max {
                    // Reserve a slot before the connect
                    self.increment();
                    Acquire::Open { generation }
                } else {
                    Acquire::Wait
                }
            },
        }
    }

    fn release(&mut self, conn: PooledConn, alive: bool) -> (kept: bool)
        ensures
            kept == old(self)@.keeps(conn, alive),
            final(self)@ == old(self)@.after_release(conn, alive),
    {
        if alive && conn.generation == self.generation && self.idle.len() <= self.max {
            self.idle.push(conn.id);
            true
        } else {
            self.decrement();
            false
        }
    }

    fn inject(&mut self, id: u64)
        ensures
            final(self)@ == old(self)@.after_inject(id),
    {
        self.increment();
        self.idle.push(id);
    }

    fn drain(&mut self)
        ensures
            final(self)@ == old(self)@.drained(),
    {
        let removed: usize = self.idle.len();
        self.idle = Vec::new();
        // Adjust counter for the connections we just discarded.
        for i in 0..removed
            invariant
                less(old(self)@.total, removed as int) == less(self@.total, removed - i),
                self@ == (BucketView { idle: Seq::empty(), total: self@.total, ..old(self)@ }),
        {
            self.decrement();
        }
        self.generation = self.generation.wrapping_add(1);
        assert(self@ =~= old(self)@.drained());
    }

    fn evict(&mut self, expired: &Vec<u64>)
        ensures
            final(self)@ == old(self)@.evicted(expired@),
    {
        let ghost keep = |id: u64| !expired@.contains(id);
        let ghost all = self.idle@;
        let before: usize = self.idle.len();
        let mut kept: Vec<u64> = Vec::new();
        proof {
            reveal(Seq::filter);
        }
        assert(all.take(0).filter(keep) =~= Seq::<u64>::empty());
        for i in 0..before
            invariant
                before == all.len(),
                self.idle@ == all,
                self@ == old(self)@,
                keep == (|id: u64| !expired@.contains(id)),
                kept@ == all.take(i as int).filter(keep),
                kept@.len() <= i,
        {
            let id = self.idle[i];
            proof {
                reveal(Seq::filter);
                assert(all.take(i + 1).drop_last() =~= all.take(i as int));
            }
            if !lists_id(expired, id) {
                kept.push(id);
            }
        }
        assert(all.take(before as int) =~= all);
        let gone: usize = before - kept.len();
        for i in 0..gone
            invariant
                self@ == (BucketView { total: self@.total, ..old(self)@ }),
                less(old(self)@.total, gone as int) == less(self@.total, gone - i),
        {
            self.decrement();
        }
        self.idle = kept;
        assert(self@ =~= old(self)@.evicted(expired@));
    }
}

fn lists_id(v: &Vec<u64>, id: u64) -> (r: bool)
    ensures
        r == v@.contains(id),
{
    for i in 0..v.len()
        invariant
            forall|j: int| 0 <= j < i ==> v@[j] != id,
    {
        if v[i] == id {
            assert(v@[i as int] == id);
            return true;
        }
    }
    false
}

// ── The map of buckets ───────────────────────────────────────────────────────

/// `dashmap::DashMap`: a concurrent map.
#[verifier::external_type_specification]
#[verifier::external_body]
#[verifier::reject_recursive_types(K)]
#[verifier::reject_recursive_types(V)]
#[verifier::reject_recursive_types(S)]
pub struct ExDashMap<K, V, S>(dashmap::DashMap<K, V, S>);

/// The buckets that a map holds, by their names.
pub uninterp spec fn buckets(m: dashmap::DashMap<String, PoolBucket>) -> Map<Seq<char>, BucketView>;

/// The map that holds nothing.
pub open spec fn no_buckets() -> Map<Seq<char>, BucketView> {
    Map::empty()
}

/// `DashMap::new` makes a map that holds nothing.
#[verifier::external_body]
fn new_buckets() -> (r: dashmap::DashMap<String, PoolBucket>)
    ensures
        buckets(r) == no_buckets(),
{
    dashmap::DashMap::new()
}

/// `DashMap::get` gives the value of a key, if the map holds the key. Here it
/// is copied.
#[verifier::external_body]
fn get_bucket(m: &dashmap::DashMap<String, PoolBucket>, name: &str) -> (r: Option<PoolBucket>)
    ensures
        r is Some <==> buckets(*m).contains_key(name@),
        r matches Some(b) ==> b@ == buckets(*m)[name@],
{
    m.get(name).map(|b| b.value().clone())
}

/// `DashMap::insert` sets the value of a key and leaves all others as they
/// are.
#[verifier::external_body]
fn put_bucket(m: &mut dashmap::DashMap<String, PoolBucket>, name: String, b: PoolBucket)
    ensures
        buckets(*final(m)) == buckets(*old(m)).insert(name@, b@),
{
    m.insert(name, b);
}

/// `DashMap::iter` visits every key once, in no particular order.
#[verifier::external_body]
fn bucket_names(m: &dashmap::DashMap<String, PoolBucket>) -> (r: Vec<String>)
    ensures
        views(r@).no_duplicates(),
        forall|k: Seq<char>| #[trigger]
            views(r@).contains(k) <==> buckets(*m).contains_key(k),
{
    m.iter().map(|e| e.key().clone()).collect()
}

// ── ConnectionPool ───────────────────────────────────────────────────────────

/// A global connection pool indexed by `(database, user, backend_addr)`.
pub struct ConnectionPool {
    pools: dashmap::DashMap<String, PoolBucket>,
    config: PoolConfig,
}

impl View for ConnectionPool {
    type V = Map<Seq<char>, BucketView>;

    /// The buckets by their names.
    closed spec fn view(&self) -> Map<Seq<char>, BucketView> {
        buckets(self.pools)
    }
}

/// The text of the error when no connection came free in time.
pub open spec fn exhausted_text(database: Seq<char>, user: Seq<char>, addr: Seq<char>) -> Seq<
    char,
> {
    "connection pool exhausted for "@ + database + "/"@ + user + " → "@ + addr
}

/// The text of the error when no connection came free in time.
pub fn exhausted_message(database: &str, user: &str, backend_addr: &str) -> (r: String)
    ensures
        r@ == exhausted_text(database@, user@, backend_addr@),
{
    "connection pool exhausted for ".to_owned().concat(database).concat("/").concat(user).concat(
        " → ",
    ).concat(backend_addr)
}

/// The idle connections of the buckets whose names contain `addr`.
pub open spec fn idle_at(pools: Map<Seq<char>, BucketView>, addr: Seq<char>, id: u64) -> bool {
    exists|k: Seq<char>| #[trigger]
        pools.contains_key(k) && contains_text(k, addr) && pools[k].idle.contains(id)
}

/// The bucket with the given name among those of a pool; an empty one with the
/// given limit if there is none.
pub open spec fn bucket_in(
    pools: Map<Seq<char>, BucketView>,
    limit: usize,
    name: Seq<char>,
) -> BucketView {
    if pools.contains_key(name) {
        pools[name]
    } else {
        BucketView::empty(limit)
    }
}

/// The buckets after a session asked for a connection.
pub open spec fn pools_after_acquire(
    pools: Map<Seq<char>, BucketView>,
    limit: usize,
    name: Seq<char>,
) -> Map<Seq<char>, BucketView> {
    pools.insert(name, bucket_in(pools, limit, name).after_acquire())
}

/// The buckets after a connection was donated.
pub open spec fn pools_after_inject(
    pools: Map<Seq<char>, BucketView>,
    limit: usize,
    name: Seq<char>,
    id: u64,
) -> Map<Seq<char>, BucketView> {
    pools.insert(name, bucket_in(pools, limit, name).after_inject(id))
}

/// The buckets after a connection came back.
pub open spec fn pools_after_release(
    pools: Map<Seq<char>, BucketView>,
    name: Seq<char>,
    conn: PooledConn,
    alive: bool,
) -> Map<Seq<char>, BucketView> {
    if pools.contains_key(name) {
        pools.insert(name, pools[name].after_release(conn, alive))
    } else {
        pools
    }
}

/// The buckets after a connection was given up.
pub open spec fn pools_after_discard(
    pools: Map<Seq<char>, BucketView>,
    name: Seq<char>,
) -> Map<Seq<char>, BucketView> {
    if pools.contains_key(name) {
        pools.insert(name, pools[name].without_one())
    } else {
        pools
    }
}

/// Whether `after` are the buckets `before` once an address was drained.
pub open spec fn are_drained(
    before: Map<Seq<char>, BucketView>,
    addr: Seq<char>,
    after: Map<Seq<char>, BucketView>,
) -> bool {
    &&& after.dom() == before.dom()
    &&& forall|k: Seq<char>| #[trigger]
        before.contains_key(k) ==> after[k] == if contains_text(k, addr) {
            before[k].drained()
        } else {
            before[k]
        }
}

/// Whether `after` are the buckets `before` without the named idle connections.
pub open spec fn are_evicted(
    before: Map<Seq<char>, BucketView>,
    expired: Seq<u64>,
    after: Map<Seq<char>, BucketView>,
) -> bool {
    &&& after.dom() == before.dom()
    &&& forall|k: Seq<char>| #[trigger]
        before.contains_key(k) ==> after[k] == before[k].evicted(expired)
}

impl ConnectionPool {
    /// The limits of the pool.
    pub closed spec fn limits(&self) -> PoolConfig {
        self.config
    }

    /// Whether every bucket has the configured limit.
    pub open spec fn is_limited(&self) -> bool {
        forall|name: Seq<char>| #[trigger]
            self@.contains_key(name) ==> self@[name].max
                == self.limits().max_connections_per_db_user as usize
    }

    /// The bucket with the given name; an empty one if there is none.
    pub open spec fn bucket(&self, name: Seq<char>) -> BucketView {
        if self@.contains_key(name) {
            self@[name]
        } else {
            BucketView::empty(self.limits().max_connections_per_db_user as usize)
        }
    }

    /// A pool without connections.
    pub fn new(config: PoolConfig) -> (r: Self)
        ensures
            r@ == no_buckets(),
            r.limits() == config,
            r.is_limited(),
    {
        ConnectionPool { pools: new_buckets(), config }
    }

    fn bucket_or_new(&self, name: &str) -> (r: PoolBucket)
        ensures
            r@ == self.bucket(name@),
    {
        match get_bucket(&self.pools, name) {
            Some(b) => b,
            None => PoolBucket::new(self.config.max_connections_per_db_user as usize),
        }
    }

    /// Borrow a connection for `(database, user, backend_addr)`.
    ///
    /// - If an idle connection exists it is returned. The caller checks that
    ///   it is healthy; if not, it calls `discard` and asks again.
    /// - Otherwise the caller opens a new TCP connection (if under the pool
    ///   limit), and calls `discard` if it cannot.
    /// - If the limit is reached the caller waits up to
    ///   `connect_timeout_seconds` and asks again.
    pub fn acquire(
        &mut self,
        database: &str,
        user: &str,
        backend_addr: &str,
        node_id: &str,
    ) -> (r: Acquire)
        ensures
            ({
                let name = bucket_of(database@, user@, node_id@, backend_addr@);
                let b = old(self).bucket(name);
                &&& r == acquire_step(b)
                &&& final(self)@ == old(self)@.insert(name, b.after_acquire())
            }),
            final(self)@ == pools_after_acquire(
                old(self)@,
                old(self).limits().max_connections_per_db_user as usize,
                bucket_of(database@, user@, node_id@, backend_addr@),
            ),
            final(self).limits() == old(self).limits(),
            old(self).is_limited() ==> final(self).is_limited(),
    {
        let name = PoolKey::new(database, user, node_id, backend_addr).string_key();
        let mut b = self.bucket_or_new(name.as_str());
        let r = b.acquire();
        put_bucket(&mut self.pools, name, b);
        r
    }

    /// Give up a connection that turned out to be broken, or a slot that was
    /// reserved for a connection that could not be opened.
    pub fn discard(&mut self, database: &str, user: &str, backend_addr: &str, node_id: &str)
        ensures
            ({
                let name = bucket_of(database@, user@, node_id@, backend_addr@);
                final(self)@ == if old(self)@.contains_key(name) {
                    old(self)@.insert(name, old(self)@[name].without_one())
                } else {
                    old(self)@
                }
            }),
            final(self)@ == pools_after_discard(
                old(self)@,
                bucket_of(database@, user@, node_id@, backend_addr@),
            ),
            final(self).limits() == old(self).limits(),
            old(self).is_limited() ==> final(self).is_limited(),
    {
        let name = PoolKey::new(database, user, node_id, backend_addr).string_key();
        match get_bucket(&self.pools, name.as_str()) {
            Some(bucket) => {
                let mut b = bucket;
                b.decrement();
                put_bucket(&mut self.pools, name, b);
            },
            None => {},
        }
    }

    /// Return a connection to the pool, and tell whether the pool keeps it.
    ///
    /// If the connection is broken, or we already have more idle connections
    /// than the `max_connections_per_db_user` limit, or the backend was
    /// drained since it was handed out, it is discarded.
    pub fn release(
        &mut self,
        database: &str,
        user: &str,
        backend_addr: &str,
        node_id: &str,
        conn: PooledConn,
        alive: bool,
    ) -> (kept: bool)
        ensures
            ({
                let name = bucket_of(database@, user@, node_id@, backend_addr@);
                &&& kept <==> old(self)@.contains_key(name) && old(self)@[name].keeps(conn, alive)
                &&& final(self)@ == if old(self)@.contains_key(name) {
                    old(self)@.insert(name, old(self)@[name].after_release(conn, alive))
                } else {
                    old(self)@
                }
            }),
            final(self)@ == pools_after_release(
                old(self)@,
                bucket_of(database@, user@, node_id@, backend_addr@),
                conn,
                alive,
            ),
            final(self).limits() == old(self).limits(),
            old(self).is_limited() ==> final(self).is_limited(),
    {
        let name = PoolKey::new(database, user, node_id, backend_addr).string_key();
        match get_bucket(&self.pools, name.as_str()) {
            Some(bucket) => {
                let mut b = bucket;
                let kept = b.release(conn, alive);
                put_bucket(&mut self.pools, name, b);
                assert(old(self).is_limited() ==> self.is_limited()) by {
                    assert(b@.max == old(self)@[name@].max);
                }
                kept
            },
            None => false,
        }
    }

    /// Donate a pre-authenticated connection to the pool.
    ///
    /// Use this after completing startup+auth on a fresh TCP connection so the
    /// pool can hand it out for subsequent query routing.  Unlike `release`,
    /// this path increments the total-connection counter (since `acquire` was
    /// never called for this connection).
    pub fn inject(
        &mut self,
        database: &str,
        user: &str,
        backend_addr: &str,
        node_id: &str,
        id: u64,
    )
        ensures
            ({
                let name = bucket_of(database@, user@, node_id@, backend_addr@);
                final(self)@ == old(self)@.insert(name, old(self).bucket(name).after_inject(id))
            }),
            final(self)@ == pools_after_inject(
                old(self)@,
                old(self).limits().max_connections_per_db_user as usize,
                bucket_of(database@, user@, node_id@, backend_addr@),
                id,
            ),
            final(self).limits() == old(self).limits(),
            old(self).is_limited() ==> final(self).is_limited(),
    {
        let name = PoolKey::new(database, user, node_id, backend_addr).string_key();
        let mut b = self.bucket_or_new(name.as_str());
        b.inject(id);
        put_bucket(&mut self.pools, name, b);
    }

    /// Remove all idle connections to `backend_addr` (used after a failover),
    /// and return them.
    ///
    /// In-use connections will be discarded when they are next `release()`d.
    pub fn drain_backend(&mut self, backend_addr: &str) -> (removed: Vec<u64>)
        ensures
            final(self)@.dom() == old(self)@.dom(),
            forall|k: Seq<char>| #[trigger]
                old(self)@.contains_key(k) ==> final(self)@[k] == if contains_text(
                    k,
                    backend_addr@,
                ) {
                    old(self)@[k].drained()
                } else {
                    old(self)@[k]
                },
            are_drained(old(self)@, backend_addr@, final(self)@),
            forall|id: u64| #[trigger]
                removed@.contains(id) <==> idle_at(old(self)@, backend_addr@, id),
            final(self).limits() == old(self).limits(),
            old(self).is_limited() ==> final(self).is_limited(),
    {
        let ghost start = self@;
        let names = bucket_names(&self.pools);
        let ghost all = views(names@);
        let mut removed: Vec<u64> = Vec::new();
        for i in 0..names.len()
            invariant
                start == old(self)@,
                self.limits() == old(self).limits(),
                all == views(names@),
                all.no_duplicates(),
                forall|k: Seq<char>| #[trigger] all.contains(k) <==> start.contains_key(k),
                self@.dom() == start.dom(),
                forall|k: Seq<char>| #[trigger]
                    start.contains_key(k) ==> self@[k] == if all.take(i as int).contains(k)
                        && contains_text(k, backend_addr@) {
                        start[k].drained()
                    } else {
                        start[k]
                    },
                forall|id: u64| #[trigger]
                    removed@.contains(id) <==> exists|j: int|
                        0 <= j < i && contains_text(#[trigger] all[j], backend_addr@)
                            && start[all[j]].idle.contains(id),
        {
            let ghost k = all[i as int];
            let ghost before = self@;
            let ghost gone = removed@;
            assert(all.contains(k));
            assert(!all.take(i as int).contains(k));
            if has_text(names[i].as_str(), backend_addr) {
                match get_bucket(&self.pools, names[i].as_str()) {
                    Some(bucket) => {
                        let mut b = bucket;
                        removed.extend_from_slice(b.idle.as_slice());
                        assert(removed@ =~= gone + start[k].idle);
                        b.drain();
                        put_bucket(&mut self.pools, names[i].clone(), b);
                    },
                    None => {},
                }
            }
            proof {
                assert(self@.dom() =~= start.dom());
                assert forall|x: Seq<char>| #[trigger] start.contains_key(x) implies self@[x]
                    == if all.take(i + 1).contains(x) && contains_text(x, backend_addr@) {
                    start[x].drained()
                } else {
                    start[x]
                } by {
                    lemma_take_contains(all, i as int, x);
                }
                assert forall|id: u64| #[trigger] removed@.contains(id) <==> exists|j: int|
                    0 <= j < i + 1 && contains_text(#[trigger] all[j], backend_addr@)
                        && start[all[j]].idle.contains(id) by {
                    if contains_text(k, backend_addr@) {
                        lemma_sum_contains(gone, start[k].idle, id);
                    }
                    if removed@.contains(id) {
                        if gone.contains(id) {
                            let j = choose|j: int|
                                0 <= j < i && contains_text(#[trigger] all[j], backend_addr@)
                                    && start[all[j]].idle.contains(id);
                            assert(contains_text(all[j], backend_addr@));
                        } else {
                            assert(contains_text(all[i as int], backend_addr@));
                        }
                    }
                }
            }
        }
        proof {
            assert(all.take(all.len() as int) =~= all);
            assert forall|id: u64| #[trigger] removed@.contains(id) <==> idle_at(
                start,
                backend_addr@,
                id,
            ) by {
                if removed@.contains(id) {
                    let j = choose|j: int|
                        0 <= j < all.len() && contains_text(#[trigger] all[j], backend_addr@)
                            && start[all[j]].idle.contains(id);
                    assert(all.contains(all[j]));
                    assert(start.contains_key(all[j]));
                }
                if idle_at(start, backend_addr@, id) {
                    let k = choose|k: Seq<char>| #[trigger]
                        start.contains_key(k) && contains_text(k, backend_addr@)
                            && start[k].idle.contains(id);
                    assert(all.contains(k));
                    let j = choose|j: int| 0 <= j < all.len() && all[j] == k;
                    assert(contains_text(all[j], backend_addr@));
                }
            }
        }
        removed
    }

    /// Remove the idle connections in `expired`: those that are idle longer
    /// than `idle_timeout_seconds`.
    pub fn evict_idle(&mut self, expired: &Vec<u64>)
        ensures
            final(self)@.dom() == old(self)@.dom(),
            forall|k: Seq<char>| #[trigger]
                old(self)@.contains_key(k) ==> final(self)@[k] == old(self)@[k].evicted(expired@),
            are_evicted(old(self)@, expired@, final(self)@),
            final(self).limits() == old(self).limits(),
            old(self).is_limited() ==> final(self).is_limited(),
    {
        let ghost start = self@;
        let names = bucket_names(&self.pools);
        let ghost all = views(names@);
        for i in 0..names.len()
            invariant
                start == old(self)@,
                self.limits() == old(self).limits(),
                all == views(names@),
                all.no_duplicates(),
                forall|k: Seq<char>| #[trigger] all.contains(k) <==> start.contains_key(k),
                self@.dom() == start.dom(),
                forall|k: Seq<char>| #[trigger]
                    start.contains_key(k) ==> self@[k] == if all.take(i as int).contains(k) {
                        start[k].evicted(expired@)
                    } else {
                        start[k]
                    },
        {
            let ghost k = all[i as int];
            assert(all.contains(k));
            assert(!all.take(i as int).contains(k));
            match get_bucket(&self.pools, names[i].as_str()) {
                Some(bucket) => {
                    let mut b = bucket;
                    b.evict(expired);
                    put_bucket(&mut self.pools, names[i].clone(), b);
                },
                None => {},
            }
            proof {
                assert(self@.dom() =~= start.dom());
                assert forall|x: Seq<char>| #[trigger] start.contains_key(x) implies self@[x]
                    == if all.take(i + 1).contains(x) {
                    start[x].evicted(expired@)
                } else {
                    start[x]
                } by {
                    lemma_take_contains(all, i as int, x);
                }
            }
        }
        proof {
            assert(all.take(all.len() as int) =~= all);
        }
    }

    /// The idle connections of all buckets.
    pub fn idle_connections(&self) -> (r: Vec<u64>)
        ensures
            forall|id: u64| #[trigger]
                r@.contains(id) <==> exists|k: Seq<char>| #[trigger]
                    self@.contains_key(k) && self@[k].idle.contains(id),
    {
        let names = bucket_names(&self.pools);
        let ghost all = views(names@);
        let mut out: Vec<u64> = Vec::new();
        for i in 0..names.len()
            invariant
                all == views(names@),
                forall|k: Seq<char>| #[trigger] all.contains(k) <==> self@.contains_key(k),
                forall|id: u64| #[trigger]
                    out@.contains(id) <==> exists|j: int|
                        0 <= j < i && self@[#[trigger] all[j]].idle.contains(id),
        {
            let ghost k = all[i as int];
            let ghost before = out@;
            assert(all.contains(k));
            match get_bucket(&self.pools, names[i].as_str()) {
                Some(b) => {
                    out.extend_from_slice(b.idle.as_slice());
                    assert(out@ =~= before + self@[k].idle);
                },
                None => {},
            }
            proof {
                assert forall|id: u64| #[trigger] out@.contains(id) <==> exists|j: int|
                    0 <= j < i + 1 && self@[#[trigger] all[j]].idle.contains(id) by {
                    lemma_sum_contains(before, self@[k].idle, id);
                    if out@.contains(id) {
                        if before.contains(id) {
                            let j = choose|j: int|
                                0 <= j < i && self@[#[trigger] all[j]].idle.contains(id);
                            assert(self@[all[j]].idle.contains(id));
                        } else {
                            assert(self@[all[i as int]].idle.contains(id));
                        }
                    }
                }
            }
        }
        proof {
            assert forall|id: u64| #[trigger] out@.contains(id) <==> exists|k: Seq<char>| #[trigger]
                self@.contains_key(k) && self@[k].idle.contains(id) by {
                if out@.contains(id) {
                    let j = choose|j: int|
                        0 <= j < all.len() && self@[#[trigger] all[j]].idle.contains(id);
                    assert(all.contains(all[j]));
                    assert(self@.contains_key(all[j]));
                }
                if exists|k: Seq<char>| #[trigger]
                    self@.contains_key(k) && self@[k].idle.contains(id) {
                    let k = choose|k: Seq<char>| #[trigger]
                        self@.contains_key(k) && self@[k].idle.contains(id);
                    assert(all.contains(k));
                    let j = choose|j: int| 0 <= j < all.len() && all[j] == k;
                    assert(self@[all[j]].idle.contains(id));
                }
            }
        }
        out
    }
}

/// How long a session that asks at `now_ms` may still wait for a connection;
/// `None` if its deadline has come.
pub fn wait_step(now_ms: u64, deadline_ms: u64) -> (r: Option<u64>)
    ensures
        r == (if now_ms >= deadline_ms {
            None::<u64>
        } else {
            Some((deadline_ms - now_ms) as u64)
        }),
        is_wait(now_ms, deadline_ms, r),
{
    if now_ms >= deadline_ms {
        None
    } else {
        Some(deadline_ms - now_ms)
    }
}

/// Whether a connection that was last used `idle_secs` ago has been idle
/// longer than `timeout_secs`.
pub fn is_idle_too_long(idle_secs: u64, timeout_secs: u64) -> (r: bool)
    ensures
        r <==> idle_secs > timeout_secs,
{
    idle_secs > timeout_secs
}

proof fn lemma_take_contains<A>(s: Seq<A>, i: int, x: A)
    requires
        0 <= i < s.len(),
    ensures
        s.take(i + 1).contains(x) <==> s.take(i).contains(x) || s[i] == x,
{
    let t = s.take(i + 1);
    if t.contains(x) && s[i] != x {
        let j = choose|j: int| 0 <= j < t.len() && t[j] == x;
        assert(s.take(i)[j] == x);
    }
    if s.take(i).contains(x) {
        let j = choose|j: int| 0 <= j < i && s.take(i)[j] == x;
        assert(t[j] == x);
    }
    if s[i] == x {
        assert(t[i] == x);
    }
}

proof fn lemma_sum_contains<A>(a: Seq<A>, b: Seq<A>, x: A)
    ensures
        (a + b).contains(x) <==> a.contains(x) || b.contains(x),
{
    let s = a + b;
    if s.contains(x) {
        let j = choose|j: int| 0 <= j < s.len() && s[j] == x;
        if j < a.len() {
            assert(a[j] == x);
        } else {
            assert(b[j - a.len()] == x);
        }
    }
    if a.contains(x) {
        let j = choose|j: int| 0 <= j < a.len() && a[j] == x;
        assert(s[j] == x);
    }
    if b.contains(x) {
        let j = choose|j: int| 0 <= j < b.len() && b[j] == x;
        assert(s[a.len() + j] == x);
    }
}

// ── Laws ─────────────────────────────────────────────────────────────────────

/// Whether the counter of a bucket is right when `in_use` of its connections
/// are handed out.
pub open spec fn accounts(b: BucketView, in_use: int) -> bool {
    0 <= in_use && b.total == b.idle.len() + in_use
}

proof fn lemma_less(total: usize, n: int)
    requires
        0 <= n <= total,
    ensures
        less(total, n) == total - n,
    decreases n,
{
    if n > 0 {
        lemma_less(total.wrapping_sub(1), n - 1);
    }
}

/// A session that gets an idle connection or a slot for a new one makes one
/// more connection that is in use; one that has to wait changes nothing. The
/// limit is never exceeded this way.
pub proof fn lemma_acquire_accounts(b: BucketView, in_use: int)
    requires
        accounts(b, in_use),
    ensures
        accounts(
            b.after_acquire(),
            if acquire_step(b) is Wait {
                in_use
            } else {
                in_use + 1
            },
        ),
        b.total <= b.max ==> b.after_acquire().total <= b.max,
        acquire_step(b) is Wait <==> b.idle.len() == 0 && in_use >= b.max,
{
}

/// A connection that comes back or is given up is no longer in use.
pub proof fn lemma_release_accounts(b: BucketView, in_use: int, conn: PooledConn, alive: bool)
    requires
        accounts(b, in_use),
        in_use > 0,
    ensures
        accounts(b.after_release(conn, alive), in_use - 1),
        accounts(b.without_one(), in_use - 1),
        b.after_release(conn, alive).total <= b.total,
{
}

/// Donating, draining and evicting do not touch the connections in use.
pub proof fn lemma_others_account(b: BucketView, in_use: int, id: u64, expired: Seq<u64>)
    requires
        accounts(b, in_use),
    ensures
        b.total < usize::MAX ==> accounts(b.after_inject(id), in_use),
        accounts(b.drained(), in_use),
        accounts(b.evicted(expired), in_use),
{
    broadcast use vstd::seq_lib::group_filter_ensures;

    let kept = b.idle.filter(|id: u64| !expired.contains(id));
    lemma_less(b.total, b.idle.len() as int);
    lemma_less(b.total, b.idle.len() - kept.len());
}

/// A connection that was handed out before its backend was drained is
/// discarded when it comes back.
pub proof fn lemma_drained_connections_go(b: BucketView, opened: u64, alive: bool)
    ensures
        b.drained().idle.len() == 0,
        acquire_step(b) matches Acquire::Idle(conn) ==> !b.after_acquire().drained().keeps(
            conn,
            alive,
        ),
        acquire_step(b) matches Acquire::Open {
            generation,
        } ==> !b.after_acquire().drained().keeps(PooledConn { id: opened, generation }, alive),
{
}

/// A healthy connection that was handed out and comes back is handed out
/// again next.
pub proof fn lemma_returned_connection_is_reused(b: BucketView, conn: PooledConn)
    requires
        b.keeps(conn, true),
    ensures
        acquire_step(b.after_release(conn, true)) == Acquire::Idle(conn),
        b.after_release(conn, true).after_acquire() == b,
{
    assert(b.idle.push(conn.id).drop_last() =~= b.idle);
}

proof fn lemma_same_prefix(a: Seq<char>, b: Seq<char>, x: Seq<char>, y: Seq<char>, c: char)
    requires
        a + seq![c] + x == b + seq![c] + y,
        !a.contains(c),
        !b.contains(c),
    ensures
        a == b,
        x == y,
{
    let s = a + seq![c] + x;
    let t = b + seq![c] + y;
    if a.len() < b.len() {
        assert(s[a.len() as int] == c);
        assert(t[a.len() as int] == b[a.len() as int]);
        assert(b.contains(c));
    }
    if b.len() < a.len() {
        assert(t[b.len() as int] == c);
        assert(s[b.len() as int] == a[b.len() as int]);
        assert(a.contains(c));
    }
    assert(a =~= b) by {
        assert forall|i: int| 0 <= i < a.len() implies a[i] == b[i] by {
            assert(s[i] == t[i]);
        }
    }
    assert(s.len() == a.len() + 1 + x.len());
    assert(t.len() == b.len() + 1 + y.len());
    assert(x =~= y) by {
        assert forall|i: int| 0 <= i < x.len() implies x[i] == y[i] by {
            assert(s[a.len() + 1 + i] == t[b.len() + 1 + i]);
        }
    }
}

/// Different keys are filed under different names, as long as no database and
/// no user has a vertical bar in its name.
pub proof fn lemma_bucket_names_are_unique(
    database: Seq<char>,
    user: Seq<char>,
    backend: Seq<char>,
    database2: Seq<char>,
    user2: Seq<char>,
    backend2: Seq<char>,
)
    requires
        !database.contains('|'),
        !user.contains('|'),
        !database2.contains('|'),
        !user2.contains('|'),
        bucket_name(database, user, backend) == bucket_name(database2, user2, backend2),
    ensures
        database == database2,
        user == user2,
        backend == backend2,
{
    reveal_strlit("|");
    let bar = seq!['|'];
    assert("|"@ =~= bar);
    let x = user + bar + backend;
    let y = user2 + bar + backend2;
    assert(bucket_name(database, user, backend) =~= database + bar + x);
    assert(bucket_name(database2, user2, backend2) =~= database2 + bar + y);
    lemma_same_prefix(database, database2, x, y, '|');
    lemma_same_prefix(user, user2, backend, backend2, '|');
}

/// A pool opens a connection only for a bucket that has fewer than the
/// configured limit, whatever the bucket is, and lets sessions wait only at
/// the limit.
pub proof fn lemma_limit_is_configured(pool: ConnectionPool, name: Seq<char>)
    requires
        pool.is_limited(),
    ensures
        ({
            let limit = pool.limits().max_connections_per_db_user as usize;
            let b = pool.bucket(name);
            &&& b.max == limit
            &&& acquire_step(b) is Open ==> b.total < limit
            &&& acquire_step(b) is Wait ==> b.total >= limit
        }),
{
}

/// Draining an address reaches every bucket of a backend at that address.
pub proof fn lemma_drain_reaches_backend(
    database: Seq<char>,
    user: Seq<char>,
    node_id: Seq<char>,
    addr: Seq<char>,
)
    ensures
        contains_text(bucket_of(database, user, node_id, addr), addr),
{
    let k = bucket_of(database, user, node_id, addr);
    let head = database + "|"@ + user + "|"@ + (node_id + ":"@);
    assert(k =~= head + addr);
    assert(k.subrange(head.len() as int, (head.len() + addr.len()) as int) =~= addr);
    assert(crate::text::occurs_at(k, addr, head.len() as int));
}

/// What a session gets: the idle connection that came back last if there is one;
/// otherwise a new one if there are fewer than the limit; otherwise it waits.
/// The rest of the bucket stays as it is.
pub proof fn lemma_what_a_session_gets(b: BucketView)
    ensures
        b.idle.len() > 0 ==> acquire_step(b) == Acquire::Idle(
            PooledConn { id: b.idle[b.idle.len() - 1], generation: b.generation },
        ) && b.after_acquire().idle == b.idle.take(b.idle.len() - 1) && b.after_acquire().total
            == b.total,
        b.idle.len() == 0 && b.total < b.max ==> acquire_step(b) == (Acquire::Open {
            generation: b.generation,
        }) && b.after_acquire().idle == b.idle && b.after_acquire().total == b.total + 1,
        b.idle.len() == 0 && b.total >= b.max ==> acquire_step(b) == Acquire::Wait
            && b.after_acquire() == b,
        b.after_acquire().max == b.max,
        b.after_acquire().generation == b.generation,
{
}

/// A connection that comes back is kept exactly if it is alive, its backend was
/// not drained since it was handed out, and there are no more idle connections
/// than the limit. It is then the next that is handed out. One that is not kept
/// makes room for another.
pub proof fn lemma_what_becomes_of_a_connection(b: BucketView, conn: PooledConn, alive: bool)
    ensures
        b.keeps(conn, alive) <==> alive && conn.generation == b.generation && b.idle.len() <= b.max,
        b.keeps(conn, alive) ==> b.after_release(conn, alive).idle == b.idle.push(conn.id)
            && b.after_release(conn, alive).total == b.total,
        !b.keeps(conn, alive) && b.total > 0 ==> b.after_release(conn, alive).idle == b.idle
            && b.after_release(conn, alive).total == b.total - 1,
        b.after_release(conn, alive).max == b.max,
        b.after_release(conn, alive).generation == b.generation,
        b.total > 0 ==> b.without_one().total == b.total - 1,
        b.without_one().idle == b.idle,
        b.without_one().generation == b.generation,
        b.without_one().max == b.max,
{
}

/// A donated connection is idle and counts. Draining gives up all idle
/// connections and those that are in use; evicting gives up exactly the idle
/// ones that are named.
pub proof fn lemma_what_leaves_a_bucket(b: BucketView, id: u64, expired: Seq<u64>)
    requires
        b.idle.len() <= b.total,
        b.total < usize::MAX,
        b.generation < u64::MAX,
    ensures
        b.after_inject(id).idle == b.idle.push(id),
        b.after_inject(id).total == b.total + 1,
        b.after_inject(id).generation == b.generation,
        b.after_inject(id).max == b.max,
        b.drained().idle.len() == 0,
        b.drained().total == b.total - b.idle.len(),
        b.drained().generation == b.generation + 1,
        b.drained().max == b.max,
        forall|c: u64| #[trigger]
            b.evicted(expired).idle.contains(c) <==> b.idle.contains(c) && !expired.contains(c),
        b.evicted(expired).total - b.evicted(expired).idle.len() == b.total - b.idle.len(),
        b.evicted(expired).generation == b.generation,
        b.evicted(expired).max == b.max,
{
    broadcast use vstd::seq_lib::group_filter_ensures;

    let keep = |c: u64| !expired.contains(c);
    let kept = b.idle.filter(keep);
    lemma_less(b.total, b.idle.len() as int);
    lemma_less(b.total, b.idle.len() - kept.len());
    assert forall|c: u64| #[trigger] b.evicted(expired).idle.contains(c) implies b.idle.contains(c)
        && !expired.contains(c) by {
        let i = choose|i: int| 0 <= i < kept.len() && kept[i] == c;
        assert(keep(kept[i]));
        b.idle.lemma_filter_contains_rev(keep, c);
    }
    assert forall|c: u64| b.idle.contains(c) && !expired.contains(c) implies #[trigger] b.evicted(
        expired,
    ).idle.contains(c) by {
        let i = choose|i: int| 0 <= i < b.idle.len() && b.idle[i] == c;
        assert(keep(b.idle[i]));
    }
}

/// A bucket is filed under its database, its user, its node and its address.
pub proof fn lemma_bucket_name(
    database: Seq<char>,
    user: Seq<char>,
    node_id: Seq<char>,
    addr: Seq<char>,
)
    ensures
        bucket_of(database, user, node_id, addr) == database + "|"@ + user + "|"@ + node_id + ":"@
            + addr,
{
    assert(bucket_of(database, user, node_id, addr) =~= database + "|"@ + user + "|"@ + node_id
        + ":"@ + addr);
}

/// Each operation of a session touches its own bucket only.
pub proof fn lemma_other_buckets_stay(
    pools: Map<Seq<char>, BucketView>,
    limit: usize,
    name: Seq<char>,
    other: Seq<char>,
    conn: PooledConn,
    alive: bool,
    id: u64,
)
    requires
        other != name,
    ensures
        pools_after_acquire(pools, limit, name).contains_key(other) == pools.contains_key(other),
        pools_after_inject(pools, limit, name, id).contains_key(other) == pools.contains_key(other),
        pools_after_release(pools, name, conn, alive).contains_key(other) == pools.contains_key(
            other,
        ),
        pools_after_discard(pools, name).contains_key(other) == pools.contains_key(other),
        pools.contains_key(other) ==> {
            &&& pools_after_acquire(pools, limit, name)[other] == pools[other]
            &&& pools_after_inject(pools, limit, name, id)[other] == pools[other]
            &&& pools_after_release(pools, name, conn, alive)[other] == pools[other]
            &&& pools_after_discard(pools, name)[other] == pools[other]
        },
{
}

/// A session that asks for a connection where there is no bucket yet may open
/// one if any are allowed. A donated connection is the next that is handed out,
/// and one that comes back alive is too.
pub proof fn lemma_connections_come_round(
    pools: Map<Seq<char>, BucketView>,
    limit: usize,
    name: Seq<char>,
    id: u64,
)
    ensures
        !pools.contains_key(name) && limit > 0 ==> acquire_step(bucket_in(pools, limit, name))
            == (Acquire::Open { generation: 0 }) && pools_after_acquire(pools, limit, name)[name]
            == (BucketView { idle: Seq::empty(), total: 1, max: limit, generation: 0 }),
        !pools.contains_key(name) ==> pools_after_inject(pools, limit, name, id)[name]
            == (BucketView { idle: seq![id], total: 1, max: limit, generation: 0 }),
        pools.contains_key(name) ==> {
            let conn = PooledConn { id, generation: pools[name].generation };
            &&& acquire_step(pools_after_inject(pools, limit, name, id)[name]) == Acquire::Idle(
                conn,
            )
            &&& pools[name].idle.len() <= pools[name].max ==> acquire_step(
                pools_after_release(pools, name, conn, true)[name],
            ) == Acquire::Idle(conn)
            &&& pools_after_release(pools, name, conn, false)[name].idle == pools[name].idle
            &&& pools_after_discard(pools, name)[name].idle == pools[name].idle
        },
{
    assert(Seq::<u64>::empty().push(id) =~= seq![id]);
}

/// Draining an address takes every idle connection from each bucket at that
/// address, under whatever database and user, and none from a bucket whose name
/// does not hold the address.
pub proof fn lemma_drain_empties_backend(
    before: Map<Seq<char>, BucketView>,
    addr: Seq<char>,
    after: Map<Seq<char>, BucketView>,
    database: Seq<char>,
    user: Seq<char>,
    node_id: Seq<char>,
    other: Seq<char>,
)
    requires
        are_drained(before, addr, after),
        forall|a: Seq<char>, b: Seq<char>| other != #[trigger] (a + addr + b),
    ensures
        ({
            let name = bucket_of(database, user, node_id, addr);
            &&& after.contains_key(name) == before.contains_key(name)
            &&& before.contains_key(name) ==> after[name].idle.len() == 0
                && after[name].generation == before[name].generation.wrapping_add(1)
            &&& after.contains_key(other) == before.contains_key(other)
            &&& before.contains_key(other) ==> after[other] == before[other]
        }),
{
    lemma_drain_reaches_backend(database, user, node_id, addr);
    crate::text::lemma_contains_parts(other, addr);
}

/// Evicting takes the named idle connections from every bucket and no others.
pub proof fn lemma_eviction_reaches_all_buckets(
    before: Map<Seq<char>, BucketView>,
    expired: Seq<u64>,
    after: Map<Seq<char>, BucketView>,
    name: Seq<char>,
    id: u64,
)
    requires
        are_evicted(before, expired, after),
        before.contains_key(name),
        before[name].idle.len() <= before[name].total,
        before[name].total < usize::MAX,
        before[name].generation < u64::MAX,
    ensures
        after.contains_key(name),
        after[name].idle.contains(id) <==> before[name].idle.contains(id) && !expired.contains(id),
        after[name].max == before[name].max,
        after[name].generation == before[name].generation,
{
    lemma_what_leaves_a_bucket(before[name], id, expired);
}

/// What an idle connection must be for draining an address to take it: one in a
/// bucket whose name holds the address.
pub proof fn lemma_what_a_drain_takes(
    pools: Map<Seq<char>, BucketView>,
    database: Seq<char>,
    user: Seq<char>,
    node_id: Seq<char>,
    addr: Seq<char>,
    id: u64,
)
    ensures
        ({
            let name = bucket_of(database, user, node_id, addr);
            pools.contains_key(name) && pools[name].idle.contains(id) ==> idle_at(pools, addr, id)
        }),
        (forall|k: Seq<char>| #[trigger]
            pools.contains_key(k) ==> !pools[k].idle.contains(id)) ==> !idle_at(pools, addr, id),
        (forall|k: Seq<char>, a: Seq<char>, b: Seq<char>| #[trigger]
            pools.contains_key(k) && k == #[trigger] (a + addr + b) ==> !pools[k].idle.contains(id))
            ==> !idle_at(pools, addr, id),
{
    lemma_drain_reaches_backend(database, user, node_id, addr);
    if idle_at(pools, addr, id) {
        let k = choose|k: Seq<char>| #[trigger]
            pools.contains_key(k) && contains_text(k, addr) && pools[k].idle.contains(id);
        crate::text::lemma_contains_parts(k, addr);
    }
}

/// Whether a session that waits for a connection has `left` milliseconds to wait.
pub open spec fn is_wait(now_ms: u64, deadline_ms: u64, left: Option<u64>) -> bool {
    match left {
        Some(n) => n > 0 && now_ms + n == deadline_ms,
        None => deadline_ms <= now_ms,
    }
}

/// A session waits until its deadline and not longer.
pub proof fn lemma_waiting_ends_at_deadline(now_ms: u64, deadline_ms: u64, left: Option<u64>)
    requires
        is_wait(now_ms, deadline_ms, left),
    ensures
        left is None <==> deadline_ms <= now_ms,
        left matches Some(n) ==> is_wait((now_ms + n) as u64, deadline_ms, None),
{
}

} // verus!
