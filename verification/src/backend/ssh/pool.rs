//! SSH connection pool: reuse of connections to the same host, with limits
//! per host and in total, and clean-up of idle and stale connections.
//!
//! Times are milliseconds on the caller's clock, passed in as `now`.
use vstd::prelude::*;
use crate::backend::ssh::session::{SshConfig, SshSession, SshSessionState};
use crate::error::ExpectError;
use crate::num::{decimal_text, u64_to_decimal};
use crate::text::{push_char, push_str, str_eq};

verus! {

/// Pool configuration (durations in milliseconds).
#[derive(Debug, Clone, Copy, PartialEq, Eq, Structural)]
pub struct PoolConfig {
    /// Maximum connections per host.
    pub max_per_host: usize,
    /// Maximum total connections.
    pub max_total: usize,
    /// Idle timeout before closing a connection.
    pub idle_timeout: u64,
    /// Whether to reuse connections.
    pub reuse_connections: bool,
    /// Whether to validate connections on checkout.
    pub validate_on_checkout: bool,
    /// Maximum connection age.
    pub max_connection_age: Option<u64>,
}

impl PoolConfig {
    /// The default configuration.
    pub open spec fn spec_default() -> PoolConfig {
        PoolConfig {
            max_per_host: 5,
            max_total: 20,
            idle_timeout: 300_000,
            reuse_connections: true,
            validate_on_checkout: true,
            max_connection_age: Some(3_600_000),
        }
    }

    /// Create with defaults: 5 per host, 20 total, 300 s idle timeout, reuse
    /// and validation on, 1 h maximum age.
    pub fn new() -> (r: Self)
        ensures
            r == Self::spec_default(),
    {
        PoolConfig {
            max_per_host: 5,
            max_total: 20,
            idle_timeout: 300_000,
            reuse_connections: true,
            validate_on_checkout: true,
            max_connection_age: Some(3_600_000),
        }
    }

    /// Set max connections per host.
    pub fn max_per_host(self, max: usize) -> (r: Self)
        ensures
            r == (PoolConfig { max_per_host: max, ..self }),
    {
        PoolConfig { max_per_host: max, ..self }
    }

    /// Set max total connections.
    pub fn max_total(self, max: usize) -> (r: Self)
        ensures
            r == (PoolConfig { max_total: max, ..self }),
    {
        PoolConfig { max_total: max, ..self }
    }

    /// Set idle timeout.
    pub fn idle_timeout(self, timeout: u64) -> (r: Self)
        ensures
            r == (PoolConfig { idle_timeout: timeout, ..self }),
    {
        PoolConfig { idle_timeout: timeout, ..self }
    }

    /// Set connection reuse.
    pub fn reuse_connections(self, reuse: bool) -> (r: Self)
        ensures
            r == (PoolConfig { reuse_connections: reuse, ..self }),
    {
        PoolConfig { reuse_connections: reuse, ..self }
    }

    /// Set validation on checkout.
    pub fn validate_on_checkout(self, validate: bool) -> (r: Self)
        ensures
            r == (PoolConfig { validate_on_checkout: validate, ..self }),
    {
        PoolConfig { validate_on_checkout: validate, ..self }
    }

    /// Set max connection age.
    pub fn max_connection_age(self, age: Option<u64>) -> (r: Self)
        ensures
            r == (PoolConfig { max_connection_age: age, ..self }),
    {
        PoolConfig { max_connection_age: age, ..self }
    }
}

impl Default for PoolConfig {
    fn default() -> (r: Self)
        ensures
            r == PoolConfig::spec_default(),
    {
        PoolConfig::new()
    }
}

/// Pool statistics.
#[derive(Debug, Clone, Copy, PartialEq, Eq, Structural)]
pub struct PoolStats {
    /// Total connections in the pool.
    pub total: usize,
    /// Connections currently in use.
    pub active: usize,
    /// Connections available for reuse.
    pub idle: usize,
    /// Connections that are still connected.
    pub connected: usize,
    /// Number of unique hosts.
    pub hosts: usize,
}

impl PoolStats {
    /// Check if the pool is empty.
    pub fn is_empty(&self) -> (r: bool)
        ensures
            r == (self.total == 0),
    {
        self.total == 0
    }
}


/// What the pool knows of one of its connections.
pub struct SlotView {
    /// The key of the host (see [`pool_key`]).
    pub key: Seq<char>,
    /// The connection's identifier.
    pub id: u64,
    /// Whether it is checked out.
    pub in_use: bool,
    /// When it was created.
    pub created: u64,
    /// When it was last handed back (its creation, before that).
    pub last_used: u64,
    /// Whether its session is connected.
    pub connected: bool,
}

/// The key under which the pool files connections: `user@host:port`.
pub open spec fn pool_key(c: SshConfig) -> Seq<char> {
    c.credentials.username@ + seq!['@'] + c.host@ + seq![':'] + decimal_text(c.port as nat)
}

/// The age of a connection created at `created`, at time `now`.
pub open spec fn age(created: u64, now: u64) -> int {
    if now >= created { now - created } else { 0 }
}

/// Whether a connection is older than the configured maximum age.
pub open spec fn too_old(cfg: PoolConfig, s: SlotView, now: u64) -> bool {
    match cfg.max_connection_age {
        Some(m) => age(s.created, now) > m,
        None => false,
    }
}

/// Whether a connection may be handed out again for `key`.
pub open spec fn reusable(cfg: PoolConfig, s: SlotView, key: Seq<char>, now: u64) -> bool {
    s.key == key && !s.in_use && !too_old(cfg, s, now)
}

/// The position of the first connection at or after `from` that may be handed
/// out again for `key` (the length when there is none).
pub open spec fn first_reusable(cfg: PoolConfig, s: Seq<SlotView>, key: Seq<char>, now: u64, from: int) -> int
    decreases s.len() - from,
{
    if from < 0 || from >= s.len() {
        s.len() as int
    } else if reusable(cfg, s[from], key, now) {
        from
    } else {
        first_reusable(cfg, s, key, now, from + 1)
    }
}

/// `first_reusable` finds a connection that may be handed out, and none before it.
pub proof fn lemma_first_reusable(cfg: PoolConfig, s: Seq<SlotView>, key: Seq<char>, now: u64, from: int)
    requires
        0 <= from <= s.len(),
    ensures
        from <= first_reusable(cfg, s, key, now, from) <= s.len(),
        first_reusable(cfg, s, key, now, from) < s.len() ==> reusable(cfg, s[first_reusable(cfg, s, key, now, from)], key, now),
        forall|i: int| from <= i < first_reusable(cfg, s, key, now, from) ==> !reusable(cfg, #[trigger] s[i], key, now),
    decreases s.len() - from,
{
    if from < s.len() && !reusable(cfg, s[from], key, now) {
        lemma_first_reusable(cfg, s, key, now, from + 1);
    }
}

/// Whether `after` is `before` with connection `id` handed back at `t`.
pub open spec fn handed_back(before: Seq<SlotView>, after: Seq<SlotView>, id: u64, t: u64) -> bool {
    forall|i: int| 0 <= i < before.len() && #[trigger] before[i].id == id
        ==> after == before.update(i, SlotView { in_use: false, last_used: t, ..before[i] })
}

/// Whether clean-up keeps a connection: one in use is always kept; an idle one
/// is kept while it is connected, not older than the maximum age, and not
/// idle (since it was last handed back) longer than the idle timeout.
pub open spec fn kept(cfg: PoolConfig, s: SlotView, now: u64) -> bool {
    s.in_use || (s.connected && !too_old(cfg, s, now) && !(age(s.last_used, now) > cfg.idle_timeout))
}

/// How many connections satisfy `p`.
pub open spec fn count(s: Seq<SlotView>, p: spec_fn(SlotView) -> bool) -> nat
    decreases s.len(),
{
    if s.len() == 0 {
        0
    } else {
        count(s.drop_last(), p) + if p(s.last()) { 1nat } else { 0nat }
    }
}

/// How many connections are filed under `key`.
pub open spec fn count_key(s: Seq<SlotView>, key: Seq<char>) -> nat {
    count(s, |v: SlotView| v.key == key)
}

/// How many distinct keys occur among the first `n` connections.
pub open spec fn distinct_keys(s: Seq<SlotView>, n: int) -> nat
    decreases n,
{
    if n <= 0 {
        0
    } else {
        distinct_keys(s, n - 1) + if (forall|j: int| 0 <= j < n - 1 ==> (#[trigger] s[j]).key != s[n - 1].key) { 1nat } else { 0nat }
    }
}

/// The message of the error for a full host.
pub open spec fn per_host_message(max: usize, key: Seq<char>) -> Seq<char> {
    "Maximum connections per host ("@ + decimal_text(max as nat) + ") exceeded for "@ + key
}

/// The message of the error for a full pool.
pub open spec fn total_message(max: usize) -> Seq<char> {
    "Maximum total connections ("@ + decimal_text(max as nat) + ") exceeded"@
}

/// `count` never exceeds the length.
pub proof fn lemma_count_le(s: Seq<SlotView>, p: spec_fn(SlotView) -> bool)
    ensures
        count(s, p) <= s.len(),
    decreases s.len(),
{
    if s.len() > 0 {
        lemma_count_le(s.drop_last(), p);
    }
}

/// `count` over a sequence with one more element.
pub proof fn lemma_count_push(s: Seq<SlotView>, p: spec_fn(SlotView) -> bool, v: SlotView)
    ensures
        count(s.push(v), p) == count(s, p) + if p(v) { 1nat } else { 0nat },
{
    assert(s.push(v).drop_last() =~= s);
}

/// Connections that are in use are counted among all connections, and the
/// others too.
pub proof fn lemma_count_split(s: Seq<SlotView>)
    ensures
        count(s, |v: SlotView| v.in_use) + count(s, |v: SlotView| !v.in_use) == s.len(),
    decreases s.len(),
{
    if s.len() > 0 {
        lemma_count_split(s.drop_last());
    }
}

/// At most `n` distinct keys among the first `n` connections.
proof fn lemma_distinct_keys_le(s: Seq<SlotView>, n: int)
    ensures
        n >= 0 ==> distinct_keys(s, n) <= n,
    decreases n,
{
    if n > 0 {
        lemma_distinct_keys_le(s, n - 1);
    }
}

/// The statistics of any set of connections are consistent: the in-use and
/// idle connections make up the total, and the connected ones and the hosts
/// are no more than the total.
pub proof fn law_stats_bounds(s: Seq<SlotView>)
    ensures
        count(s, |v: SlotView| v.in_use) + count(s, |v: SlotView| !v.in_use) == s.len(),
        count(s, |v: SlotView| v.connected) <= s.len(),
        distinct_keys(s, s.len() as int) <= s.len(),
{
    lemma_count_split(s);
    lemma_count_le(s, |v: SlotView| v.connected);
    lemma_distinct_keys_le(s, s.len() as int);
}

/// A connection held by the pool.
#[derive(Debug)]
struct PoolSlot {
    key: String,
    id: u64,
    session: SshSession,
    in_use: bool,
    created: u64,
    last_used: u64,
}

/// The view of one connection.
spec fn slot_view(s: PoolSlot) -> SlotView {
    SlotView {
        key: s.key@,
        id: s.id,
        in_use: s.in_use,
        created: s.created,
        last_used: s.last_used,
        connected: s.session.spec_state() == SshSessionState::Connected,
    }
}

/// A connection checked out of the pool. Hand it back with
/// [`ConnectionPool::release`].
#[derive(Debug)]
pub struct PooledConnection {
    id: u64,
}

impl PooledConnection {
    /// The identifier of the connection.
    pub closed spec fn spec_id(&self) -> u64 {
        self.id
    }

    /// The identifier of the connection.
    pub fn id(&self) -> (r: u64)
        ensures
            r == self.spec_id(),
    {
        self.id
    }
}

/// SSH connection pool.
#[derive(Debug)]
pub struct ConnectionPool {
    config: PoolConfig,
    slots: Vec<PoolSlot>,
    next_id: u64,
}

impl ConnectionPool {
    /// The pool's configuration.
    pub closed spec fn spec_config(&self) -> PoolConfig {
        self.config
    }

    /// The pool's connections, oldest first.
    pub closed spec fn spec_slots(&self) -> Seq<SlotView> {
        self.slots@.map_values(|s: PoolSlot| slot_view(s))
    }

    /// The identifier the next new connection gets.
    pub closed spec fn spec_next_id(&self) -> u64 {
        self.next_id
    }

    /// Identifiers are distinct and below the next one.
    pub open spec fn wf(&self) -> bool {
        &&& forall|i: int| 0 <= i < self.spec_slots().len() ==> #[trigger] self.spec_slots()[i].id < self.spec_next_id()
        &&& forall|i: int, j: int|
            0 <= i < j < self.spec_slots().len() ==> #[trigger] self.spec_slots()[i].id != #[trigger] self.spec_slots()[j].id
    }

    /// Create a pool with the given configuration.
    pub fn new(config: PoolConfig) -> (r: Self)
        ensures
            r.wf(),
            r.spec_config() == config,
            r.spec_slots().len() == 0,
            r.spec_next_id() == 0,
    {
        let r = ConnectionPool { config, slots: Vec::new(), next_id: 0 };
        assert(r.spec_slots() =~= Seq::<SlotView>::empty());
        r
    }

    /// Create a pool with the default configuration.
    pub fn with_defaults() -> (r: Self)
        ensures
            r.wf(),
            r.spec_config() == PoolConfig::spec_default(),
            r.spec_slots().len() == 0,
            r.spec_next_id() == 0,
    {
        Self::new(PoolConfig::new())
    }

    /// The pool's configuration.
    pub fn config(&self) -> (r: &PoolConfig)
        ensures
            *r == self.spec_config(),
    {
        &self.config
    }

    /// The key under which connections for `ssh_config` are filed.
    pub fn make_key(ssh_config: &SshConfig) -> (r: String)
        ensures
            r@ == pool_key(*ssh_config),
    {
        let mut s = ssh_config.credentials.username.clone();
        push_char(&mut s, '@');
        push_str(&mut s, ssh_config.host.as_str());
        push_char(&mut s, ':');
        let p = u64_to_decimal(ssh_config.port as u64);
        push_str(&mut s, p.as_str());
        s
    }

    /// Mark connection `j` as in use or not.
    fn set_in_use(&mut self, j: usize, flag: bool)
        requires
            j < old(self).spec_slots().len(),
            old(self).wf(),
        ensures
            final(self).wf(),
            final(self).spec_config() == old(self).spec_config(),
            final(self).spec_next_id() == old(self).spec_next_id(),
            final(self).spec_slots() == old(self).spec_slots().update(
                j as int,
                SlotView { in_use: flag, ..old(self).spec_slots()[j as int] },
            ),
    {
        let mut slot = self.slots.remove(j);
        slot.in_use = flag;
        self.slots.insert(j, slot);
        assert(self.spec_slots() =~= old(self).spec_slots().update(
            j as int,
            SlotView { in_use: flag, ..old(self).spec_slots()[j as int] },
        ));
    }

    /// Mark connection `j` handed back at `now`.
    fn set_released(&mut self, j: usize, now: u64)
        requires
            j < old(self).spec_slots().len(),
            old(self).wf(),
        ensures
            final(self).wf(),
            final(self).spec_config() == old(self).spec_config(),
            final(self).spec_next_id() == old(self).spec_next_id(),
            final(self).spec_slots() == old(self).spec_slots().update(
                j as int,
                SlotView { in_use: false, last_used: now, ..old(self).spec_slots()[j as int] },
            ),
    {
        let mut slot = self.slots.remove(j);
        slot.in_use = false;
        slot.last_used = now;
        self.slots.insert(j, slot);
        assert(self.spec_slots() =~= old(self).spec_slots().update(
            j as int,
            SlotView { in_use: false, last_used: now, ..old(self).spec_slots()[j as int] },
        ));
    }

    /// The position of connection `id`, if the pool holds it.
    fn position(&self, id: u64) -> (r: Option<usize>)
        ensures
            match r {
                Some(j) => j < self.spec_slots().len() && self.spec_slots()[j as int].id == id,
                None => forall|i: int| 0 <= i < self.spec_slots().len() ==> #[trigger] self.spec_slots()[i].id != id,
            },
    {
        let mut j: usize = 0;
        while j < self.slots.len()
            invariant
                j <= self.spec_slots().len(),
                forall|i: int| 0 <= i < j ==> #[trigger] self.spec_slots()[i].id != id,
            decreases self.slots.len() - j,
        {
            if self.slots[j].id == id {
                return Some(j);
            }
            j = j + 1;
        }
        None
    }

    /// Check out the first idle connection filed under `key` that is not too
    /// old; the others stay as they are.
    pub fn try_acquire_existing(&mut self, key: &str, now: u64) -> (r: Option<usize>)
        requires
            old(self).wf(),
        ensures
            final(self).wf(),
            final(self).spec_config() == old(self).spec_config(),
            final(self).spec_next_id() == old(self).spec_next_id(),
            match r {
                Some(j) => j == first_reusable(old(self).spec_config(), old(self).spec_slots(), key@, now, 0)
                    && j < old(self).spec_slots().len()
                    && final(self).spec_slots() == old(self).spec_slots().update(
                        j as int,
                        SlotView { in_use: true, ..old(self).spec_slots()[j as int] },
                    ),
                None => first_reusable(old(self).spec_config(), old(self).spec_slots(), key@, now, 0)
                    == old(self).spec_slots().len()
                    && final(self).spec_slots() == old(self).spec_slots(),
            },
    {
        let mut j: usize = 0;
        while j < self.slots.len()
            invariant
                j <= self.spec_slots().len(),
                self.spec_slots() == old(self).spec_slots(),
                self.spec_config() == old(self).spec_config(),
                self.spec_next_id() == old(self).spec_next_id(),
                self.wf(),
                first_reusable(self.spec_config(), self.spec_slots(), key@, now, j as int)
                    == first_reusable(self.spec_config(), self.spec_slots(), key@, now, 0),
            decreases self.slots.len() - j,
        {
            let same_key = str_eq(self.slots[j].key.as_str(), key);
            let created = self.slots[j].created;
            let age_now: u64 = if now >= created { now - created } else { 0 };
            let old_enough = match self.config.max_connection_age {
                Some(m) => age_now > m,
                None => false,
            };
            proof {
                assert(self.spec_slots()[j as int] == slot_view(self.slots@[j as int]));
            }
            if same_key && !self.slots[j].in_use && !old_enough {
                self.set_in_use(j, true);
                return Some(j);
            }
            j = j + 1;
        }
        None
    }

    /// The number of connections filed under `key`.
    fn count_for_key(&self, key: &str) -> (r: usize)
        ensures
            r == count_key(self.spec_slots(), key@),
    {
        let mut n: usize = 0;
        let mut j: usize = 0;
        while j < self.slots.len()
            invariant
                j <= self.spec_slots().len(),
                n == count_key(self.spec_slots().take(j as int), key@),
            decreases self.slots.len() - j,
        {
            proof {
                assert(self.spec_slots().take(j + 1) =~= self.spec_slots().take(j as int).push(self.spec_slots()[j as int]));
                lemma_count_push(self.spec_slots().take(j as int), |v: SlotView| v.key == key@, self.spec_slots()[j as int]);
                lemma_count_le(self.spec_slots().take(j as int), |v: SlotView| v.key == key@);
                assert(self.spec_slots()[j as int] == slot_view(self.slots@[j as int]));
            }
            if str_eq(self.slots[j].key.as_str(), key) {
                n = n + 1;
            }
            j = j + 1;
        }
        assert(self.spec_slots().take(j as int) =~= self.spec_slots());
        n
    }

    /// Add a new connected session for `ssh_config`, checked out.
    fn add_new(&mut self, key: String, ssh_config: &SshConfig, now: u64) -> (r: Result<PooledConnection, ExpectError>)
        requires
            old(self).wf(),
            old(self).spec_next_id() < u64::MAX,
        ensures
            final(self).wf(),
            final(self).spec_config() == old(self).spec_config(),
            r matches Ok(c) && c.spec_id() == old(self).spec_next_id(),
            final(self).spec_next_id() == old(self).spec_next_id() + 1,
            final(self).spec_slots() == old(self).spec_slots().push(
                SlotView { key: key@, id: old(self).spec_next_id(), in_use: true, created: now, last_used: now, connected: true },
            ),
    {
        let mut session = SshSession::new(ssh_config.clone());
        let connected = session.connect();
        let id = self.next_id;
        let slot = PoolSlot { key, id, session, in_use: true, created: now, last_used: now };
        self.slots.push(slot);
        self.next_id = self.next_id + 1;
        assert(self.spec_slots() =~= old(self).spec_slots().push(
            SlotView { key: slot_view(self.slots@.last()).key, id, in_use: true, created: now, last_used: now, connected: true },
        ));
        match connected {
            Ok(()) => Ok(PooledConnection { id }),
            Err(e) => Err(e),
        }
    }

    /// Reuse a connection for `key` if one can be reused: a connection found
    /// stale on validation is handed back and no other is tried.
    fn reuse(&mut self, key: &str, now: u64) -> (r: Option<PooledConnection>)
        requires
            old(self).wf(),
        ensures
            final(self).wf(),
            final(self).spec_config() == old(self).spec_config(),
            final(self).spec_next_id() == old(self).spec_next_id(),
            reuse_outcome(old(self).spec_config(), old(self).spec_slots(), key@, now, final(self).spec_slots(), r),
    {
        if !self.config.reuse_connections {
            return None;
        }
        let ghost cfg = self.config;
        let ghost before = self.spec_slots();
        match self.try_acquire_existing(key, now) {
            Some(j) => {
                proof {
                    assert(self.spec_slots().len() == self.slots@.len());
                    assert(self.spec_slots()[j as int] == slot_view(self.slots@[j as int]));
                    lemma_first_reusable(cfg, before, key@, now, 0);
                }
                let connected = self.slots[j].session.is_connected();
                if self.config.validate_on_checkout && !connected {
                    self.set_in_use(j, false);
                    assert(self.spec_slots() =~= old(self).spec_slots());
                    None
                } else {
                    Some(PooledConnection { id: self.slots[j].id })
                }
            },
            None => None,
        }
    }

    /// Get a connection for `ssh_config`: an idle one filed under its key if
    /// one can be reused (see [`reuse_outcome`]), else a new one, unless the
    /// pool holds its maximum total number of connections or the host its
    /// maximum number (see [`get_outcome`]).
    pub fn get(&mut self, ssh_config: &SshConfig, now: u64) -> (r: Result<PooledConnection, ExpectError>)
        requires
            old(self).wf(),
            old(self).spec_next_id() < u64::MAX,
        ensures
            final(self).wf(),
            final(self).spec_config() == old(self).spec_config(),
            get_outcome(*old(self), *final(self), pool_key(*ssh_config), now, r),
    {
        let key = Self::make_key(ssh_config);
        match self.reuse(key.as_str(), now) {
            Some(c) => {
                return Ok(c);
            },
            None => {},
        }
        if self.slots.len() >= self.config.max_total {
            return Err(ExpectError::config(Self::total_error(self.config.max_total)));
        }
        let n = self.count_for_key(key.as_str());
        if n > 0 && n >= self.config.max_per_host {
            return Err(ExpectError::config(Self::per_host_error(self.config.max_per_host, key.as_str())));
        }
        self.add_new(key, ssh_config, now)
    }

    /// As [`ConnectionPool::get`] (the original's asynchronous form).
    pub fn get_async(&mut self, ssh_config: &SshConfig, now: u64) -> (r: Result<PooledConnection, ExpectError>)
        requires
            old(self).wf(),
            old(self).spec_next_id() < u64::MAX,
        ensures
            final(self).wf(),
            final(self).spec_config() == old(self).spec_config(),
            get_outcome(*old(self), *final(self), pool_key(*ssh_config), now, r),
    {
        let key = Self::make_key(ssh_config);
        match self.reuse(key.as_str(), now) {
            Some(c) => {
                return Ok(c);
            },
            None => {},
        }
        if self.slots.len() >= self.config.max_total {
            return Err(ExpectError::config(Self::total_error(self.config.max_total)));
        }
        let n = self.count_for_key(key.as_str());
        if n > 0 && n >= self.config.max_per_host {
            return Err(ExpectError::config(Self::per_host_error(self.config.max_per_host, key.as_str())));
        }
        self.add_new(key, ssh_config, now)
    }

    /// The message for a full host.
    fn per_host_error(max: usize, key: &str) -> (r: String)
        ensures
            r@ == per_host_message(max, key@),
    {
        let mut s = "Maximum connections per host (".to_owned();
        let m = u64_to_decimal(max as u64);
        push_str(&mut s, m.as_str());
        push_str(&mut s, ") exceeded for ");
        push_str(&mut s, key);
        s
    }

    /// The message for a full pool.
    fn total_error(max: usize) -> (r: String)
        ensures
            r@ == total_message(max),
    {
        let mut s = "Maximum total connections (".to_owned();
        let m = u64_to_decimal(max as u64);
        push_str(&mut s, m.as_str());
        push_str(&mut s, ") exceeded");
        s
    }

    /// Hand a connection back at `now`: it becomes idle, idle since `now`.
    pub fn release_at(&mut self, conn: PooledConnection, now: u64)
        requires
            old(self).wf(),
        ensures
            final(self).wf(),
            final(self).spec_config() == old(self).spec_config(),
            final(self).spec_next_id() == old(self).spec_next_id(),
            forall|i: int| 0 <= i < old(self).spec_slots().len() && #[trigger] old(self).spec_slots()[i].id == conn.spec_id()
                ==> final(self).spec_slots() == old(self).spec_slots().update(
                i,
                SlotView { in_use: false, last_used: now, ..old(self).spec_slots()[i] },
            ),
            (forall|i: int| 0 <= i < old(self).spec_slots().len() ==> #[trigger] old(self).spec_slots()[i].id != conn.spec_id())
                ==> final(self).spec_slots() == old(self).spec_slots(),
    {
        match self.position(conn.id) {
            Some(j) => {
                self.set_released(j, now);
            },
            None => {},
        }
    }

    /// Hand a connection back now (reads the clock): it becomes idle.
    pub fn release(&mut self, conn: PooledConnection)
        requires
            old(self).wf(),
        ensures
            final(self).wf(),
            final(self).spec_config() == old(self).spec_config(),
            final(self).spec_next_id() == old(self).spec_next_id(),
            exists|t: u64| #[trigger] handed_back(old(self).spec_slots(), final(self).spec_slots(), conn.spec_id(), t),
            (forall|i: int| 0 <= i < old(self).spec_slots().len() ==> #[trigger] old(self).spec_slots()[i].id != conn.spec_id())
                ==> final(self).spec_slots() == old(self).spec_slots(),
    {
        let now = crate::clock::now_millis();
        let ghost id = conn.spec_id();
        self.release_at(conn, now);
        assert(handed_back(old(self).spec_slots(), self.spec_slots(), id, now));
    }

    /// Whether the session of a connection is connected.
    pub fn is_connected(&self, conn: &PooledConnection) -> (r: bool)
        requires
            self.wf(),
        ensures
            r == exists|i: int| 0 <= i < self.spec_slots().len() && #[trigger] self.spec_slots()[i].id == conn.spec_id()
                && self.spec_slots()[i].connected,
    {
        match self.position(conn.id) {
            Some(j) => {
                proof {
                    assert(self.spec_slots()[j as int] == slot_view(self.slots@[j as int]));
                }
                let r = self.slots[j].session.is_connected();
                proof {
                    if !r {
                        assert forall|i: int| 0 <= i < self.spec_slots().len() && #[trigger] self.spec_slots()[i].id == conn.spec_id()
                            implies !self.spec_slots()[i].connected by {
                            if i != j {
                                assert(self.wf());
                            }
                        }
                    }
                }
                r
            },
            None => false,
        }
    }

    /// Remove the connections that clean-up does not keep (see [`kept`]).
    pub fn cleanup(&mut self, now: u64)
        requires
            old(self).wf(),
        ensures
            final(self).wf(),
            final(self).spec_config() == old(self).spec_config(),
            final(self).spec_next_id() == old(self).spec_next_id(),
            final(self).spec_slots() == old(self).spec_slots().filter(|v: SlotView| kept(old(self).spec_config(), v, now)),
    {
        let ghost orig = self.spec_slots();
        let ghost cfg = self.config;
        let ghost p = |v: SlotView| kept(cfg, v, now);
        let mut rest: Vec<PoolSlot> = Vec::new();
        std::mem::swap(&mut rest, &mut self.slots);
        let ghost orig_raw = rest@;
        assert(orig =~= orig_raw.map_values(|s: PoolSlot| slot_view(s)));
        let mut k: usize = 0;
        let n = rest.len();
        while rest.len() > 0
            invariant
                k + rest@.len() == n,
                n == orig.len(),
                orig == orig_raw.map_values(|s: PoolSlot| slot_view(s)),
                rest@ == orig_raw.subrange(k as int, n as int),
                self.spec_slots() == orig.take(k as int).filter(p),
                self.config == cfg,
                self.next_id == old(self).spec_next_id(),
                p == (|v: SlotView| kept(cfg, v, now)),
            decreases rest.len(),
        {
            let slot = rest.remove(0);
            proof {
                assert(slot == orig_raw[k as int]);
                assert(orig.take(k + 1) =~= orig.take(k as int).push(orig[k as int]));
                orig.take(k as int).lemma_filter_push(orig[k as int], p);
                assert(rest@ =~= orig_raw.subrange(k + 1, n as int));
            }
            let age_now: u64 = if now >= slot.created { now - slot.created } else { 0 };
            let too_old_now = match self.config.max_connection_age {
                Some(m) => age_now > m,
                None => false,
            };
            let idle_now: u64 = if now >= slot.last_used { now - slot.last_used } else { 0 };
            let keep = slot.in_use || (slot.session.is_connected() && !too_old_now && !(idle_now > self.config.idle_timeout));
            if keep {
                self.slots.push(slot);
                assert(self.spec_slots() =~= orig.take(k as int).filter(p).push(orig[k as int]));
            }
            k = k + 1;
        }
        proof {
            assert(orig.take(k as int) =~= orig);
            let f = orig.filter(p);
            assert forall|i: int| 0 <= i < f.len() implies #[trigger] f[i].id < self.next_id by {
                orig.lemma_filter_contains_rev(p, f[i]);
            }
            lemma_filter_keeps_distinct(orig, p);
        }
    }

    /// Statistics: the total, in use, idle and connected connections, and the
    /// number of hosts.
    pub fn stats(&self) -> (r: PoolStats)
        ensures
            r.total == self.spec_slots().len(),
            r.active == count(self.spec_slots(), |v: SlotView| v.in_use),
            r.idle == count(self.spec_slots(), |v: SlotView| !v.in_use),
            r.connected == count(self.spec_slots(), |v: SlotView| v.connected),
            r.hosts == distinct_keys(self.spec_slots(), self.spec_slots().len() as int),
            r.active + r.idle == r.total,
            r.connected <= r.total,
            r.hosts <= r.total,
    {
        let ghost s = self.spec_slots();
        let ghost pa = |v: SlotView| v.in_use;
        let ghost pi = |v: SlotView| !v.in_use;
        let ghost pc = |v: SlotView| v.connected;
        let mut active: usize = 0;
        let mut idle: usize = 0;
        let mut connected: usize = 0;
        let mut hosts: usize = 0;
        let mut j: usize = 0;
        while j < self.slots.len()
            invariant
                s == self.spec_slots(),
                j <= s.len(),
                active == count(s.take(j as int), pa),
                idle == count(s.take(j as int), pi),
                connected == count(s.take(j as int), pc),
                hosts == distinct_keys(s, j as int),
                hosts <= j,
                pa == (|v: SlotView| v.in_use),
                pi == (|v: SlotView| !v.in_use),
                pc == (|v: SlotView| v.connected),
            decreases self.slots.len() - j,
        {
            proof {
                let t = s.take(j as int);
                assert(s.take(j + 1) =~= t.push(s[j as int]));
                lemma_count_push(t, pa, s[j as int]);
                lemma_count_push(t, pi, s[j as int]);
                lemma_count_push(t, pc, s[j as int]);
                lemma_count_le(t, pa);
                lemma_count_le(t, pi);
                lemma_count_le(t, pc);
                assert(s[j as int] == slot_view(self.slots@[j as int]));
            }
            if self.slots[j].in_use {
                active = active + 1;
            } else {
                idle = idle + 1;
            }
            if self.slots[j].session.is_connected() {
                connected = connected + 1;
            }
            let mut first = true;
            let mut i: usize = 0;
            while i < j
                invariant
                    i <= j < s.len(),
                    s == self.spec_slots(),
                    first == (forall|m: int| 0 <= m < i ==> s[m].key != s[j as int].key),
                decreases j - i,
            {
                proof {
                    assert(s[i as int] == slot_view(self.slots@[i as int]));
                    assert(s[j as int] == slot_view(self.slots@[j as int]));
                }
                if str_eq(self.slots[i].key.as_str(), self.slots[j].key.as_str()) {
                    first = false;
                }
                i = i + 1;
            }
            if first {
                hosts = hosts + 1;
            }
            j = j + 1;
        }
        proof {
            assert(s.take(j as int) =~= s);
            law_stats_bounds(s);
        }
        PoolStats { total: self.slots.len(), active, idle, connected, hosts }
    }

    /// Disconnect every session and empty the pool.
    pub fn close_all(&mut self)
        requires
            old(self).wf(),
        ensures
            final(self).wf(),
            final(self).spec_config() == old(self).spec_config(),
            final(self).spec_next_id() == old(self).spec_next_id(),
            final(self).spec_slots().len() == 0,
    {
        let mut rest: Vec<PoolSlot> = Vec::new();
        std::mem::swap(&mut rest, &mut self.slots);
        while rest.len() > 0
            invariant
                self.slots@.len() == 0,
            decreases rest.len(),
        {
            let mut slot = rest.remove(0);
            slot.session.disconnect();
        }
        assert(self.spec_slots() =~= Seq::<SlotView>::empty());
    }
}

impl Default for ConnectionPool {
    fn default() -> (r: Self)
        ensures
            r.wf(),
            r.spec_config() == PoolConfig::spec_default(),
            r.spec_slots().len() == 0,
            r.spec_next_id() == 0,
    {
        Self::with_defaults()
    }
}

/// Filtering keeps identifiers distinct.
proof fn lemma_filter_keeps_distinct(s: Seq<SlotView>, p: spec_fn(SlotView) -> bool)
    requires
        forall|i: int, j: int| 0 <= i < j < s.len() ==> #[trigger] s[i].id != #[trigger] s[j].id,
    ensures
        forall|i: int, j: int|
            0 <= i < j < s.filter(p).len() ==> #[trigger] s.filter(p)[i].id != #[trigger] s.filter(p)[j].id,
    decreases s.len(),
{
    reveal(Seq::filter);
    if s.len() > 0 {
        let d = s.drop_last();
        lemma_filter_keeps_distinct(d, p);
        if p(s.last()) {
            assert forall|i: int| 0 <= i < d.filter(p).len() implies #[trigger] d.filter(p)[i].id != s.last().id by {
                d.lemma_filter_contains_rev(p, d.filter(p)[i]);
                let m = choose|m: int| 0 <= m < d.len() && d[m] == d.filter(p)[i];
                assert(s[m] == d[m]);
            }
        }
    }
}

/// What reusing a connection for `key` does: when one can be reused, the
/// first such is checked out (`Some`), unless validation finds it
/// disconnected, in which case it is left idle and nothing is reused.
pub open spec fn reuse_outcome(
    cfg: PoolConfig,
    before: Seq<SlotView>,
    key: Seq<char>,
    now: u64,
    after: Seq<SlotView>,
    r: Option<PooledConnection>,
) -> bool {
    if !cfg.reuse_connections {
        r is None && after == before
    } else if first_reusable(cfg, before, key, now, 0) < before.len() {
        let j = first_reusable(cfg, before, key, now, 0);
        if cfg.validate_on_checkout && !before[j].connected {
            r is None && after == before
        } else {
            r matches Some(c) && c.spec_id() == before[j].id
                && after == before.update(j, SlotView { in_use: true, ..before[j] })
        }
    } else {
        r is None && after == before
    }
}

/// What `get` and `get_async` do: reuse when possible; else refuse with a
/// configuration error when the pool holds its maximum total number of
/// connections, or when the host has its maximum number of connections; else
/// add a new connected connection, checked out.
pub open spec fn get_outcome(
    before: ConnectionPool,
    after: ConnectionPool,
    key: Seq<char>,
    now: u64,
    r: Result<PooledConnection, ExpectError>,
) -> bool {
    let cfg = before.spec_config();
    let s = before.spec_slots();
    exists|mid: Seq<SlotView>, reused: Option<PooledConnection>| {
        &&& #[trigger] reuse_outcome(cfg, s, key, now, mid, reused)
        &&& match reused {
            Some(c) => r == Ok::<PooledConnection, ExpectError>(c) && after.spec_slots() == mid
                && after.spec_next_id() == before.spec_next_id(),
            None => {
                &&& mid == s
                &&& if s.len() >= cfg.max_total {
                    r matches Err(ExpectError::Config { message }) && message@ == total_message(cfg.max_total)
                        && after.spec_slots() == s && after.spec_next_id() == before.spec_next_id()
                } else if count_key(s, key) > 0 && count_key(s, key) >= cfg.max_per_host {
                    r matches Err(ExpectError::Config { message }) && message@ == per_host_message(cfg.max_per_host, key)
                        && after.spec_slots() == s && after.spec_next_id() == before.spec_next_id()
                } else {
                    r matches Ok(c) && c.spec_id() == before.spec_next_id()
                        && after.spec_next_id() == before.spec_next_id() + 1
                        && after.spec_slots() == s.push(
                            SlotView { key, id: before.spec_next_id(), in_use: true, created: now, last_used: now, connected: true },
                        )
                }
            },
        }
    }
}

/// Replacing a connection by one filed under the same key keeps the count
/// for every key.
pub proof fn lemma_count_key_update(s: Seq<SlotView>, j: int, v: SlotView, key: Seq<char>)
    requires
        0 <= j < s.len(),
        v.key == s[j].key,
    ensures
        count_key(s.update(j, v), key) == count_key(s, key),
    decreases s.len(),
{
    let u = s.update(j, v);
    if j == s.len() - 1 {
        assert(u.drop_last() =~= s.drop_last());
    } else {
        lemma_count_key_update(s.drop_last(), j, v, key);
        assert(u.drop_last() =~= s.drop_last().update(j, v));
    }
}

/// Clean-up never removes a connection that is checked out.
pub proof fn law_cleanup_keeps_checked_out(cfg: PoolConfig, s: Seq<SlotView>, now: u64, i: int)
    requires
        0 <= i < s.len(),
        s[i].in_use,
    ensures
        s.filter(|v: SlotView| kept(cfg, v, now)).contains(s[i]),
{
    s.lemma_filter_contains(|v: SlotView| kept(cfg, v, now), i);
}

/// Getting a connection never takes a host past the per-host maximum (when
/// that maximum is at least one and the host was within it).
pub proof fn law_get_respects_per_host_limit(
    before: ConnectionPool,
    after: ConnectionPool,
    key: Seq<char>,
    now: u64,
    r: Result<PooledConnection, ExpectError>,
)
    requires
        get_outcome(before, after, key, now, r),
        before.spec_config().max_per_host >= 1,
        count_key(before.spec_slots(), key) <= before.spec_config().max_per_host,
    ensures
        count_key(after.spec_slots(), key) <= before.spec_config().max_per_host,
{
    let cfg = before.spec_config();
    let s = before.spec_slots();
    let (mid, reused) = choose|mid: Seq<SlotView>, reused: Option<PooledConnection>| {
        &&& #[trigger] reuse_outcome(cfg, s, key, now, mid, reused)
        &&& match reused {
            Some(c) => r == Ok::<PooledConnection, ExpectError>(c) && after.spec_slots() == mid
                && after.spec_next_id() == before.spec_next_id(),
            None => {
                &&& mid == s
                &&& if s.len() >= cfg.max_total {
                    r matches Err(ExpectError::Config { message }) && message@ == total_message(cfg.max_total)
                        && after.spec_slots() == s && after.spec_next_id() == before.spec_next_id()
                } else if count_key(s, key) > 0 && count_key(s, key) >= cfg.max_per_host {
                    r matches Err(ExpectError::Config { message }) && message@ == per_host_message(cfg.max_per_host, key)
                        && after.spec_slots() == s && after.spec_next_id() == before.spec_next_id()
                } else {
                    r matches Ok(c) && c.spec_id() == before.spec_next_id()
                        && after.spec_next_id() == before.spec_next_id() + 1
                        && after.spec_slots() == s.push(
                            SlotView { key, id: before.spec_next_id(), in_use: true, created: now, last_used: now, connected: true },
                        )
                }
            },
        }
    };
    lemma_first_reusable(cfg, s, key, now, 0);
    match reused {
        Some(c) => {
            let j = first_reusable(cfg, s, key, now, 0);
            if cfg.reuse_connections && 0 <= j < s.len() {
                lemma_count_key_update(s, j, SlotView { in_use: true, ..s[j] }, key);
            }
        },
        None => {
            if !(s.len() >= cfg.max_total) && !(count_key(s, key) > 0 && count_key(s, key) >= cfg.max_per_host) {
                lemma_count_push(s, |v: SlotView| v.key == key, SlotView { key, id: before.spec_next_id(), in_use: true, created: now, last_used: now, connected: true });
            }
        },
    }
}

/// Getting a connection never takes the pool past its maximum total number
/// of connections (when it was within it).
pub proof fn law_get_respects_total_limit(
    before: ConnectionPool,
    after: ConnectionPool,
    key: Seq<char>,
    now: u64,
    r: Result<PooledConnection, ExpectError>,
)
    requires
        get_outcome(before, after, key, now, r),
        before.spec_slots().len() <= before.spec_config().max_total,
    ensures
        after.spec_slots().len() <= before.spec_config().max_total,
{
    let cfg = before.spec_config();
    let s = before.spec_slots();
    let (mid, reused) = choose|mid: Seq<SlotView>, reused: Option<PooledConnection>| {
        &&& #[trigger] reuse_outcome(cfg, s, key, now, mid, reused)
        &&& match reused {
            Some(c) => r == Ok::<PooledConnection, ExpectError>(c) && after.spec_slots() == mid
                && after.spec_next_id() == before.spec_next_id(),
            None => {
                &&& mid == s
                &&& if s.len() >= cfg.max_total {
                    r matches Err(ExpectError::Config { message }) && message@ == total_message(cfg.max_total)
                        && after.spec_slots() == s && after.spec_next_id() == before.spec_next_id()
                } else if count_key(s, key) > 0 && count_key(s, key) >= cfg.max_per_host {
                    r matches Err(ExpectError::Config { message }) && message@ == per_host_message(cfg.max_per_host, key)
                        && after.spec_slots() == s && after.spec_next_id() == before.spec_next_id()
                } else {
                    r matches Ok(c) && c.spec_id() == before.spec_next_id()
                        && after.spec_next_id() == before.spec_next_id() + 1
                        && after.spec_slots() == s.push(
                            SlotView { key, id: before.spec_next_id(), in_use: true, created: now, last_used: now, connected: true },
                        )
                }
            },
        }
    };
    lemma_first_reusable(cfg, s, key, now, 0);
}

} // verus!
