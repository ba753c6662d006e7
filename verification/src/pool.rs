//! Per-configuration concurrency and rate gating.
//!
//! Each provider configuration owns a controller: a token bucket plus a
//! counted semaphore. Reconfiguring a controller installs a fresh semaphore
//! (a new epoch); permits issued earlier keep the old epoch, so releasing
//! them never touches the new count, and the new limit is observed by all
//! later acquisitions.

use vstd::prelude::*;
use vstd::string::*;
use crate::bucket::{BucketDecision, TokenBucket};

verus! {

/// How long an acquisition may wait for a concurrency slot, in milliseconds.
pub const SLOT_WAIT_DEADLINE_MS: u64 = 300000;

/// Poll slice while waiting for a rate token, in milliseconds.
pub const TOKEN_POLL_SLICE_MS: u64 = 100;

/// Poll interval while waiting for a concurrency slot, in milliseconds.
pub const SLOT_POLL_INTERVAL_MS: u64 = 10;

/// Proof of a held concurrency slot. Dropping it must be reported through
/// [`ConfigController::release`].
#[derive(Debug, Clone, PartialEq, Eq)]
pub struct Permit {
    /// The semaphore generation this permit counts against.
    pub epoch: u64,
}

/// The scheduler state for one provider configuration.
#[derive(Debug, Clone, PartialEq, Eq)]
pub struct ConfigController {
    pub config_id: String,
    pub concurrent_limit: u32,
    /// Bumped whenever the semaphore is replaced.
    pub epoch: u64,
    /// Permits outstanding against the current semaphore.
    pub in_flight: u32,
    pub bucket: TokenBucket,
}

/// The controller after a permit is returned: a permit of the current epoch
/// frees one slot; one from a replaced semaphore changes nothing.
pub open spec fn spec_release(c: ConfigController, p: Permit) -> ConfigController {
    if p.epoch == c.epoch && c.in_flight > 0 {
        ConfigController { in_flight: (c.in_flight - 1) as u32, ..c }
    } else {
        c
    }
}

/// The controller after a reconfiguration: fresh semaphore (next epoch,
/// empty count), new limit, fresh bucket.
pub open spec fn spec_update(c: ConfigController, limit: u32, rate: u32) -> ConfigController {
    ConfigController {
        config_id: c.config_id,
        concurrent_limit: limit,
        epoch: (c.epoch + 1) as u64,
        in_flight: 0,
        bucket: TokenBucket {
            rate_per_minute: rate,
            token_units: (rate * 60000) as u64,
            last_update_ms: 0,
        },
    }
}

impl ConfigController {
    /// The current semaphore never has more permits out than its limit.
    pub open spec fn wf(self) -> bool {
        &&& self.in_flight <= self.concurrent_limit
        &&& self.bucket.wf()
    }

    /// A fresh controller: empty semaphore, full bucket.
    pub fn new(config_id: String, concurrent_limit: u32, rate_per_minute: u32) -> (c:
        ConfigController)
        ensures
            c.wf(),
            c.config_id == config_id,
            c.concurrent_limit == concurrent_limit,
            c.in_flight == 0,
            c.epoch == 0,
            c.bucket.rate_per_minute == rate_per_minute,
    {
        ConfigController {
            config_id,
            concurrent_limit,
            epoch: 0,
            in_flight: 0,
            bucket: TokenBucket::new(rate_per_minute),
        }
    }

    /// Take a concurrency slot when one is free.
    ///
    /// Grants exactly when fewer than `concurrent_limit` permits are out, so
    /// the count of simultaneous permits for this configuration never
    /// exceeds the limit.
    pub fn try_acquire_slot(&mut self) -> (r: Option<Permit>)
        requires
            old(self).wf(),
        ensures
            final(self).wf(),
            final(self).in_flight <= final(self).concurrent_limit,
            r is Some <==> old(self).in_flight < old(self).concurrent_limit,
            r is Some ==> *final(self) == (ConfigController {
                in_flight: (old(self).in_flight + 1) as u32,
                ..*old(self)
            }) && r->0 == (Permit { epoch: old(self).epoch }),
            r is None ==> *final(self) == *old(self),
    {
        if self.in_flight < self.concurrent_limit {
            self.in_flight = self.in_flight + 1;
            Some(Permit { epoch: self.epoch })
        } else {
            None
        }
    }

    /// Return a permit.
    pub fn release(&mut self, permit: Permit)
        requires
            old(self).wf(),
        ensures
            final(self).wf(),
            *final(self) == spec_release(*old(self), permit),
    {
        if permit.epoch == self.epoch && self.in_flight > 0 {
            self.in_flight = self.in_flight - 1;
        }
    }

    /// Replace both gates: a new semaphore (fresh epoch, empty count) and a
    /// new bucket. Holders of earlier permits keep the old semaphore.
    pub fn update(&mut self, concurrent_limit: u32, rate_per_minute: u32)
        requires
            old(self).wf(),
            old(self).epoch < u64::MAX,
        ensures
            final(self).wf(),
            *final(self) == spec_update(*old(self), concurrent_limit, rate_per_minute),
    {
        self.epoch = self.epoch + 1;
        self.in_flight = 0;
        self.concurrent_limit = concurrent_limit;
        self.bucket = TokenBucket::new(rate_per_minute);
    }

    /// Probe the rate gate at `now_ms`; a grant consumes a token.
    pub fn probe_rate(&mut self, now_ms: u64) -> (d: BucketDecision)
        requires
            old(self).wf(),
            now_ms >= old(self).bucket.last_update_ms,
        ensures
            final(self).wf(),
            d == old(self).bucket.spec_decision(now_ms),
            final(self).bucket == old(self).bucket.spec_step(now_ms),
            *final(self) == (ConfigController { bucket: final(self).bucket, ..*old(self) }),
    {
        self.bucket.try_acquire(now_ms)
    }
}

/// Reconfiguration leaves permits of the prior semaphore without effect:
/// releasing a permit issued before an update returns the updated
/// controller unchanged, while every later acquisition is governed by the
/// new limit on a count that starts at zero.
pub proof fn lemma_update_isolates_prior_permits(
    c: ConfigController,
    p: Permit,
    limit: u32,
    rate: u32,
)
    requires
        c.epoch < u64::MAX,
        p.epoch <= c.epoch,
    ensures
        spec_release(spec_update(c, limit, rate), p) == spec_update(c, limit, rate),
        spec_update(c, limit, rate).concurrent_limit == limit,
        spec_update(c, limit, rate).in_flight == 0,
{
}

// ── Pool of controllers ─────────────────────────────────────────────────────

/// One cached HTTP-client record: the client itself lives with the caller;
/// the pool tracks the timeout it was built with.
#[derive(Debug, Clone, PartialEq, Eq)]
pub struct CachedClient {
    pub config_id: String,
    pub timeout_secs: u64,
}

/// First index whose controller carries `id`, if any.
pub open spec fn spec_find_controller(s: Seq<ConfigController>, id: Seq<char>) -> Option<int>
    decreases s.len(),
{
    if s.len() == 0 {
        None
    } else if s[0].config_id@ == id {
        Some(0)
    } else {
        match spec_find_controller(s.drop_first(), id) {
            Some(i) => Some(i + 1),
            None => None,
        }
    }
}

/// First index whose client record carries `id`, if any.
pub open spec fn spec_find_client(s: Seq<CachedClient>, id: Seq<char>) -> Option<int>
    decreases s.len(),
{
    if s.len() == 0 {
        None
    } else if s[0].config_id@ == id {
        Some(0)
    } else {
        match spec_find_client(s.drop_first(), id) {
            Some(i) => Some(i + 1),
            None => None,
        }
    }
}

/// A found controller index lies in range and carries the id looked for.
pub proof fn lemma_find_controller_in_range(s: Seq<ConfigController>, id: Seq<char>)
    ensures
        spec_find_controller(s, id) matches Some(i) ==> 0 <= i < s.len() && s[i].config_id@ == id,
    decreases s.len(),
{
    if s.len() > 0 && !(s[0].config_id@ == id) {
        lemma_find_controller_in_range(s.drop_first(), id);
    }
}

/// A found client index lies in range and carries the id looked for.
pub proof fn lemma_find_client_in_range(s: Seq<CachedClient>, id: Seq<char>)
    ensures
        spec_find_client(s, id) matches Some(i) ==> 0 <= i < s.len() && s[i].config_id@ == id,
    decreases s.len(),
{
    if s.len() > 0 && !(s[0].config_id@ == id) {
        lemma_find_client_in_range(s.drop_first(), id);
    }
}

/// The scheduler's controller table and the HTTP-client cache records.
#[derive(Debug, Clone, PartialEq, Eq)]
pub struct AiPoolManager {
    pub controllers: Vec<ConfigController>,
    pub clients: Vec<CachedClient>,
}

impl AiPoolManager {
    /// Every controller is well formed.
    pub open spec fn wf(self) -> bool {
        forall|i: int|
            0 <= i < self.controllers@.len() ==> (#[trigger] self.controllers@[i]).wf()
    }

    /// An empty pool.
    pub fn new() -> (p: AiPoolManager)
        ensures
            p.wf(),
            p.controllers@.len() == 0,
            p.clients@.len() == 0,
    {
        AiPoolManager { controllers: Vec::new(), clients: Vec::new() }
    }

    fn find_controller(&self, id: &str) -> (r: Option<usize>)
        ensures
            match r {
                Some(i) => spec_find_controller(self.controllers@, id@) == Some(i as int),
                None => spec_find_controller(self.controllers@, id@) is None,
            },
    {
        let n = self.controllers.len();
        proof {
            assert(self.controllers@.skip(0) =~= self.controllers@);
        }
        let mut i: usize = 0;
        while i < n
            invariant
                i <= n,
                n == self.controllers@.len(),
                (spec_find_controller(self.controllers@, id@) is None <==> spec_find_controller(
                    self.controllers@.skip(i as int),
                    id@,
                ) is None),
                spec_find_controller(self.controllers@.skip(i as int), id@) is Some
                    ==> spec_find_controller(self.controllers@, id@) == Some(
                    spec_find_controller(self.controllers@.skip(i as int), id@)->0 + i,
                ),
            decreases n - i,
        {
            proof {
                assert(self.controllers@.skip(i as int)[0] == self.controllers@[i as int]);
                assert(self.controllers@.skip(i as int).drop_first() =~= self.controllers@.skip(
                    i + 1,
                ));
            }
            if self.controllers[i].config_id.as_str().unicode_len()
                == id.unicode_len() && str_eq(self.controllers[i].config_id.as_str(), id) {
                return Some(i);
            }
            i += 1;
        }
        assert(self.controllers@.skip(n as int) =~= Seq::<ConfigController>::empty());
        None
    }

    /// Look up the controller for `id`, creating it with the given limits on
    /// first use. Returns its index; an existing controller is left as it is.
    pub fn ensure_controller(&mut self, id: &str, concurrent_limit: u32, rate_per_minute: u32)
        -> (idx: usize)
        requires
            old(self).wf(),
        ensures
            final(self).wf(),
            final(self).clients == old(self).clients,
            idx < final(self).controllers@.len(),
            final(self).controllers@[idx as int].config_id@ == id@,
            match spec_find_controller(old(self).controllers@, id@) {
                Some(i) => idx == i && final(self).controllers == old(self).controllers,
                None => {
                    &&& final(self).controllers@ == old(self).controllers@.push(
                        final(self).controllers@[idx as int],
                    )
                    &&& idx == old(self).controllers@.len()
                    &&& final(self).controllers@[idx as int].concurrent_limit == concurrent_limit
                    &&& final(self).controllers@[idx as int].bucket.rate_per_minute
                        == rate_per_minute
                    &&& final(self).controllers@[idx as int].in_flight == 0
                },
            },
    {
        match self.find_controller(id) {
            Some(i) => {
                proof {
                    lemma_find_controller_in_range(self.controllers@, id@);
                }
                i
            },
            None => {
                let c = ConfigController::new(
                    String::from_str(id),
                    concurrent_limit,
                    rate_per_minute,
                );
                let idx = self.controllers.len();
                self.controllers.push(c);
                idx
            },
        }
    }

    /// Reconfigure the controller for `id`, when it exists: install a new
    /// semaphore and bucket per [`ConfigController::update`]. Unknown ids
    /// change nothing.
    pub fn update_controller(&mut self, id: &str, concurrent_limit: u32, rate_per_minute: u32)
        requires
            old(self).wf(),
            forall|i: int|
                0 <= i < old(self).controllers@.len() ==> (#[trigger] old(
                    self,
                ).controllers@[i]).epoch < u64::MAX,
        ensures
            final(self).wf(),
            final(self).clients == old(self).clients,
            match spec_find_controller(old(self).controllers@, id@) {
                Some(i) => final(self).controllers@ == old(self).controllers@.update(
                    i,
                    spec_update(old(self).controllers@[i], concurrent_limit, rate_per_minute),
                ),
                None => final(self).controllers == old(self).controllers,
            },
    {
        match self.find_controller(id) {
            Some(i) => {
                proof {
                    lemma_find_controller_in_range(self.controllers@, id@);
                }
                let mut c = self.controllers.remove(i);
                c.update(concurrent_limit, rate_per_minute);
                self.controllers.insert(i, c);
                proof {
                    assert(final(self).controllers@ =~= old(self).controllers@.update(
                        i as int,
                        spec_update(
                            old(self).controllers@[i as int],
                            concurrent_limit,
                            rate_per_minute,
                        ),
                    ));
                }
            },
            None => {},
        }
    }

    /// Drop the controller and client record for a deleted configuration.
    pub fn remove(&mut self, id: &str)
        requires
            old(self).wf(),
        ensures
            final(self).wf(),
            match spec_find_controller(old(self).controllers@, id@) {
                Some(i) => final(self).controllers@ == old(self).controllers@.remove(i),
                None => final(self).controllers == old(self).controllers,
            },
            match spec_find_client(old(self).clients@, id@) {
                Some(i) => final(self).clients@ == old(self).clients@.remove(i),
                None => final(self).clients == old(self).clients,
            },
    {
        match self.find_controller(id) {
            Some(i) => {
                proof {
                    lemma_find_controller_in_range(self.controllers@, id@);
                }
                self.controllers.remove(i);
            },
            None => {},
        }
        match self.find_client(id) {
            Some(i) => {
                proof {
                    lemma_find_client_in_range(self.clients@, id@);
                }
                self.clients.remove(i);
            },
            None => {},
        }
    }

    fn find_client(&self, id: &str) -> (r: Option<usize>)
        ensures
            match r {
                Some(i) => spec_find_client(self.clients@, id@) == Some(i as int),
                None => spec_find_client(self.clients@, id@) is None,
            },
    {
        let n = self.clients.len();
        proof {
            assert(self.clients@.skip(0) =~= self.clients@);
        }
        let mut i: usize = 0;
        while i < n
            invariant
                i <= n,
                n == self.clients@.len(),
                (spec_find_client(self.clients@, id@) is None <==> spec_find_client(
                    self.clients@.skip(i as int),
                    id@,
                ) is None),
                spec_find_client(self.clients@.skip(i as int), id@) is Some ==> spec_find_client(
                    self.clients@,
                    id@,
                ) == Some(spec_find_client(self.clients@.skip(i as int), id@)->0 + i),
            decreases n - i,
        {
            proof {
                assert(self.clients@.skip(i as int)[0] == self.clients@[i as int]);
                assert(self.clients@.skip(i as int).drop_first() =~= self.clients@.skip(i + 1));
            }
            if self.clients[i].config_id.as_str().unicode_len() == id.unicode_len() && str_eq(
                self.clients[i].config_id.as_str(),
                id,
            ) {
                return Some(i);
            }
            i += 1;
        }
        assert(self.clients@.skip(n as int) =~= Seq::<CachedClient>::empty());
        None
    }

    /// Decide whether the cached HTTP client for `id` can be reused: it can
    /// exactly when one is recorded with the same timeout. Otherwise the
    /// record is created or refreshed and the caller must rebuild the client.
    pub fn client_reusable(&mut self, id: &str, timeout_secs: u64) -> (reuse: bool)
        requires
            old(self).wf(),
        ensures
            final(self).wf(),
            final(self).controllers == old(self).controllers,
            reuse <==> match spec_find_client(old(self).clients@, id@) {
                Some(i) => old(self).clients@[i].timeout_secs == timeout_secs,
                None => false,
            },
            reuse ==> final(self).clients == old(self).clients,
            !reuse ==> match spec_find_client(old(self).clients@, id@) {
                Some(i) => final(self).clients@ == old(self).clients@.update(
                    i,
                    (CachedClient { config_id: old(self).clients@[i].config_id, timeout_secs }),
                ),
                None => ({
                    &&& final(self).clients@.len() == old(self).clients@.len() + 1
                    &&& final(self).clients@.take(old(self).clients@.len() as int) == old(
                        self,
                    ).clients@
                    &&& final(self).clients@.last().config_id@ == id@
                    &&& final(self).clients@.last().timeout_secs == timeout_secs
                }),
            },
    {
        match self.find_client(id) {
            Some(i) => {
                proof {
                    lemma_find_client_in_range(self.clients@, id@);
                }
                if self.clients[i].timeout_secs == timeout_secs {
                    true
                } else {
                    let cid = self.clients[i].config_id.clone();
                    self.clients.set(i, CachedClient { config_id: cid, timeout_secs });
                    false
                }
            },
            None => {
                self.clients.push(
                    CachedClient { config_id: String::from_str(id), timeout_secs },
                );
                false
            },
        }
    }

    /// Drop the client record for `id`, forcing a rebuild on next use.
    pub fn update_timeout(&mut self, id: &str)
        requires
            old(self).wf(),
        ensures
            final(self).wf(),
            final(self).controllers == old(self).controllers,
            match spec_find_client(old(self).clients@, id@) {
                Some(i) => final(self).clients@ == old(self).clients@.remove(i),
                None => final(self).clients == old(self).clients,
            },
    {
        match self.find_client(id) {
            Some(i) => {
                proof {
                    lemma_find_client_in_range(self.clients@, id@);
                }
                self.clients.remove(i);
            },
            None => {},
        }
    }
}

/// Character-for-character equality of two string slices.
pub fn str_eq(a: &str, b: &str) -> (r: bool)
    requires
        a@.len() == b@.len(),
    ensures
        r == (a@ == b@),
{
    let n = a.unicode_len();
    let mut i: usize = 0;
    while i < n
        invariant
            i <= n,
            n == a@.len() == b@.len(),
            a@.take(i as int) == b@.take(i as int),
        decreases n - i,
    {
        if a.get_char(i) != b.get_char(i) {
            assert(a@[i as int] != b@[i as int]);
            return false;
        }
        assert(a@.take(i + 1) =~= a@.take(i as int).push(a@[i as int]));
        assert(b@.take(i + 1) =~= b@.take(i as int).push(b@[i as int]));
        i += 1;
    }
    assert(a@.take(n as int) =~= a@);
    assert(b@.take(n as int) =~= b@);
    true
}

} // verus!
