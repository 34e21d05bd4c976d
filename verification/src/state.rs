//! Shared orchestrator state kept verifiable: the session registry and
//! the metrics cache. The engine wiring and the connection pools live
//! with the embedding program.

use vstd::prelude::*;

use crate::utils::generate_id;
use crate::utils::now_seconds;
use crate::utils::str_equal;

verus! {

/// Application state error.
#[derive(Debug, Clone, PartialEq, Eq)]
pub enum StateError {
    /// Initialization error
    Initialization(String),
    /// Redis connection error
    RedisConnection(String),
}

/// Session data.
#[derive(Debug, Clone)]
pub struct SessionData {
    /// Session ID
    pub id: String,
    /// Created at, seconds since the Unix epoch
    pub created_at: u64,
    /// Last activity, seconds since the Unix epoch
    pub last_activity: u64,
    /// Session metadata
    pub metadata: Vec<(String, String)>,
}

/// Metrics cache, gauge percentages in hundredths of a percent and
/// rates in basis points.
#[derive(Debug, Clone)]
pub struct MetricsCache {
    /// Recent payment success rate, basis points
    pub payment_success_rate: u32,
    /// Average latency in ms
    pub avg_latency_ms: u64,
    /// Active payments count
    pub active_payments: u64,
    /// System health score, hundredths of a point on the 0..=100 scale
    pub health_score: u32,
    /// Last updated, seconds since the Unix epoch
    pub last_updated: Option<u64>,
}

/// Registry of active sessions, swept manually by age.
pub struct SessionStore {
    sessions: Vec<SessionData>,
}

/// Content equality of two sessions at view level.
pub open spec fn session_eq(a: SessionData, b: SessionData) -> bool {
    &&& a.id@ == b.id@
    &&& a.created_at == b.created_at
    &&& a.last_activity == b.last_activity
    &&& a.metadata.len() == b.metadata.len()
}

impl SessionStore {
    /// The registered sessions, oldest first.
    pub closed spec fn spec_sessions(&self) -> Seq<SessionData> {
        self.sessions@
    }

    /// Create an empty registry.
    pub fn new() -> (r: Self)
        ensures
            r.spec_sessions() == Seq::<SessionData>::empty(),
    {
        SessionStore { sessions: Vec::new() }
    }

    /// Register a fresh session at a given reading of the clock and
    /// hand back its id.
    pub fn create_session_at(&mut self, now: u64) -> (r: String)
        ensures
            final(self).spec_sessions().len() == old(self).spec_sessions().len() + 1,
            final(self).spec_sessions().drop_last() == old(self).spec_sessions(),
            final(self).spec_sessions().last().id@ == r@,
            final(self).spec_sessions().last().created_at == now,
            final(self).spec_sessions().last().last_activity == now,
    {
        let id = generate_id();
        let stored_id = id.clone();
        self.sessions.push(
            SessionData { id: stored_id, created_at: now, last_activity: now, metadata: Vec::new() },
        );
        id
    }

    /// Register a fresh session against the wall clock.
    pub fn create_session(&mut self) -> (r: String)
        ensures
            final(self).spec_sessions().len() == old(self).spec_sessions().len() + 1,
            final(self).spec_sessions().drop_last() == old(self).spec_sessions(),
            final(self).spec_sessions().last().id@ == r@,
            final(self).spec_sessions().last().created_at == final(self).spec_sessions().last().last_activity,
    {
        let t = now_seconds();
        let now: u64 = if t < 0 {
            0
        } else {
            t as u64
        };
        self.create_session_at(now)
    }

    /// Look a session up by id.
    pub fn get_session(&self, session_id: &str) -> (r: Option<SessionData>)
        ensures
            match r {
                Some(s) => exists|i: int|
                    0 <= i < self.spec_sessions().len() && (#[trigger] self.spec_sessions()[i]).id@
                        == session_id@ && session_eq(s, self.spec_sessions()[i]),
                None => forall|i: int|
                    0 <= i < self.spec_sessions().len() ==> (#[trigger] self.spec_sessions()[i]).id@
                        != session_id@,
            },
    {
        let n = self.sessions.len();
        let mut i: usize = 0;
        while i < n
            invariant
                i <= n,
                n == self.spec_sessions().len(),
                forall|k: int|
                    0 <= k < i ==> (#[trigger] self.spec_sessions()[k]).id@ != session_id@,
            decreases n - i,
        {
            if str_equal(self.sessions[i].id.as_str(), session_id) {
                let s = &self.sessions[i];
                let copy = SessionData {
                    id: s.id.clone(),
                    created_at: s.created_at,
                    last_activity: s.last_activity,
                    metadata: copy_metadata(&s.metadata),
                };
                return Some(copy);
            }
            i = i + 1;
        }
        None
    }

    /// Mark a session active at a given reading of the clock.
    pub fn update_session_activity_at(&mut self, session_id: &str, now: u64)
        ensures
            final(self).spec_sessions().len() == old(self).spec_sessions().len(),
            forall|i: int|
                0 <= i < old(self).spec_sessions().len() && (#[trigger] old(self).spec_sessions()[i]).id@ != session_id@ ==> final(self).spec_sessions()[i] == old(self).spec_sessions()[i],
            forall|i: int|
                0 <= i < final(self).spec_sessions().len() ==> (#[trigger] final(self).spec_sessions()[i]).id@ == old(self).spec_sessions()[i].id@ && final(self).spec_sessions()[i].created_at == old(self).spec_sessions()[i].created_at && (
                final(self).spec_sessions()[i].last_activity == old(self).spec_sessions()[i].last_activity || final(self).spec_sessions()[i].last_activity
                    == now),
    {
        let n = self.sessions.len();
        let mut i: usize = 0;
        while i < n
            invariant
                i <= n,
                n == self.spec_sessions().len(),
                n == old(self).spec_sessions().len(),
                forall|k: int|
                    i <= k < n ==> #[trigger] self.spec_sessions()[k] == old(self).spec_sessions()[k],
                forall|k: int|
                    0 <= k < i ==> (#[trigger] self.spec_sessions()[k]).id@ == old(self).spec_sessions()[k].id@ && self.spec_sessions()[k].created_at == old(self).spec_sessions()[k].created_at && (self.spec_sessions()[k].last_activity
                        == old(self).spec_sessions()[k].last_activity
                        || self.spec_sessions()[k].last_activity == now),
                forall|k: int|
                    0 <= k < i && (#[trigger] old(self).spec_sessions()[k]).id@ != session_id@
                        ==> self.spec_sessions()[k] == old(self).spec_sessions()[k],
            decreases n - i,
        {
            if str_equal(self.sessions[i].id.as_str(), session_id) {
                let s = &self.sessions[i];
                let updated = SessionData {
                    id: s.id.clone(),
                    created_at: s.created_at,
                    last_activity: now,
                    metadata: copy_metadata(&s.metadata),
                };
                self.sessions.set(i, updated);
            }
            i = i + 1;
        }
    }

    /// Mark a session active against the wall clock.
    pub fn update_session_activity(&mut self, session_id: &str)
        ensures
            final(self).spec_sessions().len() == old(self).spec_sessions().len(),
            forall|i: int|
                0 <= i < old(self).spec_sessions().len() && (#[trigger] old(self).spec_sessions()[i]).id@ != session_id@ ==> final(self).spec_sessions()[i] == old(self).spec_sessions()[i],
    {
        let t = now_seconds();
        let now: u64 = if t < 0 {
            0
        } else {
            t as u64
        };
        self.update_session_activity_at(session_id, now);
    }

    /// Sweep out sessions idle at least the given age at a given
    /// reading of the clock; exactly the younger ones stay, in order.
    pub fn cleanup_sessions_at(&mut self, max_age_seconds: i64, now: u64)
        ensures
            final(self).spec_sessions() == old(self).spec_sessions().filter(
                session_fresh(now, max_age_seconds),
            ),
    {
        let ghost orig = self.sessions@;
        let ghost pred = session_fresh(now, max_age_seconds);
        proof {
            reveal(Seq::filter);
            assert(orig.take(0).filter(pred) =~= Seq::<SessionData>::empty());
            assert(orig.skip(0) =~= orig);
            assert(self.sessions@ =~= orig.take(0).filter(pred) + orig.skip(0));
        }
        let mut i: usize = 0;
        let ghost mut k: int = 0;
        while i < self.sessions.len()
            invariant
                pred == session_fresh(now, max_age_seconds),
                0 <= k <= orig.len(),
                i <= self.sessions@.len(),
                self.sessions@ =~= orig.take(k).filter(pred) + orig.skip(k),
                i == orig.take(k).filter(pred).len(),
            decreases orig.len() - k,
        {
            proof {
                reveal(Seq::filter);
                assert(k < orig.len());
                assert(self.sessions@[i as int] == orig[k]);
                assert(orig.take(k + 1).drop_last() =~= orig.take(k));
                assert(orig.take(k + 1).last() == orig[k]);
            }
            let s = &self.sessions[i];
            let age: i128 = now as i128 - s.last_activity as i128;
            if age < max_age_seconds as i128 {
                i = i + 1;
                proof {
                    assert(pred(orig[k]));
                    assert(orig.take(k + 1).filter(pred) =~= orig.take(k).filter(pred).push(
                        orig[k],
                    ));
                    assert(orig.skip(k) =~= seq![orig[k]] + orig.skip(k + 1));
                    assert(self.sessions@ =~= orig.take(k + 1).filter(pred) + orig.skip(k + 1));
                }
            } else {
                let ghost before = self.sessions@;
                self.sessions.remove(i);
                proof {
                    assert(!pred(orig[k]));
                    assert(orig.take(k + 1).filter(pred) =~= orig.take(k).filter(pred));
                    assert(self.sessions@ =~= before.remove(i as int));
                    assert(orig.skip(k) =~= seq![orig[k]] + orig.skip(k + 1));
                    assert(self.sessions@ =~= orig.take(k + 1).filter(pred) + orig.skip(k + 1));
                }
            }
            proof {
                k = k + 1;
            }
        }
        proof {
            reveal(Seq::filter);
            assert(k == orig.len());
            assert(orig.take(k) =~= orig);
            assert(orig.skip(k) =~= Seq::<SessionData>::empty());
            assert(self.sessions@ =~= orig.filter(pred));
        }
    }

    /// Sweep out stale sessions against the wall clock.
    pub fn cleanup_sessions(&mut self, max_age_seconds: i64)
        ensures
            exists|now: u64|
                final(self).spec_sessions() == old(self).spec_sessions().filter(
                    #[trigger] session_fresh(now, max_age_seconds),
                ),
    {
        let t = now_seconds();
        let now: u64 = if t < 0 {
            0
        } else {
            t as u64
        };
        self.cleanup_sessions_at(max_age_seconds, now);
    }

    /// Number of registered sessions.
    pub fn len(&self) -> (r: usize)
        ensures
            r == self.spec_sessions().len(),
    {
        self.sessions.len()
    }
}

/// The retention test of the session sweep: strictly younger than the
/// maximum age at the given reading.
pub open spec fn session_fresh(now: u64, max_age_seconds: i64) -> spec_fn(SessionData) -> bool {
    |s: SessionData| now - s.last_activity < max_age_seconds
}

fn copy_metadata(v: &Vec<(String, String)>) -> (r: Vec<(String, String)>)
    ensures
        r@.len() == v@.len(),
{
    let n = v.len();
    let mut out: Vec<(String, String)> = Vec::new();
    let mut i: usize = 0;
    while i < n
        invariant
            i <= n,
            n == v@.len(),
            out@.len() == i,
        decreases n - i,
    {
        let pair = &v[i];
        out.push((pair.0.clone(), pair.1.clone()));
        i = i + 1;
    }
    out
}

} // verus!
