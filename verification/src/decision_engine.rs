//! Decision engine: scores a fixed catalog of payment connectors from
//! historical performance, caches one routing decision per payment in
//! a bounded least-recently-used cache, and takes post-hoc performance
//! feedback.

use lru::LruCache;
use std::num::NonZeroUsize;
use vstd::prelude::*;

use crate::analytics::rate_bp;
use crate::config::Settings;
use crate::types::ConnectorScore;
use crate::types::PaymentEvent;
use crate::types::RoutingDecision;
use crate::types::decision_eq;
use crate::utils::generate_id;
use crate::utils::lemma_sorted_pairs_valid;
use crate::utils::now_seconds;
use crate::utils::pairs_sorted;
use crate::utils::sort_pairs_desc;
use crate::utils::str_equal;
use crate::utils::u64_to_string;

verus! {

/// Decision engine error.
#[derive(Debug, Clone, PartialEq, Eq)]
pub enum DecisionEngineError {
    /// Model error
    Model(String),
    /// Insufficient data
    InsufficientData(String),
    /// Decision error
    Decision(String),
}

/// Per-connector performance counters.
#[derive(Debug, Clone)]
pub struct ConnectorPerformance {
    /// Connector name
    pub connector: String,
    /// Success count
    pub success_count: u64,
    /// Failure count
    pub failure_count: u64,
    /// Total latency sum in ms
    pub total_latency_ms: u64,
    /// Total transactions
    pub total_transactions: u64,
    /// Last updated, seconds since the Unix epoch
    pub last_updated: u64,
}

/// One buffered training observation.
#[derive(Debug, Clone)]
pub struct TrainingDataPoint {
    /// Feature values, in minor units or scaled integers
    pub features: Vec<i64>,
    /// Label: one for success, zero for failure
    pub label: i64,
    /// Timestamp, seconds since the Unix epoch
    pub timestamp: u64,
}

/// Model statistics.
#[derive(Debug, Clone)]
pub struct ModelStatistics {
    /// Model version
    pub model_version: String,
    /// Number of buffered training samples
    pub training_samples: usize,
    /// Number of tracked connectors
    pub tracked_connectors: usize,
    /// Last training time, seconds since the Unix epoch
    pub last_trained: Option<u64>,
    /// Average confidence score in basis points
    pub avg_confidence: u32,
}

// The decision cache is lru's bounded LRU map; Verus sees it through
// this declaration and the named views below.
#[verifier::external_type_specification]
#[verifier::external_body]
#[verifier::reject_recursive_types(K)]
#[verifier::reject_recursive_types(V)]
#[verifier::reject_recursive_types(S)]
pub struct ExLruCache<K, V, S>(LruCache<K, V, S>);

/// The concrete cache type the engine keeps decisions in.
pub type DecisionCache = LruCache<String, RoutingDecision>;

pub uninterp spec fn lru_contents(c: DecisionCache) -> Map<Seq<char>, RoutingDecision>;

/// The view of a cache holding nothing.
pub open spec fn empty_cache_view() -> Map<Seq<char>, RoutingDecision> {
    Map::empty()
}

pub uninterp spec fn lru_cap(c: DecisionCache) -> nat;

/// Relies on `lru::LruCache::new`: a fresh cache holds nothing and
/// keeps at most `cap` entries.
#[verifier::external_body]
fn cache_new(cap: usize) -> (r: DecisionCache)
    requires
        cap >= 1,
    ensures
        lru_contents(r) == empty_cache_view(),
        lru_contents(r).dom().finite(),
        lru_cap(r) == cap,
{
    LruCache::new(NonZeroUsize::new(cap).unwrap())
}

/// Relies on `lru::LruCache::get`: a hit hands back the stored value
/// and only refreshes its recency, so the contents stay as they were.
#[verifier::external_body]
fn cache_get<'a>(c: &'a mut DecisionCache, k: &str) -> (r: Option<&'a RoutingDecision>)
    ensures
        lru_contents(*final(c)) == lru_contents(*old(c)),
        lru_cap(*final(c)) == lru_cap(*old(c)),
        match r {
            Some(d) => lru_contents(*old(c)).contains_key(k@) && *d == lru_contents(*old(c))[k@],
            None => !lru_contents(*old(c)).contains_key(k@),
        },
{
    c.get(k)
}

/// Relies on `lru::LruCache::put`: an existing key is updated in
/// place; a new key is inserted, evicting the least recently used
/// entry only when the cache stands at capacity. Every retained entry
/// keeps its value.
#[verifier::external_body]
fn cache_put(c: &mut DecisionCache, k: String, v: RoutingDecision)
    ensures
        lru_cap(*final(c)) == lru_cap(*old(c)),
        lru_contents(*final(c)).dom().finite(),
        lru_contents(*final(c)).contains_key(k@),
        lru_contents(*final(c))[k@] == v,
        forall|k2: Seq<char>|
            #[trigger] lru_contents(*final(c)).contains_key(k2) && k2 != k@ ==> lru_contents(
                *old(c),
            ).contains_key(k2) && lru_contents(*final(c))[k2] == lru_contents(*old(c))[k2],
        lru_contents(*old(c)).contains_key(k@) ==> lru_contents(*final(c)).dom() == lru_contents(
            *old(c),
        ).dom(),
        !lru_contents(*old(c)).contains_key(k@) && lru_contents(*old(c)).dom().len() < lru_cap(
            *old(c),
        ) ==> lru_contents(*final(c)).dom() == lru_contents(*old(c)).dom().insert(k@),
        !lru_contents(*old(c)).contains_key(k@) && lru_contents(*old(c)).dom().len() == lru_cap(
            *old(c),
        ) ==> exists|e: Seq<char>|
            lru_contents(*old(c)).contains_key(e) && e != k@ && lru_contents(*final(c)).dom()
                == lru_contents(*old(c)).dom().remove(e).insert(k@),
        lru_contents(*old(c)).dom().finite() ==> lru_contents(*final(c)).dom().len() <= lru_cap(
            *old(c),
        ) || lru_contents(*final(c)).dom().len() <= lru_contents(*old(c)).dom().len(),
{
    c.put(k, v);
}

/// The fixed connector catalog, in scoring order.
pub open spec fn catalog() -> Seq<Seq<char>> {
    seq!["stripe"@, "adyen"@, "checkout"@, "braintree"@, "worldpay"@]
}

fn catalog_name(i: usize) -> (r: &'static str)
    requires
        i < 5,
    ensures
        r@ == catalog()[i as int],
{
    if i == 0 {
        "stripe"
    } else if i == 1 {
        "adyen"
    } else if i == 2 {
        "checkout"
    } else if i == 3 {
        "braintree"
    } else {
        "worldpay"
    }
}

/// The first recorded performance entry of a connector.
pub open spec fn find_perf(s: Seq<ConnectorPerformance>, name: Seq<char>) -> Option<
    ConnectorPerformance,
>
    decreases s.len(),
{
    if s.len() == 0 {
        None
    } else if s.first().connector@ == name {
        Some(s.first())
    } else {
        find_perf(s.drop_first(), name)
    }
}

/// The counters scoring uses for a connector: its recorded entry, or
/// the seeded prior of eighty successes over one hundred transactions
/// at five hundred milliseconds each.
pub open spec fn effective_counts(s: Seq<ConnectorPerformance>, name: Seq<char>) -> (int, int, int) {
    match find_perf(s, name) {
        Some(p) => (p.success_count as int, p.total_transactions as int, p.total_latency_ms as int),
        None => (80, 100, 50_000),
    }
}

/// Average latency of a counter triple.
pub open spec fn avg_latency_of(counts: (int, int, int)) -> int {
    if counts.1 > 0 {
        counts.2 / counts.1
    } else {
        0
    }
}

/// Base score in basis points: seven parts success rate, three parts
/// inverse latency normalized against one second.
pub open spec fn base_score_bp(counts: (int, int, int)) -> int {
    let rate = rate_bp(counts.0, counts.1);
    let avg = avg_latency_of(counts);
    let lat_penalty = if avg * 10 < 10_000 {
        avg * 10
    } else {
        10_000int
    };
    (rate * 7 + (10_000 - lat_penalty) * 3) / 10
}

/// Deterministic payment adjustments: ten percent up for large
/// amounts on one connector, five percent up for card payments on
/// two, capped at the full score.
pub open spec fn adjusted_score_bp(base: int, name: Seq<char>, e: PaymentEvent) -> int {
    let s1 = if (e.amount matches Some(a) && a > 50_000) && name == "stripe"@ {
        base * 11 / 10
    } else {
        base
    };
    let s2 = if (e.payment_method matches Some(m) && m@ == "card"@) && (name == "stripe"@ || name
        == "adyen"@) {
        s1 * 21 / 20
    } else {
        s1
    };
    if s2 > 10_000 {
        10_000int
    } else {
        s2
    }
}

/// The full score of one catalog connector for one payment.
pub open spec fn connector_score_bp(
    s: Seq<ConnectorPerformance>,
    name: Seq<char>,
    e: PaymentEvent,
) -> int {
    adjusted_score_bp(base_score_bp(effective_counts(s, name)), name, e)
}

/// The row scoring produces for one catalog connector.
pub open spec fn score_row_ok(
    row: ConnectorScore,
    perfs: Seq<ConnectorPerformance>,
    name: Seq<char>,
    e: PaymentEvent,
) -> bool {
    &&& row.connector@ == name
    &&& row.score == connector_score_bp(perfs, name, e)
    &&& row.expected_success_rate == rate_bp(
        effective_counts(perfs, name).0,
        effective_counts(perfs, name).1,
    )
    &&& row.expected_latency_ms == avg_latency_of(effective_counts(perfs, name))
    &&& row.cost_estimate == Some(290u32)
}

/// A freshly scored routing decision: the catalog ranked by descending
/// adjusted score (ties in catalog order), the best connector
/// recommended, the rest offered as alternatives.
pub open spec fn fresh_decision(
    perfs: Seq<ConnectorPerformance>,
    e: PaymentEvent,
    now: u64,
    d: RoutingDecision,
) -> bool {
    exists|ord: Seq<(u64, usize)>|
        {
            &&& #[trigger] pairs_sorted(ord)
            &&& ord.to_multiset() == Seq::new(
                5,
                |i: int| (connector_score_bp(perfs, catalog()[i], e) as u64, i as usize),
            ).to_multiset()
            &&& ord.len() == 5
            &&& (ord[0].1 as int) < 5
            &&& d.recommended_connector@ == catalog()[ord[0].1 as int]
            &&& d.confidence == connector_score_bp(perfs, catalog()[ord[0].1 as int], e)
            &&& d.alternatives.len() == 4
            &&& forall|j: int|
                0 <= j < 4 ==> (ord[j + 1].1 as int) < 5 && score_row_ok(
                    #[trigger] d.alternatives[j],
                    perfs,
                    catalog()[ord[j + 1].1 as int],
                    e,
                )
        } && d.payment_id@ == e.payment_id@ && d.timestamp == now && d.was_correct is None
}

/// Decision engine over historical connector performance.
pub struct DecisionEngine {
    config: Settings,
    performance_cache: Vec<ConnectorPerformance>,
    decision_cache: DecisionCache,
    model_version: String,
    training_buffer: Vec<TrainingDataPoint>,
}

impl DecisionEngine {
    /// The configuration the engine was created with.
    pub closed spec fn spec_config(&self) -> Settings {
        self.config
    }

    /// The recorded per-connector counters.
    pub closed spec fn spec_perfs(&self) -> Seq<ConnectorPerformance> {
        self.performance_cache@
    }

    /// The cached decisions, keyed by payment id.
    pub closed spec fn spec_cache(&self) -> Map<Seq<char>, RoutingDecision> {
        lru_contents(self.decision_cache)
    }

    /// The buffered training observations.
    pub closed spec fn spec_buffer(&self) -> Seq<TrainingDataPoint> {
        self.training_buffer@
    }

    /// A valid engine: counters keyed uniquely, every split summing to
    /// its total, and the decision cache bounded at its fixed size.
    pub open spec fn wf(&self) -> bool {
        &&& forall|i: int, j: int|
            0 <= i < j < self.spec_perfs().len() ==> (#[trigger] self.spec_perfs()[i]).connector@
                != (#[trigger] self.spec_perfs()[j]).connector@
        &&& forall|i: int|
            0 <= i < self.spec_perfs().len() ==> (#[trigger] self.spec_perfs()[i]).success_count
                + self.spec_perfs()[i].failure_count == self.spec_perfs()[i].total_transactions
        &&& self.cache_wf()
    }

    /// The decision cache stands at its fixed capacity.
    pub closed spec fn cache_wf(&self) -> bool {
        lru_cap(self.decision_cache) == 1000 && lru_contents(self.decision_cache).dom().finite()
    }

    /// Create a new decision engine.
    pub fn new(config: Settings) -> (r: Self)
        ensures
            r.wf(),
            r.spec_config() == config,
            r.spec_perfs() == Seq::<ConnectorPerformance>::empty(),
            r.spec_cache() == Map::<Seq<char>, RoutingDecision>::empty(),
            r.spec_buffer() == Seq::<TrainingDataPoint>::empty(),
    {
        DecisionEngine {
            config,
            performance_cache: Vec::new(),
            decision_cache: cache_new(1000),
            model_version: String::from_str("v1.0.0"),
            training_buffer: Vec::new(),
        }
    }

    /// What one routing call at one reading of the clock leaves behind
    /// and hands back: a cache hit returns the cached decision
    /// untouched; a miss scores the catalog, returns the ranking and
    /// caches it under the payment id.
    pub open spec fn route_post(
        old_s: DecisionEngine,
        new_s: DecisionEngine,
        e: PaymentEvent,
        now: u64,
        r: Result<RoutingDecision, DecisionEngineError>,
    ) -> bool {
        let key = e.payment_id@;
        let m0 = old_s.spec_cache();
        let m1 = new_s.spec_cache();
        &&& new_s.spec_config() == old_s.spec_config()
        &&& new_s.spec_perfs() == old_s.spec_perfs()
        &&& new_s.spec_buffer() == old_s.spec_buffer()
        &&& if m0.contains_key(key) {
            (r matches Ok(d) && decision_eq(d, m0[key])) && m1 == m0
        } else {
            r matches Ok(d) && {
                &&& fresh_decision(old_s.spec_perfs(), e, now, d)
                &&& m1.contains_key(key)
                &&& decision_eq(m1[key], d)
                &&& forall|k2: Seq<char>|
                    m1.contains_key(k2) && k2 != key ==> m0.contains_key(k2) && #[trigger] m1[k2]
                        == m0[k2]
            }
        }
    }

    /// Make a routing decision for a payment at a given reading of the
    /// clock: idempotent per payment id through the decision cache.
    pub fn make_routing_decision_at(&mut self, payment: &PaymentEvent, now: u64) -> (r: Result<
        RoutingDecision,
        DecisionEngineError,
    >)
        requires
            old(self).wf(),
        ensures
            final(self).wf(),
            Self::route_post(*old(self), *final(self), *payment, now, r),
    {
        let cached: Option<RoutingDecision> = {
            match cache_get(&mut self.decision_cache, payment.payment_id.as_str()) {
                Some(d) => Some(clone_decision(d)),
                None => None,
            }
        };
        proof {
            assert(self.spec_perfs() == old(self).spec_perfs());
            assert(lru_cap(self.decision_cache) == 1000);
            assert(lru_contents(self.decision_cache).dom().finite());
        }
        match cached {
            Some(d) => {
                proof {
                    assert(self.cache_wf());
                }
                Ok(d)
            },
            None => {
                let mut scored: Vec<ConnectorScore> = Vec::new();
                let mut i: usize = 0;
                while i < 5
                    invariant
                        self.wf(),
                        old(self).wf(),
                        self.spec_perfs() == old(self).spec_perfs(),
                        self.spec_config() == old(self).spec_config(),
                        self.spec_cache() == old(self).spec_cache(),
                        self.spec_buffer() == old(self).spec_buffer(),
                        i <= 5,
                        scored@.len() == i,
                        forall|k: int|
                            0 <= k < i ==> score_row_ok(
                                #[trigger] scored@[k],
                                self.spec_perfs(),
                                catalog()[k],
                                *payment,
                            ),
                    decreases 5 - i,
                {
                    let row = self.score_connector(catalog_name(i), payment);
                    scored.push(row);
                    i = i + 1;
                }

                let mut pairs: Vec<(u64, usize)> = Vec::new();
                let mut j: usize = 0;
                while j < 5
                    invariant
                        self.wf(),
                        old(self).wf(),
                        self.spec_perfs() == old(self).spec_perfs(),
                        self.spec_config() == old(self).spec_config(),
                        self.spec_cache() == old(self).spec_cache(),
                        self.spec_buffer() == old(self).spec_buffer(),
                        j <= 5,
                        scored@.len() == 5,
                        forall|k: int|
                            0 <= k < 5 ==> score_row_ok(
                                #[trigger] scored@[k],
                                self.spec_perfs(),
                                catalog()[k],
                                *payment,
                            ),
                        pairs@.len() == j,
                        forall|k: int|
                            0 <= k < j ==> #[trigger] pairs@[k] == (
                                connector_score_bp(
                                    self.spec_perfs(),
                                    catalog()[k],
                                    *payment,
                                ) as u64,
                                k as usize,
                            ),
                    decreases 5 - j,
                {
                    proof {
                        lemma_score_in_range(self.spec_perfs(), catalog()[j as int], *payment);
                    }
                    pairs.push((scored[j].score as u64, j));
                    j = j + 1;
                }
                let ghost keyf = |k: int|
                    connector_score_bp(self.spec_perfs(), catalog()[k], *payment) as u64;
                let ghost orig_pairs = Seq::new(
                    5,
                    |k: int|
                        (
                            connector_score_bp(
                                self.spec_perfs(),
                                catalog()[k],
                                *payment,
                            ) as u64,
                            k as usize,
                        ),
                );
                proof {
                    assert(pairs@ =~= orig_pairs);
                }
                sort_pairs_desc(&mut pairs);
                proof {
                    lemma_sorted_pairs_valid(orig_pairs, pairs@, keyf);
                }
                let ghost ord = pairs@;

                let best_idx: usize = pairs[0].1;
                let best = &scored[best_idx];
                let rationale = build_rationale(best);
                let mut alternatives: Vec<ConnectorScore> = Vec::new();
                let mut a: usize = 1;
                while a < 5
                    invariant
                        self.wf(),
                        old(self).wf(),
                        self.spec_perfs() == old(self).spec_perfs(),
                        self.spec_config() == old(self).spec_config(),
                        self.spec_cache() == old(self).spec_cache(),
                        self.spec_buffer() == old(self).spec_buffer(),
                        1 <= a <= 5,
                        scored@.len() == 5,
                        pairs@ == ord,
                        pairs@.len() == 5,
                        forall|k: int| 0 <= k < 5 ==> (#[trigger] ord[k]).1 < 5,
                        forall|k: int|
                            0 <= k < 5 ==> score_row_ok(
                                #[trigger] scored@[k],
                                self.spec_perfs(),
                                catalog()[k],
                                *payment,
                            ),
                        alternatives@.len() == a - 1,
                        forall|k: int|
                            0 <= k < a - 1 ==> score_row_ok(
                                #[trigger] alternatives@[k],
                                self.spec_perfs(),
                                catalog()[ord[k + 1].1 as int],
                                *payment,
                            ),
                    decreases 5 - a,
                {
                    let idx: usize = pairs[a].1;
                    let row = clone_score(&scored[idx]);
                    alternatives.push(row);
                    a = a + 1;
                }

                let decision = RoutingDecision {
                    id: generate_id(),
                    timestamp: now,
                    payment_id: payment.payment_id.clone(),
                    recommended_connector: best.connector.clone(),
                    confidence: best.score,
                    alternatives,
                    rationale,
                    was_correct: None,
                };
                let stored = clone_decision(&decision);
                proof {
                    assert(decision_eq(stored, decision));
                }
                cache_put(&mut self.decision_cache, payment.payment_id.clone(), stored);
                proof {
                    assert(fresh_decision(old(self).spec_perfs(), *payment, now, decision));
                }
                Ok(decision)
            },
        }
    }

    /// Make a routing decision against the wall clock. Whatever the
    /// clock read, the outcome is the decision at some reading.
    pub fn make_routing_decision(&mut self, payment: &PaymentEvent) -> (r: Result<
        RoutingDecision,
        DecisionEngineError,
    >)
        requires
            old(self).wf(),
        ensures
            final(self).wf(),
            exists|now: u64| Self::route_post(*old(self), *final(self), *payment, now, r),
    {
        let t = now_seconds();
        let now: u64 = if t < 0 {
            0
        } else {
            t as u64
        };
        let r = self.make_routing_decision_at(payment, now);
        proof {
            assert(Self::route_post(*old(self), *final(self), *payment, now, r));
        }
        r
    }

    /// Score one connector for one payment.
    fn score_connector(&self, connector: &str, payment: &PaymentEvent) -> (row: ConnectorScore)
        requires
            self.wf(),
        ensures
            score_row_ok(row, self.spec_perfs(), connector@, *payment),
    {
        let found = self.find_performance(connector);
        let (success, total, latency): (u64, u64, u64) = match found {
            Some(i) => {
                let p = &self.performance_cache[i];
                (p.success_count, p.total_transactions, p.total_latency_ms)
            },
            None => (80, 100, 50_000),
        };
        proof {
            assert(effective_counts(self.spec_perfs(), connector@) == (
                success as int,
                total as int,
                latency as int,
            ));
            assert(success <= total);
        }
        let rate: u32 = rate_of(success, total);
        let avg: u64 = if total > 0 {
            latency / total
        } else {
            0
        };
        let avg10: u128 = (avg as u128) * 10;
        let lat_penalty: u64 = if avg10 < 10_000 {
            avg10 as u64
        } else {
            10_000
        };
        let base: u32 = ((rate as u64 * 7 + (10_000 - lat_penalty) * 3) / 10) as u32;
        let score = self.apply_payment_adjustments(base, connector, payment);
        ConnectorScore {
            connector: String::from_str(connector),
            score,
            expected_success_rate: rate,
            expected_latency_ms: avg,
            cost_estimate: Some(290),
        }
    }

    /// Apply the deterministic payment adjustments to a base score.
    fn apply_payment_adjustments(&self, base_score: u32, connector: &str, payment: &PaymentEvent)
        -> (r: u32)
        requires
            base_score <= 10_000,
        ensures
            r == adjusted_score_bp(base_score as int, connector@, *payment),
    {
        let mut score: u32 = base_score;
        let big_amount: bool = match payment.amount {
            Some(a) => a > 50_000,
            None => false,
        };
        if big_amount && str_equal(connector, "stripe") {
            score = score * 11 / 10;
        }
        let card: bool = match &payment.payment_method {
            Some(m) => str_equal(m.as_str(), "card"),
            None => false,
        };
        if card && (str_equal(connector, "stripe") || str_equal(connector, "adyen")) {
            score = score * 21 / 20;
        }
        if score > 10_000 {
            score = 10_000;
        }
        score
    }

    /// Index of the first performance entry of a connector.
    fn find_performance(&self, name: &str) -> (r: Option<usize>)
        ensures
            match r {
                Some(i) => i < self.spec_perfs().len() && find_perf(self.spec_perfs(), name@)
                    == Some(self.spec_perfs()[i as int]) && self.spec_perfs()[i as int].connector@
                    == name@ && forall|k: int|
                    0 <= k < i ==> (#[trigger] self.spec_perfs()[k]).connector@ != name@,
                None => find_perf(self.spec_perfs(), name@) is None && forall|k: int|
                    0 <= k < self.spec_perfs().len() ==> (#[trigger] self.spec_perfs()[k]).connector@
                        != name@,
            },
    {
        let n = self.performance_cache.len();
        proof {
            assert(self.spec_perfs().skip(0) =~= self.spec_perfs());
        }
        let mut i: usize = 0;
        while i < n
            invariant
                n == self.spec_perfs().len(),
                i <= n,
                find_perf(self.spec_perfs(), name@) == find_perf(
                    self.spec_perfs().skip(i as int),
                    name@,
                ),
                forall|k: int| 0 <= k < i ==> (#[trigger] self.spec_perfs()[k]).connector@ != name@,
            decreases n - i,
        {
            proof {
                assert(self.spec_perfs().skip(i as int).first() == self.spec_perfs()[i as int]);
                assert(self.spec_perfs().skip(i as int).drop_first() =~= self.spec_perfs().skip(
                    i + 1 as int,
                ));
            }
            if str_equal(self.performance_cache[i].connector.as_str(), name) {
                return Some(i);
            }
            i = i + 1;
        }
        proof {
            assert(self.spec_perfs().skip(n as int) =~= Seq::<ConnectorPerformance>::empty());
        }
        None
    }

    /// How post-hoc feedback moves the counters: the first entry of
    /// the connector steps once, or a fresh entry is created from the
    /// observation.
    pub open spec fn feedback_post(
        old_s: DecisionEngine,
        new_s: DecisionEngine,
        name: Seq<char>,
        success: bool,
        latency_ms: u64,
    ) -> bool {
        let old_p = old_s.spec_perfs();
        let new_p = new_s.spec_perfs();
        &&& new_s.spec_config() == old_s.spec_config()
        &&& new_s.spec_cache() == old_s.spec_cache()
        &&& new_s.spec_buffer() == old_s.spec_buffer()
        &&& if find_perf(old_p, name) is Some {
            &&& new_p.len() == old_p.len()
            &&& exists|i: int|
                {
                    &&& 0 <= i < old_p.len()
                    &&& (#[trigger] old_p[i]).connector@ == name
                    &&& forall|k: int| 0 <= k < i ==> (#[trigger] old_p[k]).connector@ != name
                    &&& perf_stepped(old_p[i], new_p[i], success, latency_ms)
                    &&& forall|k: int| 0 <= k < old_p.len() && k != i ==> new_p[k] == #[trigger] old_p[k]
                }
        } else {
            &&& new_p.len() == old_p.len() + 1
            &&& new_p.drop_last() == old_p
            &&& new_p.last().connector@ == name
            &&& new_p.last().success_count == if success {
                1int
            } else {
                0int
            }
            &&& new_p.last().failure_count == if success {
                0int
            } else {
                1int
            }
            &&& new_p.last().total_latency_ms == latency_ms
            &&& new_p.last().total_transactions == 1
        }
    }

    /// Record the observed outcome of one routed payment: the sole
    /// mutator of the historical counters.
    pub fn update_performance(&mut self, connector: &str, success: bool, latency_ms: u64)
        requires
            old(self).wf(),
            forall|i: int|
                0 <= i < old(self).spec_perfs().len() ==> (#[trigger] old(self).spec_perfs()[i]).total_transactions < u64::MAX,
        ensures
            final(self).wf(),
            Self::feedback_post(*old(self), *final(self), connector@, success, latency_ms),
    {
        let found = self.find_performance(connector);
        match found {
            Some(i) => {
                let t = now_seconds();
                let now: u64 = if t < 0 {
                    0
                } else {
                    t as u64
                };
                let p = &self.performance_cache[i];
                let updated = ConnectorPerformance {
                    connector: p.connector.clone(),
                    success_count: if success {
                        p.success_count + 1
                    } else {
                        p.success_count
                    },
                    failure_count: if success {
                        p.failure_count
                    } else {
                        p.failure_count + 1
                    },
                    total_latency_ms: p.total_latency_ms.saturating_add(latency_ms),
                    total_transactions: p.total_transactions + 1,
                    last_updated: now,
                };
                self.performance_cache.set(i, updated);
                proof {
                    assert(perf_stepped(
                        old(self).spec_perfs()[i as int],
                        final(self).spec_perfs()[i as int],
                        success,
                        latency_ms,
                    ));
                    assert forall|a: int, b: int|
                        0 <= a < b < final(self).spec_perfs().len() implies (#[trigger] final(self).spec_perfs()[a]).connector@ != (#[trigger] final(self).spec_perfs()[b]).connector@ by {
                        if a == i as int {
                            assert(final(self).spec_perfs()[a].connector@ == old(self).spec_perfs()[a].connector@);
                        } else {
                            assert(final(self).spec_perfs()[a] == old(self).spec_perfs()[a]);
                        }
                        if b == i as int {
                            assert(final(self).spec_perfs()[b].connector@ == old(self).spec_perfs()[b].connector@);
                        } else {
                            assert(final(self).spec_perfs()[b] == old(self).spec_perfs()[b]);
                        }
                        assert(old(self).spec_perfs()[a].connector@ != old(self).spec_perfs()[b].connector@);
                    }
                }
            },
            None => {
                let t = now_seconds();
                let now: u64 = if t < 0 {
                    0
                } else {
                    t as u64
                };
                let fresh = ConnectorPerformance {
                    connector: String::from_str(connector),
                    success_count: if success {
                        1
                    } else {
                        0
                    },
                    failure_count: if success {
                        0
                    } else {
                        1
                    },
                    total_latency_ms: latency_ms,
                    total_transactions: 1,
                    last_updated: now,
                };
                self.performance_cache.push(fresh);
                proof {
                    assert(final(self).spec_perfs().drop_last() =~= old(self).spec_perfs());
                    assert forall|k: int|
                        0 <= k < final(self).spec_perfs().len() - 1 implies #[trigger] final(self).spec_perfs()[k] == old(self).spec_perfs()[k] by {
                        assert(final(self).spec_perfs().drop_last()[k] == old(self).spec_perfs()[k]);
                    }
                }
            },
        }
    }

    /// Train the scoring model: succeeds exactly once enough samples
    /// are buffered, and changes nothing either way (scoring stays the
    /// documented heuristic).
    pub fn train_model(&mut self) -> (r: Result<(), DecisionEngineError>)
        ensures
            *final(self) == *old(self),
            r is Ok <==> old(self).spec_buffer().len() >= old(self).spec_config().decision_engine.min_training_samples,
            r matches Err(e) ==> e is InsufficientData,
    {
        if self.training_buffer.len() < self.config.decision_engine.min_training_samples {
            let mut msg = String::from_str("Need at least ");
            msg.append(u64_to_string(self.config.decision_engine.min_training_samples as u64).as_str());
            msg.append(" samples, have ");
            msg.append(u64_to_string(self.training_buffer.len() as u64).as_str());
            return Err(DecisionEngineError::InsufficientData(msg));
        }
        Ok(())
    }

    /// Buffer one training observation; the buffer sheds its oldest
    /// thousand entries when it outgrows ten thousand.
    pub fn add_training_data(&mut self, features: Vec<i64>, label: i64)
        ensures
            final(self).spec_config() == old(self).spec_config(),
            final(self).spec_cache() == old(self).spec_cache(),
            final(self).spec_buffer().len() == if old(self).spec_buffer().len() + 1 > 10_000 {
                old(self).spec_buffer().len() + 1 - 1000
            } else {
                old(self).spec_buffer().len() + 1int
            },
            final(self).spec_buffer().len() > 0,
            final(self).spec_buffer().last().features@ == features@,
            final(self).spec_buffer().last().label == label,
            final(self).spec_perfs() == old(self).spec_perfs(),
    {
        let t = now_seconds();
        let now: u64 = if t < 0 {
            0
        } else {
            t as u64
        };
        self.training_buffer.push(TrainingDataPoint { features, label, timestamp: now });
        if self.training_buffer.len() > 10_000 {
            let ghost snap = *self;
            let n = self.training_buffer.len();
            let mut kept: Vec<TrainingDataPoint> = Vec::new();
            let mut i: usize = 1000;
            while i < n
                invariant
                    1000 <= i <= n,
                    *self == snap,
                    n == self.training_buffer@.len(),
                    kept@.len() == i - 1000,
                    forall|k: int|
                        0 <= k < i - 1000 ==> point_reads_same(
                            #[trigger] kept@[k],
                            self.training_buffer@[k + 1000],
                        ),
                decreases n - i,
            {
                kept.push(clone_training_point(&self.training_buffer[i]));
                i = i + 1;
            }
            self.training_buffer = kept;
        }
    }

    /// Get model statistics.
    pub fn get_model_stats(&self) -> (r: ModelStatistics)
        ensures
            r.model_version@ == "v1.0.0"@,
            r.training_samples == self.spec_buffer().len(),
            r.tracked_connectors == self.spec_perfs().len(),
            r.last_trained is None,
            r.avg_confidence == 8500,
    {
        ModelStatistics {
            model_version: String::from_str("v1.0.0"),
            training_samples: self.training_buffer.len(),
            tracked_connectors: self.performance_cache.len(),
            last_trained: None,
            avg_confidence: 8500,
        }
    }
}

/// A training point carrying the same observation.
pub open spec fn point_reads_same(a: TrainingDataPoint, b: TrainingDataPoint) -> bool {
    a.features@ == b.features@ && a.label == b.label && a.timestamp == b.timestamp
}

/// Deep copy of a training point; the copy reads the same.
fn clone_training_point(p: &TrainingDataPoint) -> (r: TrainingDataPoint)
    ensures
        point_reads_same(r, *p),
{
    let n = p.features.len();
    let mut fs: Vec<i64> = Vec::new();
    let mut i: usize = 0;
    while i < n
        invariant
            i <= n,
            n == p.features@.len(),
            fs@.len() == i,
            forall|k: int| 0 <= k < i ==> #[trigger] fs@[k] == p.features@[k],
        decreases n - i,
    {
        fs.push(p.features[i]);
        i = i + 1;
    }
    proof {
        assert(fs@ =~= p.features@);
    }
    TrainingDataPoint { features: fs, label: p.label, timestamp: p.timestamp }
}

/// One feedback step of a counter entry.
pub open spec fn perf_stepped(
    old_p: ConnectorPerformance,
    new_p: ConnectorPerformance,
    success: bool,
    latency_ms: u64,
) -> bool {
    &&& new_p.connector@ == old_p.connector@
    &&& new_p.success_count == old_p.success_count + if success {
        1int
    } else {
        0int
    }
    &&& new_p.failure_count == old_p.failure_count + if success {
        0int
    } else {
        1int
    }
    &&& new_p.total_latency_ms == if old_p.total_latency_ms + latency_ms > u64::MAX {
        u64::MAX as int
    } else {
        old_p.total_latency_ms + latency_ms
    }
    &&& new_p.total_transactions == old_p.total_transactions + 1
}

/// Every catalog score lies within the basis-point scale.
proof fn lemma_score_in_range(s: Seq<ConnectorPerformance>, name: Seq<char>, e: PaymentEvent)
    requires
        forall|i: int|
            0 <= i < s.len() ==> (#[trigger] s[i]).success_count + s[i].failure_count
                == s[i].total_transactions,
    ensures
        0 <= connector_score_bp(s, name, e) <= 10_000,
{
    lemma_find_perf_in_seq(s, name);
    let counts = effective_counts(s, name);
    assert(0 <= counts.0 <= counts.1 && 0 <= counts.2) by {
        match find_perf(s, name) {
            Some(p) => {
                let i = choose|i: int| 0 <= i < s.len() && #[trigger] s[i] == p;
                assert(s[i].success_count + s[i].failure_count == s[i].total_transactions);
            },
            None => {},
        }
    }
    let rate = rate_bp(counts.0, counts.1);
    assert(0 <= rate <= 10_000) by (nonlinear_arith)
        requires
            rate == rate_bp(counts.0, counts.1),
            0 <= counts.0 <= counts.1,
    ;
    let avg = avg_latency_of(counts);
    assert(0 <= avg);
    let base = base_score_bp(counts);
    assert(0 <= base <= 10_000);
}

/// The counters the search finds lie in the table.
proof fn lemma_find_perf_in_seq(s: Seq<ConnectorPerformance>, name: Seq<char>)
    ensures
        find_perf(s, name) matches Some(p) ==> exists|i: int|
            0 <= i < s.len() && #[trigger] s[i] == p,
    decreases s.len(),
{
    if s.len() > 0 {
        if s.first().connector@ == name {
            assert(s[0] == s.first());
        } else {
            lemma_find_perf_in_seq(s.drop_first(), name);
            match find_perf(s, name) {
                Some(p) => {
                    let i = choose|i: int|
                        0 <= i < s.drop_first().len() && #[trigger] s.drop_first()[i] == p;
                    assert(s[i + 1] == p);
                },
                None => {},
            }
        }
    }
}

/// Success rate over machine counters.
fn rate_of(s: u64, t: u64) -> (r: u32)
    requires
        s <= t,
    ensures
        r as int == rate_bp(s as int, t as int),
        r <= 10_000,
{
    if t == 0 {
        0
    } else {
        let v: u128 = (s as u128) * 10_000 / (t as u128);
        proof {
            assert((s as int) * 10_000 / (t as int) <= 10_000) by (nonlinear_arith)
                requires
                    s <= t,
                    t > 0,
            ;
        }
        v as u32
    }
}

/// Deep copy of a connector score; the copy reads the same.
fn clone_score(s: &ConnectorScore) -> (r: ConnectorScore)
    ensures
        r.connector@ == s.connector@,
        r.score == s.score,
        r.expected_success_rate == s.expected_success_rate,
        r.expected_latency_ms == s.expected_latency_ms,
        r.cost_estimate == s.cost_estimate,
{
    ConnectorScore {
        connector: s.connector.clone(),
        score: s.score,
        expected_success_rate: s.expected_success_rate,
        expected_latency_ms: s.expected_latency_ms,
        cost_estimate: s.cost_estimate,
    }
}

/// Deep copy of a routing decision; the copy reads the same.
fn clone_decision(d: &RoutingDecision) -> (r: RoutingDecision)
    ensures
        decision_eq(r, *d),
{
    let n = d.alternatives.len();
    let mut alts: Vec<ConnectorScore> = Vec::new();
    let mut i: usize = 0;
    while i < n
        invariant
            i <= n,
            n == d.alternatives@.len(),
            alts@.len() == i,
            forall|k: int|
                0 <= k < i ==> {
                    &&& (#[trigger] alts@[k]).connector@ == d.alternatives@[k].connector@
                    &&& alts@[k].score == d.alternatives@[k].score
                    &&& alts@[k].expected_success_rate == d.alternatives@[k].expected_success_rate
                    &&& alts@[k].expected_latency_ms == d.alternatives@[k].expected_latency_ms
                    &&& alts@[k].cost_estimate == d.alternatives@[k].cost_estimate
                },
        decreases n - i,
    {
        alts.push(clone_score(&d.alternatives[i]));
        i = i + 1;
    }
    RoutingDecision {
        id: d.id.clone(),
        timestamp: d.timestamp,
        payment_id: d.payment_id.clone(),
        recommended_connector: d.recommended_connector.clone(),
        confidence: d.confidence,
        alternatives: alts,
        rationale: d.rationale.clone(),
        was_correct: d.was_correct,
    }
}

/// Human-readable rationale for a recommendation.
fn build_rationale(best: &ConnectorScore) -> (r: String)
    ensures
        r@.len() > 0,
{
    let mut out = String::from_str("Selected ");
    out.append(best.connector.as_str());
    out.append(" with ");
    out.append(u64_to_string((best.score / 100) as u64).as_str());
    out.append("% confidence based on ");
    out.append(u64_to_string((best.expected_success_rate / 100) as u64).as_str());
    out.append("% success rate and ");
    out.append(u64_to_string(best.expected_latency_ms).as_str());
    out.append("ms average latency");
    proof {
        reveal_strlit("Selected ");
        assert(out@.len() > 0);
    }
    out
}

/// Routing is idempotent per payment id: two consecutive routing calls
/// for the same payment hand back decisions with identical content,
/// the second served from the cache the first filled.
pub proof fn lemma_routing_idempotent(
    s0: DecisionEngine,
    s1: DecisionEngine,
    s2: DecisionEngine,
    e: PaymentEvent,
    t1: u64,
    t2: u64,
    r1: Result<RoutingDecision, DecisionEngineError>,
    r2: Result<RoutingDecision, DecisionEngineError>,
)
    requires
        DecisionEngine::route_post(s0, s1, e, t1, r1),
        DecisionEngine::route_post(s1, s2, e, t2, r2),
    ensures
        r1 is Ok,
        r2 is Ok,
        r1 matches Ok(d1) && r2 matches Ok(d2) && decision_eq(d2, d1),
{
}

} // verus!
