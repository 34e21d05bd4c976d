//! Analytics engine: folds payment events into running totals and
//! per-connector / per-method aggregates, derives summaries from the
//! aggregates alone, and projects a smoothing forecast over a rolling
//! buffer of amount samples.

use vstd::prelude::*;

use crate::config::Settings;
use crate::types::AnalyticsSummary;
use crate::types::ConnectorStats;
use crate::types::PaymentEvent;
use crate::types::PaymentMethodStats;
use crate::types::PredictionResult;
use crate::types::TimeSeriesPoint;
use crate::types::AMOUNT_LIMIT;
use crate::utils::generate_id;
use crate::utils::isqrt_u128;
use crate::utils::lemma_sorted_pairs_valid;
use crate::utils::now_seconds;
use crate::utils::pairs_sorted;
use crate::utils::random_u16;
use crate::utils::sort_pairs_desc;
use crate::utils::str_equal;
use crate::utils::u64_to_string;

verus! {

/// Analytics error.
#[derive(Debug, Clone, PartialEq, Eq)]
pub enum AnalyticsError {
    /// Computation error
    Computation(String),
    /// Insufficient data
    InsufficientData(String),
}

/// Per-connector running aggregates.
#[derive(Debug, Clone)]
pub struct ConnectorMetrics {
    /// Connector name
    pub connector: String,
    /// Total transactions
    pub total_transactions: u64,
    /// Successful transactions
    pub successful_transactions: u64,
    /// Total latency
    pub total_latency_ms: u64,
    /// Total amount
    pub total_amount: i64,
}

/// Per-payment-method running aggregates.
#[derive(Debug, Clone)]
pub struct PaymentMethodMetrics {
    /// Payment method
    pub method: String,
    /// Total transactions
    pub total_transactions: u64,
    /// Successful transactions
    pub successful_transactions: u64,
    /// Total amount
    pub total_amount: i64,
}

/// Analytics statistics.
#[derive(Debug, Clone)]
pub struct AnalyticsStatistics {
    /// Total events processed
    pub total_events_processed: u64,
    /// Unique connectors tracked
    pub unique_connectors: usize,
    /// Unique payment methods tracked
    pub unique_payment_methods: usize,
    /// Time series data points
    pub time_series_points: usize,
    /// Data freshness in seconds
    pub data_freshness_seconds: i64,
}

/// Addition on a signed total, stopping at the machine bounds.
pub open spec fn sat_add_i64(a: int, b: int) -> int {
    if a + b > i64::MAX {
        i64::MAX as int
    } else if a + b < i64::MIN {
        i64::MIN as int
    } else {
        a + b
    }
}

/// Division truncating towards zero.
pub open spec fn div_trunc(a: int, b: int) -> int
    recommends
        b > 0,
{
    if a >= 0 {
        a / b
    } else {
        -((-a) / b)
    }
}

/// Success rate in basis points: the successful share of the total, or
/// zero of an empty total.
pub open spec fn rate_bp(s: int, t: int) -> int {
    if t > 0 {
        s * 10_000 / t
    } else {
        0
    }
}

/// The event's amount, zero when it carries none.
pub open spec fn amount_or_zero(e: PaymentEvent) -> int {
    match e.amount {
        Some(a) => a as int,
        None => 0,
    }
}

/// The retention test for buffered samples: strictly newer than the
/// cutoff.
pub open spec fn retained(cutoff: u64) -> spec_fn(TimeSeriesPoint) -> bool {
    |p: TimeSeriesPoint| p.timestamp > cutoff
}

/// Whether some connector aggregate carries the given name.
pub open spec fn has_conn(s: Seq<ConnectorMetrics>, name: Seq<char>) -> bool {
    exists|i: int| 0 <= i < s.len() && (#[trigger] s[i]).connector@ == name
}

/// Whether some payment-method aggregate carries the given name.
pub open spec fn has_method(s: Seq<PaymentMethodMetrics>, name: Seq<char>) -> bool {
    exists|i: int| 0 <= i < s.len() && (#[trigger] s[i]).method@ == name
}

/// A connector aggregate folded one event further.
pub open spec fn conn_step(m: ConnectorMetrics, succ: bool, amount: int) -> ConnectorMetrics {
    ConnectorMetrics {
        connector: m.connector,
        total_transactions: (m.total_transactions + 1) as u64,
        successful_transactions: if succ {
            (m.successful_transactions + 1) as u64
        } else {
            m.successful_transactions
        },
        total_latency_ms: m.total_latency_ms,
        total_amount: sat_add_i64(m.total_amount as int, amount) as i64,
    }
}

/// A payment-method aggregate folded one event further.
pub open spec fn method_step(m: PaymentMethodMetrics, succ: bool, amount: int) -> PaymentMethodMetrics {
    PaymentMethodMetrics {
        method: m.method,
        total_transactions: (m.total_transactions + 1) as u64,
        successful_transactions: if succ {
            (m.successful_transactions + 1) as u64
        } else {
            m.successful_transactions
        },
        total_amount: sat_add_i64(m.total_amount as int, amount) as i64,
    }
}

/// How one event moves the connector aggregates: the first entry of
/// the event's connector steps once, or a fresh entry is appended.
pub open spec fn conns_updated(
    old_s: Seq<ConnectorMetrics>,
    new_s: Seq<ConnectorMetrics>,
    name: Seq<char>,
    succ: bool,
    amount: int,
) -> bool {
    if has_conn(old_s, name) {
        &&& new_s.len() == old_s.len()
        &&& exists|i: int|
            {
                &&& 0 <= i < old_s.len()
                &&& (#[trigger] old_s[i]).connector@ == name
                &&& forall|k: int| 0 <= k < i ==> (#[trigger] old_s[k]).connector@ != name
                &&& new_s[i] == conn_step(old_s[i], succ, amount)
                &&& forall|k: int| 0 <= k < old_s.len() && k != i ==> new_s[k] == #[trigger] old_s[k]
            }
    } else {
        &&& new_s.len() == old_s.len() + 1
        &&& new_s.drop_last() == old_s
        &&& new_s.last().connector@ == name
        &&& new_s.last().total_transactions == 1
        &&& new_s.last().successful_transactions == if succ {
            1int
        } else {
            0int
        }
        &&& new_s.last().total_latency_ms == 0
        &&& new_s.last().total_amount == sat_add_i64(0, amount)
    }
}

/// How one event moves the payment-method aggregates.
pub open spec fn methods_updated(
    old_s: Seq<PaymentMethodMetrics>,
    new_s: Seq<PaymentMethodMetrics>,
    name: Seq<char>,
    succ: bool,
    amount: int,
) -> bool {
    if has_method(old_s, name) {
        &&& new_s.len() == old_s.len()
        &&& exists|i: int|
            {
                &&& 0 <= i < old_s.len()
                &&& (#[trigger] old_s[i]).method@ == name
                &&& forall|k: int| 0 <= k < i ==> (#[trigger] old_s[k]).method@ != name
                &&& new_s[i] == method_step(old_s[i], succ, amount)
                &&& forall|k: int| 0 <= k < old_s.len() && k != i ==> new_s[k] == #[trigger] old_s[k]
            }
    } else {
        &&& new_s.len() == old_s.len() + 1
        &&& new_s.drop_last() == old_s
        &&& new_s.last().method@ == name
        &&& new_s.last().total_transactions == 1
        &&& new_s.last().successful_transactions == if succ {
            1int
        } else {
            0int
        }
        &&& new_s.last().total_amount == sat_add_i64(0, amount)
    }
}


/// Addition on an unsigned time value, stopping at the machine bound.
pub open spec fn sat_add_u64(a: int, b: int) -> int {
    if a + b > u64::MAX {
        u64::MAX as int
    } else {
        a + b
    }
}

/// Clamp a difference into the signed machine range.
pub open spec fn clamp_i64(x: int) -> int {
    if x > i64::MAX {
        i64::MAX as int
    } else if x < i64::MIN {
        i64::MIN as int
    } else {
        x
    }
}

/// Sum of a sequence of mathematical integers.
pub open spec fn sum_ints(s: Seq<int>) -> int
    decreases s.len(),
{
    if s.len() == 0 {
        0
    } else {
        sum_ints(s.drop_last()) + s.last()
    }
}

/// Sum of squared deviations from a centre.
pub open spec fn sumsq(s: Seq<int>, mu: int) -> int
    decreases s.len(),
{
    if s.len() == 0 {
        0
    } else {
        sumsq(s.drop_last(), mu) + (s.last() - mu) * (s.last() - mu)
    }
}

/// The values of the twenty most recent buffered samples.
pub open spec fn window_vals(s: Seq<TimeSeriesPoint>) -> Seq<int>
    recommends
        s.len() >= 20,
{
    Seq::new(20, |i: int| s[s.len() - 20 + i].value as int)
}

/// Mean of the twenty most recent samples, truncated towards zero.
pub open spec fn window_mean(s: Seq<TimeSeriesPoint>) -> int {
    div_trunc(sum_ints(window_vals(s)), 20)
}

/// Variance of the twenty most recent samples around that mean.
pub open spec fn window_var(s: Seq<TimeSeriesPoint>) -> int {
    sumsq(window_vals(s), window_mean(s)) / 20
}

/// Freshness of the aggregates: seconds between the period's end and
/// a clock reading, clamped into machine range; zero of an untouched
/// period.
pub open spec fn freshness_at(end: Option<u64>, now: u64) -> int {
    match end {
        Some(e) => clamp_i64(now - e),
        None => 0,
    }
}

/// Whether `sig` is the integer square root of `v`.
pub open spec fn is_isqrt(sig: int, v: int) -> bool {
    0 <= sig && sig * sig <= v < (sig + 1) * (sig + 1)
}

/// The projection a connector aggregate makes into a summary row.
pub open spec fn connector_stats_of(m: ConnectorMetrics) -> ConnectorStats {
    ConnectorStats {
        connector: m.connector,
        total_transactions: m.total_transactions,
        success_rate: rate_bp(
            m.successful_transactions as int,
            m.total_transactions as int,
        ) as u32,
        avg_latency_ms: (if m.total_transactions > 0 {
            m.total_latency_ms as int / m.total_transactions as int
        } else {
            0int
        }) as u64,
        total_amount: m.total_amount,
    }
}

/// The projection a payment-method aggregate makes into a summary row.
pub open spec fn method_stats_of(m: PaymentMethodMetrics) -> PaymentMethodStats {
    PaymentMethodStats {
        payment_method: m.method,
        total_transactions: m.total_transactions,
        success_rate: rate_bp(
            m.successful_transactions as int,
            m.total_transactions as int,
        ) as u32,
        total_amount: m.total_amount,
    }
}

/// Ranking keys of the connector aggregates: transaction count and
/// position.
pub open spec fn conn_rank_pairs(s: Seq<ConnectorMetrics>) -> Seq<(u64, usize)> {
    Seq::new(s.len(), |i: int| (s[i].total_transactions, i as usize))
}

/// Ranking keys of the payment-method aggregates.
pub open spec fn method_rank_pairs(s: Seq<PaymentMethodMetrics>) -> Seq<(u64, usize)> {
    Seq::new(s.len(), |i: int| (s[i].total_transactions, i as usize))
}

/// The top rows of a summary: a prefix, cut at ten, of the aggregates
/// ranked by descending transaction count (ties in table order).
pub open spec fn ranked_connector_rows(
    entries: Seq<ConnectorMetrics>,
    ord: Seq<(u64, usize)>,
    out: Seq<ConnectorStats>,
) -> bool {
    &&& ord.to_multiset() == conn_rank_pairs(entries).to_multiset()
    &&& pairs_sorted(ord)
    &&& out.len() == if entries.len() <= 10 {
        entries.len() as int
    } else {
        10int
    }
    &&& forall|i: int|
        0 <= i < out.len() ==> (ord[i].1 as int) < entries.len() && #[trigger] out[i]
            == connector_stats_of(entries[ord[i].1 as int])
}

/// The top rows of a summary over payment methods.
pub open spec fn ranked_method_rows(
    entries: Seq<PaymentMethodMetrics>,
    ord: Seq<(u64, usize)>,
    out: Seq<PaymentMethodStats>,
) -> bool {
    &&& ord.to_multiset() == method_rank_pairs(entries).to_multiset()
    &&& pairs_sorted(ord)
    &&& out.len() == if entries.len() <= 10 {
        entries.len() as int
    } else {
        10int
    }
    &&& forall|i: int|
        0 <= i < out.len() ==> (ord[i].1 as int) < entries.len() && #[trigger] out[i]
            == method_stats_of(entries[ord[i].1 as int])
}

/// Analytics engine with forecasting.
pub struct AnalyticsEngine {
    config: Settings,
    total_payments: u64,
    successful_payments: u64,
    failed_payments: u64,
    total_amount: i64,
    period_start: u64,
    period_end: Option<u64>,
    connector_stats: Vec<ConnectorMetrics>,
    payment_method_stats: Vec<PaymentMethodMetrics>,
    time_series_data: Vec<TimeSeriesPoint>,
}

impl AnalyticsEngine {
    /// The configuration the engine was created with.
    pub closed spec fn spec_config(&self) -> Settings {
        self.config
    }

    /// Total payments folded in.
    pub closed spec fn spec_total(&self) -> u64 {
        self.total_payments
    }

    /// Succeeded payments folded in.
    pub closed spec fn spec_successful(&self) -> u64 {
        self.successful_payments
    }

    /// Failed payments folded in.
    pub closed spec fn spec_failed(&self) -> u64 {
        self.failed_payments
    }

    /// Total amount folded in.
    pub closed spec fn spec_amount(&self) -> i64 {
        self.total_amount
    }

    /// Start of the current period.
    pub closed spec fn spec_period_start(&self) -> u64 {
        self.period_start
    }

    /// When the last event was folded in, if any.
    pub closed spec fn spec_period_end(&self) -> Option<u64> {
        self.period_end
    }

    /// The per-connector aggregates.
    pub closed spec fn spec_connectors(&self) -> Seq<ConnectorMetrics> {
        self.connector_stats@
    }

    /// The per-method aggregates.
    pub closed spec fn spec_methods(&self) -> Seq<PaymentMethodMetrics> {
        self.payment_method_stats@
    }

    /// The forecast buffer, oldest first.
    pub closed spec fn spec_series(&self) -> Seq<TimeSeriesPoint> {
        self.time_series_data@
    }

    /// A valid engine: the success/failure split never exceeds the
    /// total, aggregates are keyed uniquely and dominated by the
    /// total, and buffered samples lie within the amount bound.
    pub open spec fn wf(&self) -> bool {
        &&& self.spec_successful() + self.spec_failed() <= self.spec_total()
        &&& forall|i: int, j: int|
            0 <= i < j < self.spec_connectors().len() ==> (#[trigger] self.spec_connectors()[i]).connector@
                != (#[trigger] self.spec_connectors()[j]).connector@
        &&& forall|i: int|
            0 <= i < self.spec_connectors().len() ==> (#[trigger] self.spec_connectors()[i]).successful_transactions
                <= self.spec_connectors()[i].total_transactions <= self.spec_total()
        &&& forall|i: int, j: int|
            0 <= i < j < self.spec_methods().len() ==> (#[trigger] self.spec_methods()[i]).method@
                != (#[trigger] self.spec_methods()[j]).method@
        &&& forall|i: int|
            0 <= i < self.spec_methods().len() ==> (#[trigger] self.spec_methods()[i]).successful_transactions
                <= self.spec_methods()[i].total_transactions <= self.spec_total()
        &&& forall|i: int|
            0 <= i < self.spec_series().len() ==> -AMOUNT_LIMIT
                <= (#[trigger] self.spec_series()[i]).value <= AMOUNT_LIMIT
    }

    /// Create a new analytics engine with empty aggregates.
    pub fn new(config: Settings) -> (r: Self)
        ensures
            r.wf(),
            r.spec_config() == config,
            r.spec_total() == 0,
            r.spec_successful() == 0,
            r.spec_failed() == 0,
            r.spec_amount() == 0,
            r.spec_period_end() is None,
            r.spec_connectors() == Seq::<ConnectorMetrics>::empty(),
            r.spec_methods() == Seq::<PaymentMethodMetrics>::empty(),
            r.spec_series() == Seq::<TimeSeriesPoint>::empty(),
    {
        let t = now_seconds();
        let start: u64 = if t < 0 {
            0
        } else {
            t as u64
        };
        AnalyticsEngine {
            config,
            total_payments: 0,
            successful_payments: 0,
            failed_payments: 0,
            total_amount: 0,
            period_start: start,
            period_end: None,
            connector_stats: Vec::new(),
            payment_method_stats: Vec::new(),
            time_series_data: Vec::new(),
        }
    }

    /// What folding one event in at one reading of the clock leaves
    /// behind.
    pub open spec fn process_post(
        old_s: AnalyticsEngine,
        new_s: AnalyticsEngine,
        e: PaymentEvent,
        now: u64,
    ) -> bool {
        let succ = e.status@ == "succeeded"@;
        let fail = e.status@ == "failed"@;
        let amount = amount_or_zero(e);
        let retention = old_s.spec_config().analytics.retention_days as int * 86400;
        let cutoff = if now >= retention {
            now - retention
        } else {
            0int
        };
        &&& new_s.spec_config() == old_s.spec_config()
        &&& new_s.spec_period_start() == old_s.spec_period_start()
        &&& if !old_s.spec_config().analytics.enabled {
            new_s == old_s
        } else {
            &&& new_s.spec_total() == old_s.spec_total() + 1
            &&& new_s.spec_successful() == old_s.spec_successful() + if succ {
                1int
            } else {
                0int
            }
            &&& new_s.spec_failed() == old_s.spec_failed() + if fail {
                1int
            } else {
                0int
            }
            &&& new_s.spec_amount() == sat_add_i64(old_s.spec_amount() as int, amount)
            &&& new_s.spec_period_end() == Some(now)
            &&& match e.connector {
                Some(c) => conns_updated(
                    old_s.spec_connectors(),
                    new_s.spec_connectors(),
                    c@,
                    succ,
                    amount,
                ),
                None => new_s.spec_connectors() == old_s.spec_connectors(),
            }
            &&& match e.payment_method {
                Some(m) => methods_updated(
                    old_s.spec_methods(),
                    new_s.spec_methods(),
                    m@,
                    succ,
                    amount,
                ),
                None => new_s.spec_methods() == old_s.spec_methods(),
            }
            &&& new_s.spec_series() == old_s.spec_series().push(
                TimeSeriesPoint { timestamp: e.timestamp, value: amount as i64 },
            ).filter(retained(cutoff as u64))
        }
    }

    /// Fold one event into the aggregates at a given reading of the
    /// clock: counters and sub-aggregates step once, and the forecast
    /// buffer takes the amount sample and drops samples older than the
    /// retention window.
    pub fn process_event_at(&mut self, event: &PaymentEvent, now: u64) -> (r: Result<
        (),
        AnalyticsError,
    >)
        requires
            old(self).wf(),
            old(self).spec_total() < u64::MAX,
            event.wf(),
        ensures
            final(self).wf(),
            r is Ok,
            Self::process_post(*old(self), *final(self), *event, now),
    {
        if !self.config.analytics.enabled {
            return Ok(());
        }

        proof {
            reveal_strlit("succeeded");
            reveal_strlit("failed");
            assert("succeeded"@.len() == 9);
            assert("failed"@.len() == 6);
        }
        let succ = str_equal(event.status.as_str(), "succeeded");
        let fail = str_equal(event.status.as_str(), "failed");
        let amount: i64 = match event.amount {
            Some(a) => a,
            None => 0,
        };

        let has_connector = event.connector.is_some();
        if has_connector {
            let name = match &event.connector {
                Some(c) => c.clone(),
                None => String::new(),
            };
            proof {
                assert forall|k: int|
                    0 <= k < self.spec_connectors().len() implies (
                #[trigger] self.spec_connectors()[k]).successful_transactions
                    <= self.spec_connectors()[k].total_transactions < u64::MAX by {
                    assert(old(self).spec_connectors()[k].total_transactions <= old(self).spec_total());
                }
                assert forall|k: int|
                    0 <= k < self.spec_connectors().len() implies (
                #[trigger] self.spec_connectors()[k]).total_transactions <= self.spec_total() by {
                    assert(old(self).spec_connectors()[k].total_transactions <= old(self).spec_total());
                }
            }
            self.update_connector(name.as_str(), succ, amount);
        }

        let has_method = event.payment_method.is_some();
        if has_method {
            let name = match &event.payment_method {
                Some(m) => m.clone(),
                None => String::new(),
            };
            proof {
                assert forall|k: int|
                    0 <= k < self.spec_methods().len() implies (
                #[trigger] self.spec_methods()[k]).successful_transactions
                    <= self.spec_methods()[k].total_transactions < u64::MAX by {
                    assert(old(self).spec_methods()[k].total_transactions <= old(self).spec_total());
                }
                assert forall|k: int|
                    0 <= k < self.spec_methods().len() implies (
                #[trigger] self.spec_methods()[k]).total_transactions <= self.spec_total() by {
                    assert(old(self).spec_methods()[k].total_transactions <= old(self).spec_total());
                }
            }
            self.update_method(name.as_str(), succ, amount);
        }

        let ghost conns_now = self.spec_connectors();
        let ghost methods_now = self.spec_methods();
        proof {
            assert forall|a: int, b: int|
                0 <= a < b < conns_now.len() implies (#[trigger] conns_now[a]).connector@ != (
            #[trigger] conns_now[b]).connector@ by {
                if event.connector is None {
                    assert(conns_now == old(self).spec_connectors());
                }
            }
            assert forall|k: int|
                0 <= k < conns_now.len() implies (#[trigger] conns_now[k]).successful_transactions
                <= conns_now[k].total_transactions <= old(self).spec_total() + 1 by {
                if event.connector is None {
                    assert(conns_now == old(self).spec_connectors());
                    assert(old(self).spec_connectors()[k].total_transactions <= old(self).spec_total());
                }
            }
            assert forall|a: int, b: int|
                0 <= a < b < methods_now.len() implies (#[trigger] methods_now[a]).method@ != (
            #[trigger] methods_now[b]).method@ by {
                if event.payment_method is None {
                    assert(methods_now == old(self).spec_methods());
                }
            }
            assert forall|k: int|
                0 <= k < methods_now.len() implies (#[trigger] methods_now[k]).successful_transactions
                <= methods_now[k].total_transactions <= old(self).spec_total() + 1 by {
                if event.payment_method is None {
                    assert(methods_now == old(self).spec_methods());
                    assert(old(self).spec_methods()[k].total_transactions <= old(self).spec_total());
                }
            }
        }
        self.total_payments = self.total_payments + 1;
        if succ {
            self.successful_payments = self.successful_payments + 1;
        } else if fail {
            self.failed_payments = self.failed_payments + 1;
        }
        self.total_amount = sat_add_i64_exec(self.total_amount, amount);
        self.period_end = Some(now);

        let retention: u64 = (self.config.analytics.retention_days as u64) * 86400;
        let cutoff: u64 = if now >= retention {
            now - retention
        } else {
            0
        };
        self.time_series_data.push(TimeSeriesPoint { timestamp: event.timestamp, value: amount });
        let ghost pushed = self.spec_series();
        self.prune_series(cutoff);

        proof {
            assert(self.spec_connectors() == conns_now);
            assert(self.spec_methods() == methods_now);
            assert forall|a: int, b: int|
                0 <= a < b < self.spec_connectors().len() implies (
            #[trigger] self.spec_connectors()[a]).connector@ != (
            #[trigger] self.spec_connectors()[b]).connector@ by {
                assert(self.spec_connectors()[a] == conns_now[a]);
                assert(self.spec_connectors()[b] == conns_now[b]);
            }
            assert forall|k: int|
                0 <= k < self.spec_connectors().len() implies (
            #[trigger] self.spec_connectors()[k]).successful_transactions
                <= self.spec_connectors()[k].total_transactions <= self.spec_total() by {
                assert(self.spec_connectors()[k] == conns_now[k]);
            }
            assert forall|a: int, b: int|
                0 <= a < b < self.spec_methods().len() implies (
            #[trigger] self.spec_methods()[a]).method@ != (#[trigger] self.spec_methods()[b]).method@ by {
                assert(self.spec_methods()[a] == methods_now[a]);
                assert(self.spec_methods()[b] == methods_now[b]);
            }
            assert forall|k: int|
                0 <= k < self.spec_methods().len() implies (
            #[trigger] self.spec_methods()[k]).successful_transactions
                <= self.spec_methods()[k].total_transactions <= self.spec_total() by {
                assert(self.spec_methods()[k] == methods_now[k]);
            }
            lemma_filter_members(pushed, retained(cutoff));
            assert forall|k: int|
                0 <= k < self.spec_series().len() implies -AMOUNT_LIMIT
                <= (#[trigger] self.spec_series()[k]).value <= AMOUNT_LIMIT by {
                assert(self.spec_series()[k] == pushed.filter(retained(cutoff))[k]);
                let j = choose|j: int|
                    0 <= j < pushed.len() && pushed[j] == pushed.filter(retained(cutoff))[k];
                assert(0 <= j < pushed.len() && pushed[j] == self.spec_series()[k]);
                if j < pushed.len() - 1 {
                    assert(pushed[j] == old(self).spec_series()[j]);
                }
            }
        }
        Ok(())
    }

    /// Step the aggregate of one connector, creating it on first
    /// observation.
    #[verifier::loop_isolation(false)]
    fn update_connector(&mut self, name: &str, succ: bool, amount: i64)
        requires
            forall|i: int, j: int|
                0 <= i < j < old(self).spec_connectors().len() ==> (#[trigger] old(self).spec_connectors()[i]).connector@ != (#[trigger] old(self).spec_connectors()[j]).connector@,
            forall|i: int|
                0 <= i < old(self).spec_connectors().len() ==> (#[trigger] old(self).spec_connectors()[i]).successful_transactions <= old(self).spec_connectors()[i].total_transactions < u64::MAX,
            forall|i: int|
                0 <= i < old(self).spec_connectors().len() ==> (#[trigger] old(self).spec_connectors()[i]).total_transactions <= old(self).spec_total(),
            old(self).spec_total() < u64::MAX,
        ensures
            *final(self) == (AnalyticsEngine {
                connector_stats: final(self).connector_stats,
                ..*old(self)
            }),
            conns_updated(
                old(self).spec_connectors(),
                final(self).spec_connectors(),
                name@,
                succ,
                amount as int,
            ),
            forall|i: int, j: int|
                0 <= i < j < final(self).spec_connectors().len() ==> (
                #[trigger] final(self).spec_connectors()[i]).connector@ != (
                #[trigger] final(self).spec_connectors()[j]).connector@,
            forall|i: int|
                0 <= i < final(self).spec_connectors().len() ==> (
                #[trigger] final(self).spec_connectors()[i]).successful_transactions <= final(self).spec_connectors()[i].total_transactions,
            forall|i: int|
                0 <= i < final(self).spec_connectors().len() ==> (#[trigger] final(self).spec_connectors()[i]).total_transactions <= old(self).spec_total() + 1,
    {
        let n = self.connector_stats.len();
        let mut i: usize = 0;
        while i < n
            invariant
                *self == *old(self),
                n == self.spec_connectors().len(),
                i <= n,
                forall|k: int|
                    0 <= k < n ==> (#[trigger] self.spec_connectors()[k]).successful_transactions
                        <= self.spec_connectors()[k].total_transactions < u64::MAX,
                forall|k: int|
                    0 <= k < i ==> (#[trigger] self.spec_connectors()[k]).connector@ != name@,
            decreases n - i,
        {
            if str_equal(self.connector_stats[i].connector.as_str(), name) {
                let m = &self.connector_stats[i];
                let updated = ConnectorMetrics {
                    connector: m.connector.clone(),
                    total_transactions: m.total_transactions + 1,
                    successful_transactions: if succ {
                        m.successful_transactions + 1
                    } else {
                        m.successful_transactions
                    },
                    total_latency_ms: m.total_latency_ms,
                    total_amount: sat_add_i64_exec(m.total_amount, amount),
                };
                self.connector_stats.set(i, updated);
                proof {
                    assert(final(self).spec_connectors()[i as int] == conn_step(
                        old(self).spec_connectors()[i as int],
                        succ,
                        amount as int,
                    ));
                    assert forall|k: int|
                        0 <= k < final(self).spec_connectors().len() implies (#[trigger] final(self).spec_connectors()[k]).connector@ == old(self).spec_connectors()[k].connector@ by {
                        if k != i as int {
                            assert(final(self).spec_connectors()[k] == old(self).spec_connectors()[k]);
                        }
                    }
                    assert forall|a: int, b: int|
                        0 <= a < b < final(self).spec_connectors().len() implies (#[trigger] final(self).spec_connectors()[a]).connector@ != (#[trigger] final(self).spec_connectors()[b]).connector@ by {
                        assert(old(self).spec_connectors()[a].connector@ != old(self).spec_connectors()[b].connector@);
                    }
                    assert forall|k: int|
                        0 <= k < final(self).spec_connectors().len() implies (#[trigger] final(self).spec_connectors()[k]).total_transactions <= old(self).spec_total() + 1 by {
                        if k != i as int {
                            assert(final(self).spec_connectors()[k] == old(self).spec_connectors()[k]);
                        }
                        assert(old(self).spec_connectors()[k].total_transactions <= old(self).spec_total());
                    }
                }
                return ;
            }
            i = i + 1;
        }
        let fresh = ConnectorMetrics {
            connector: String::from_str(name),
            total_transactions: 1,
            successful_transactions: if succ {
                1
            } else {
                0
            },
            total_latency_ms: 0,
            total_amount: sat_add_i64_exec(0, amount),
        };
        let ghost gfresh = fresh;
        self.connector_stats.push(fresh);
        proof {
            assert(final(self).spec_connectors().drop_last() =~= old(self).spec_connectors());
            assert forall|k: int|
                0 <= k < final(self).spec_connectors().len() - 1 implies #[trigger] final(self).spec_connectors()[k] == old(self).spec_connectors()[k] by {
                assert(final(self).spec_connectors().drop_last()[k] == old(self).spec_connectors()[k]);
            }
            assert forall|k: int|
                0 <= k < final(self).spec_connectors().len() implies (#[trigger] final(self).spec_connectors()[k]).total_transactions <= old(self).spec_total() + 1 by {
                if k < final(self).spec_connectors().len() - 1 {
                    assert(final(self).spec_connectors()[k] == old(self).spec_connectors()[k]);
                    assert(old(self).spec_connectors()[k].total_transactions <= old(self).spec_total());
                } else {
                    assert(final(self).spec_connectors()[k] == gfresh);
                }
            }
        }
    }

    /// Step the aggregate of one payment method, creating it on first
    /// observation.
    #[verifier::loop_isolation(false)]
    fn update_method(&mut self, name: &str, succ: bool, amount: i64)
        requires
            forall|i: int, j: int|
                0 <= i < j < old(self).spec_methods().len() ==> (#[trigger] old(self).spec_methods()[i]).method@ != (#[trigger] old(self).spec_methods()[j]).method@,
            forall|i: int|
                0 <= i < old(self).spec_methods().len() ==> (#[trigger] old(self).spec_methods()[i]).successful_transactions <= old(self).spec_methods()[i].total_transactions < u64::MAX,
            forall|i: int|
                0 <= i < old(self).spec_methods().len() ==> (#[trigger] old(self).spec_methods()[i]).total_transactions <= old(self).spec_total(),
            old(self).spec_total() < u64::MAX,
        ensures
            *final(self) == (AnalyticsEngine {
                payment_method_stats: final(self).payment_method_stats,
                ..*old(self)
            }),
            methods_updated(
                old(self).spec_methods(),
                final(self).spec_methods(),
                name@,
                succ,
                amount as int,
            ),
            forall|i: int, j: int|
                0 <= i < j < final(self).spec_methods().len() ==> (
                #[trigger] final(self).spec_methods()[i]).method@ != (
                #[trigger] final(self).spec_methods()[j]).method@,
            forall|i: int|
                0 <= i < final(self).spec_methods().len() ==> (
                #[trigger] final(self).spec_methods()[i]).successful_transactions <= final(self).spec_methods()[i].total_transactions,
            forall|i: int|
                0 <= i < final(self).spec_methods().len() ==> (#[trigger] final(self).spec_methods()[i]).total_transactions <= old(self).spec_total() + 1,
    {
        let n = self.payment_method_stats.len();
        let mut i: usize = 0;
        while i < n
            invariant
                *self == *old(self),
                n == self.spec_methods().len(),
                i <= n,
                forall|k: int|
                    0 <= k < n ==> (#[trigger] self.spec_methods()[k]).successful_transactions
                        <= self.spec_methods()[k].total_transactions < u64::MAX,
                forall|k: int| 0 <= k < i ==> (#[trigger] self.spec_methods()[k]).method@ != name@,
            decreases n - i,
        {
            if str_equal(self.payment_method_stats[i].method.as_str(), name) {
                let m = &self.payment_method_stats[i];
                let updated = PaymentMethodMetrics {
                    method: m.method.clone(),
                    total_transactions: m.total_transactions + 1,
                    successful_transactions: if succ {
                        m.successful_transactions + 1
                    } else {
                        m.successful_transactions
                    },
                    total_amount: sat_add_i64_exec(m.total_amount, amount),
                };
                self.payment_method_stats.set(i, updated);
                proof {
                    assert(final(self).spec_methods()[i as int] == method_step(
                        old(self).spec_methods()[i as int],
                        succ,
                        amount as int,
                    ));
                    assert forall|k: int|
                        0 <= k < final(self).spec_methods().len() implies (#[trigger] final(self).spec_methods()[k]).method@ == old(self).spec_methods()[k].method@ by {
                        if k != i as int {
                            assert(final(self).spec_methods()[k] == old(self).spec_methods()[k]);
                        }
                    }
                    assert forall|a: int, b: int|
                        0 <= a < b < final(self).spec_methods().len() implies (#[trigger] final(self).spec_methods()[a]).method@ != (#[trigger] final(self).spec_methods()[b]).method@ by {
                        assert(old(self).spec_methods()[a].method@ != old(self).spec_methods()[b].method@);
                    }
                    assert forall|k: int|
                        0 <= k < final(self).spec_methods().len() implies (#[trigger] final(self).spec_methods()[k]).total_transactions <= old(self).spec_total() + 1 by {
                        if k != i as int {
                            assert(final(self).spec_methods()[k] == old(self).spec_methods()[k]);
                        }
                        assert(old(self).spec_methods()[k].total_transactions <= old(self).spec_total());
                    }
                }
                return ;
            }
            i = i + 1;
        }
        let fresh = PaymentMethodMetrics {
            method: String::from_str(name),
            total_transactions: 1,
            successful_transactions: if succ {
                1
            } else {
                0
            },
            total_amount: sat_add_i64_exec(0, amount),
        };
        let ghost gfresh = fresh;
        self.payment_method_stats.push(fresh);
        proof {
            assert(final(self).spec_methods().drop_last() =~= old(self).spec_methods());
            assert forall|k: int|
                0 <= k < final(self).spec_methods().len() - 1 implies #[trigger] final(self).spec_methods()[k] == old(self).spec_methods()[k] by {
                assert(final(self).spec_methods().drop_last()[k] == old(self).spec_methods()[k]);
            }
            assert forall|k: int|
                0 <= k < final(self).spec_methods().len() implies (#[trigger] final(self).spec_methods()[k]).total_transactions <= old(self).spec_total() + 1 by {
                if k < final(self).spec_methods().len() - 1 {
                    assert(final(self).spec_methods()[k] == old(self).spec_methods()[k]);
                    assert(old(self).spec_methods()[k].total_transactions <= old(self).spec_total());
                } else {
                    assert(final(self).spec_methods()[k] == gfresh);
                }
            }
        }
    }

    /// Drop buffered samples at or before the cutoff.
    fn prune_series(&mut self, cutoff: u64)
        ensures
            *final(self) == (AnalyticsEngine {
                time_series_data: final(self).time_series_data,
                ..*old(self)
            }),
            final(self).spec_series() == old(self).spec_series().filter(retained(cutoff)),
    {
        let n = self.time_series_data.len();
        let mut kept: Vec<TimeSeriesPoint> = Vec::new();
        proof {
            reveal(Seq::filter);
            assert(self.spec_series().take(0).filter(retained(cutoff)) =~= Seq::<
                TimeSeriesPoint,
            >::empty());
        }
        let mut i: usize = 0;
        while i < n
            invariant
                n == self.spec_series().len(),
                *self == *old(self),
                i <= n,
                kept@ == self.spec_series().take(i as int).filter(retained(cutoff)),
            decreases n - i,
        {
            let p = self.time_series_data[i];
            proof {
                reveal(Seq::filter);
                let pr = retained(cutoff);
                let pre = self.spec_series().take(i as int);
                let cur = self.spec_series().take(i + 1 as int);
                assert(cur.drop_last() =~= pre);
                assert(cur.last() == self.spec_series()[i as int]);
                assert(cur.filter(pr) == if pr(cur.last()) {
                    pre.filter(pr).push(cur.last())
                } else {
                    pre.filter(pr)
                });
            }
            if p.timestamp > cutoff {
                kept.push(p);
            }
            i = i + 1;
        }
        proof {
            reveal(Seq::filter);
            assert(self.spec_series().take(n as int) =~= self.spec_series());
        }
        self.time_series_data = kept;
    }

    /// Fold one event in against the wall clock. Whatever the clock
    /// read, the outcome is the fold at some reading.
    pub fn process_event(&mut self, event: &PaymentEvent) -> (r: Result<(), AnalyticsError>)
        requires
            old(self).wf(),
            old(self).spec_total() < u64::MAX,
            event.wf(),
        ensures
            final(self).wf(),
            r is Ok,
            exists|now: u64| Self::process_post(*old(self), *final(self), *event, now),
    {
        let t = now_seconds();
        let now: u64 = if t < 0 {
            0
        } else {
            t as u64
        };
        let r = self.process_event_at(event, now);
        proof {
            assert(Self::process_post(*old(self), *final(self), *event, now));
        }
        r
    }
}

/// Every entry a filter keeps stands somewhere in the base sequence.
proof fn lemma_filter_members(s: Seq<TimeSeriesPoint>, pred: spec_fn(TimeSeriesPoint) -> bool)
    ensures
        forall|i: int|
            0 <= i < s.filter(pred).len() ==> exists|j: int|
                0 <= j < s.len() && s[j] == #[trigger] s.filter(pred)[i],
    decreases s.len(),
{
    reveal(Seq::filter);
    if s.len() > 0 {
        lemma_filter_members(s.drop_last(), pred);
        let sub = s.drop_last().filter(pred);
        assert forall|i: int|
            0 <= i < s.filter(pred).len() implies exists|j: int|
                0 <= j < s.len() && s[j] == #[trigger] s.filter(pred)[i] by {
            if i < sub.len() {
                assert(s.filter(pred)[i] == sub[i]);
                let j = choose|j: int| 0 <= j < s.drop_last().len() && s.drop_last()[j] == sub[i];
                assert(s[j] == s.filter(pred)[i]);
            } else {
                assert(s.filter(pred)[i] == s.last());
                assert(s[s.len() - 1] == s.filter(pred)[i]);
            }
        }
    }
}

/// Saturating signed addition.
fn sat_add_i64_exec(a: i64, b: i64) -> (r: i64)
    ensures
        r as int == sat_add_i64(a as int, b as int),
{
    match a.checked_add(b) {
        Some(v) => v,
        None => {
            if b > 0 {
                i64::MAX
            } else {
                i64::MIN
            }
        },
    }
}


impl AnalyticsEngine {
    /// Build the ranked top-connector rows of a summary.
    fn build_top_connectors(&self) -> (r: Vec<ConnectorStats>)
        requires
            forall|i: int|
                0 <= i < self.spec_connectors().len() ==> (#[trigger] self.spec_connectors()[i]).successful_transactions
                    <= self.spec_connectors()[i].total_transactions,
        ensures
            exists|ord: Seq<(u64, usize)>|
                #[trigger] ranked_connector_rows(self.spec_connectors(), ord, r@),
    {
        let n = self.connector_stats.len();
        let mut pairs: Vec<(u64, usize)> = Vec::new();
        let mut i: usize = 0;
        while i < n
            invariant
                n == self.spec_connectors().len(),
                i <= n,
                pairs@.len() == i,
                forall|k: int|
                    0 <= k < i ==> #[trigger] pairs@[k] == (
                        self.spec_connectors()[k].total_transactions,
                        k as usize,
                    ),
            decreases n - i,
        {
            pairs.push((self.connector_stats[i].total_transactions, i));
            i = i + 1;
        }
        proof {
            assert(pairs@ =~= conn_rank_pairs(self.spec_connectors()));
        }
        sort_pairs_desc(&mut pairs);
        proof {
            lemma_sorted_pairs_valid(
                conn_rank_pairs(self.spec_connectors()),
                pairs@,
                |k: int| self.spec_connectors()[k].total_transactions,
            );
        }
        let ghost ord = pairs@;
        let mut out: Vec<ConnectorStats> = Vec::new();
        let mut j: usize = 0;
        while j < n && j < 10
            invariant
                n == self.spec_connectors().len(),
                pairs@ == ord,
                pairs@.len() == n,
                forall|k: int|
                    0 <= k < self.spec_connectors().len() ==> (#[trigger] self.spec_connectors()[k]).successful_transactions
                        <= self.spec_connectors()[k].total_transactions,
                forall|k: int|
                    0 <= k < n ==> (#[trigger] ord[k]).1 < n,
                j <= n,
                j <= 10,
                out@.len() == j,
                forall|k: int|
                    0 <= k < j ==> #[trigger] out@[k] == connector_stats_of(
                        self.spec_connectors()[ord[k].1 as int],
                    ),
            decreases n - j,
        {
            let idx: usize = pairs[j].1;
            let m = &self.connector_stats[idx];
            let row = ConnectorStats {
                connector: m.connector.clone(),
                total_transactions: m.total_transactions,
                success_rate: rate_bp_exec(m.successful_transactions, m.total_transactions),
                avg_latency_ms: if m.total_transactions > 0 {
                    m.total_latency_ms / m.total_transactions
                } else {
                    0
                },
                total_amount: m.total_amount,
            };
            proof {
                assert(rate_bp(
                    m.successful_transactions as int,
                    m.total_transactions as int,
                ) <= 10_000) by (nonlinear_arith)
                    requires
                        m.successful_transactions <= m.total_transactions,
                ;
                assert(row == connector_stats_of(self.spec_connectors()[ord[j as int].1 as int]));
            }
            out.push(row);
            j = j + 1;
        }
        proof {
            assert(ranked_connector_rows(self.spec_connectors(), ord, out@));
        }
        out
    }

    /// Build the ranked top-method rows of a summary.
    fn build_top_methods(&self) -> (r: Vec<PaymentMethodStats>)
        requires
            forall|i: int|
                0 <= i < self.spec_methods().len() ==> (#[trigger] self.spec_methods()[i]).successful_transactions
                    <= self.spec_methods()[i].total_transactions,
        ensures
            exists|ord: Seq<(u64, usize)>|
                #[trigger] ranked_method_rows(self.spec_methods(), ord, r@),
    {
        let n = self.payment_method_stats.len();
        let mut pairs: Vec<(u64, usize)> = Vec::new();
        let mut i: usize = 0;
        while i < n
            invariant
                n == self.spec_methods().len(),
                i <= n,
                pairs@.len() == i,
                forall|k: int|
                    0 <= k < i ==> #[trigger] pairs@[k] == (
                        self.spec_methods()[k].total_transactions,
                        k as usize,
                    ),
            decreases n - i,
        {
            pairs.push((self.payment_method_stats[i].total_transactions, i));
            i = i + 1;
        }
        proof {
            assert(pairs@ =~= method_rank_pairs(self.spec_methods()));
        }
        sort_pairs_desc(&mut pairs);
        proof {
            lemma_sorted_pairs_valid(
                method_rank_pairs(self.spec_methods()),
                pairs@,
                |k: int| self.spec_methods()[k].total_transactions,
            );
        }
        let ghost ord = pairs@;
        let mut out: Vec<PaymentMethodStats> = Vec::new();
        let mut j: usize = 0;
        while j < n && j < 10
            invariant
                n == self.spec_methods().len(),
                pairs@ == ord,
                pairs@.len() == n,
                forall|k: int|
                    0 <= k < self.spec_methods().len() ==> (#[trigger] self.spec_methods()[k]).successful_transactions
                        <= self.spec_methods()[k].total_transactions,
                forall|k: int|
                    0 <= k < n ==> (#[trigger] ord[k]).1 < n,
                j <= n,
                j <= 10,
                out@.len() == j,
                forall|k: int|
                    0 <= k < j ==> #[trigger] out@[k] == method_stats_of(
                        self.spec_methods()[ord[k].1 as int],
                    ),
            decreases n - j,
        {
            let idx: usize = pairs[j].1;
            let m = &self.payment_method_stats[idx];
            let row = PaymentMethodStats {
                payment_method: m.method.clone(),
                total_transactions: m.total_transactions,
                success_rate: rate_bp_exec(m.successful_transactions, m.total_transactions),
                total_amount: m.total_amount,
            };
            proof {
                assert(rate_bp(
                    m.successful_transactions as int,
                    m.total_transactions as int,
                ) <= 10_000) by (nonlinear_arith)
                    requires
                        m.successful_transactions <= m.total_transactions,
                ;
                assert(row == method_stats_of(self.spec_methods()[ord[j as int].1 as int]));
            }
            out.push(row);
            j = j + 1;
        }
        proof {
            assert(ranked_method_rows(self.spec_methods(), ord, out@));
        }
        out
    }

    /// Derive the analytics summary from the aggregates alone, at a
    /// given reading of the clock (used only when no event has been
    /// folded in yet).
    pub fn get_summary_at(&self, now: u64) -> (r: AnalyticsSummary)
        requires
            self.wf(),
        ensures
            r.total_payments == self.spec_total(),
            r.successful_payments == self.spec_successful(),
            r.failed_payments == self.spec_failed(),
            r.total_amount == self.spec_amount(),
            r.success_rate == rate_bp(self.spec_successful() as int, self.spec_total() as int),
            r.avg_amount == if self.spec_total() > 0 {
                div_trunc(self.spec_amount() as int, self.spec_total() as int)
            } else {
                0int
            },
            r.period_start == self.spec_period_start(),
            r.period_end == match self.spec_period_end() {
                Some(t) => t,
                None => now,
            },
            r.anomalies_detected == 0,
            r.healing_actions_taken == 0,
            exists|ord: Seq<(u64, usize)>|
                #[trigger] ranked_connector_rows(self.spec_connectors(), ord, r.top_connectors@),
            exists|ord: Seq<(u64, usize)>|
                #[trigger] ranked_method_rows(self.spec_methods(), ord, r.top_payment_methods@),
    {
        let success_rate: u32 = rate_bp_exec_engine(self.successful_payments, self.total_payments);
        let avg_amount: i64 = if self.total_payments > 0 {
            div_trunc_exec(self.total_amount, self.total_payments)
        } else {
            0
        };
        let top_connectors = self.build_top_connectors();
        let top_payment_methods = self.build_top_methods();
        let ghost tc = top_connectors@;
        let ghost tm = top_payment_methods@;
        let result = AnalyticsSummary {
            period_start: self.period_start,
            period_end: match self.period_end {
                Some(t) => t,
                None => now,
            },
            total_payments: self.total_payments,
            successful_payments: self.successful_payments,
            failed_payments: self.failed_payments,
            success_rate,
            total_amount: self.total_amount,
            avg_amount,
            top_connectors,
            top_payment_methods,
            anomalies_detected: 0,
            healing_actions_taken: 0,
        };
        proof {
            let ord1 = choose|ord: Seq<(u64, usize)>|
                #[trigger] ranked_connector_rows(self.spec_connectors(), ord, tc);
            assert(result.top_connectors@ == tc);
            assert(ranked_connector_rows(self.spec_connectors(), ord1, result.top_connectors@));
            let ord2 = choose|ord: Seq<(u64, usize)>|
                #[trigger] ranked_method_rows(self.spec_methods(), ord, tm);
            assert(result.top_payment_methods@ == tm);
            assert(ranked_method_rows(self.spec_methods(), ord2, result.top_payment_methods@));
        }
        result
    }

    /// Derive the analytics summary against the wall clock; only an
    /// empty period's end depends on the reading.
    pub fn get_summary(&self) -> (r: AnalyticsSummary)
        requires
            self.wf(),
        ensures
            r.total_payments == self.spec_total(),
            r.successful_payments == self.spec_successful(),
            r.failed_payments == self.spec_failed(),
            r.total_amount == self.spec_amount(),
            r.success_rate == rate_bp(self.spec_successful() as int, self.spec_total() as int),
            r.avg_amount == if self.spec_total() > 0 {
                div_trunc(self.spec_amount() as int, self.spec_total() as int)
            } else {
                0int
            },
            r.period_start == self.spec_period_start(),
            self.spec_period_end() matches Some(t) ==> r.period_end == t,
            r.anomalies_detected == 0,
            r.healing_actions_taken == 0,
            exists|ord: Seq<(u64, usize)>|
                #[trigger] ranked_connector_rows(self.spec_connectors(), ord, r.top_connectors@),
            exists|ord: Seq<(u64, usize)>|
                #[trigger] ranked_method_rows(self.spec_methods(), ord, r.top_payment_methods@),
    {
        let t = now_seconds();
        let now: u64 = if t < 0 {
            0
        } else {
            t as u64
        };
        self.get_summary_at(now)
    }

    /// What a forecast request hands back at one reading of the clock:
    /// an error while predictions are off or under a hundred samples
    /// stand buffered; otherwise a forecast around the recent window's
    /// mean, jitter-bounded by its deviation, with a symmetric
    /// confidence interval.
    pub open spec fn predict_post(
        eng: AnalyticsEngine,
        metric: Seq<char>,
        now: u64,
        r: Result<PredictionResult, AnalyticsError>,
    ) -> bool {
        let n = eng.spec_series().len();
        let mean = window_mean(eng.spec_series());
        let var = window_var(eng.spec_series());
        if !eng.spec_config().analytics.enable_predictions {
            r matches Err(e) && e is Computation
        } else if n < 100 {
            r matches Err(e) && e is InsufficientData
        } else {
            r matches Ok(p) && {
                &&& p.metric@ == metric
                &&& p.timestamp == now
                &&& p.model_accuracy == Some(8500u32)
                &&& p.predictions.len() == eng.spec_config().analytics.forecast_horizon_days
                &&& forall|i: int|
                    0 <= i < p.predictions.len() ==> (#[trigger] p.predictions[i]).timestamp
                        == sat_add_u64(now as int, (i + 1) * 86400)
                &&& exists|sig: int|
                    {
                        &&& #[trigger] is_isqrt(sig, var)
                        &&& p.confidence_interval.0 == mean - sig
                        &&& p.confidence_interval.1 == mean + sig
                        &&& forall|i: int|
                            0 <= i < p.predictions.len() ==> mean - sig <= (
                            #[trigger] p.predictions[i]).value <= mean + sig
                    }
            }
        }
    }

    /// Generate a forecast at a given reading of the clock.
    pub fn predict_at(&self, metric: &str, now: u64) -> (r: Result<
        PredictionResult,
        AnalyticsError,
    >)
        requires
            self.wf(),
        ensures
            Self::predict_post(*self, metric@, now, r),
    {
        if !self.config.analytics.enable_predictions {
            return Err(
                AnalyticsError::Computation(String::from_str("Predictions are disabled")),
            );
        }
        let n = self.time_series_data.len();
        if n < 100 {
            let mut msg = String::from_str("Need at least 100 data points, have ");
            msg.append(u64_to_string(n as u64).as_str());
            return Err(AnalyticsError::InsufficientData(msg));
        }

        let start = n - 20;
        let ghost vals = window_vals(self.spec_series());
        let mut sum: i64 = 0;
        let mut i: usize = 0;
        while i < 20
            invariant
                self.wf(),
                n == self.spec_series().len(),
                n >= 100,
                start == n - 20,
                vals == window_vals(self.spec_series()),
                i <= 20,
                sum == sum_ints(vals.take(i as int)),
                -(i as int) * AMOUNT_LIMIT <= sum <= (i as int) * AMOUNT_LIMIT,
            decreases 20 - i,
        {
            let v = self.time_series_data[start + i].value;
            proof {
                assert(vals.take(i + 1 as int).drop_last() =~= vals.take(i as int));
                assert(vals.take(i + 1 as int).last() == vals[i as int]);
                assert(vals[i as int] == self.spec_series()[n - 20 + i].value);
            }
            sum = sum + v;
            i = i + 1;
        }
        proof {
            assert(vals.take(20) =~= vals);
        }

        let mean: i64 = div_trunc_exec(sum, 20);
        proof {
            assert(-AMOUNT_LIMIT <= mean <= AMOUNT_LIMIT) by (nonlinear_arith)
                requires
                    mean as int == div_trunc(sum as int, 20),
                    -20 * AMOUNT_LIMIT <= sum <= 20 * AMOUNT_LIMIT,
            ;
        }

        let mut ss: u128 = 0;
        let mut k: usize = 0;
        while k < 20
            invariant
                self.wf(),
                n == self.spec_series().len(),
                n >= 100,
                start == n - 20,
                vals == window_vals(self.spec_series()),
                -AMOUNT_LIMIT <= mean <= AMOUNT_LIMIT,
                k <= 20,
                ss == sumsq(vals.take(k as int), mean as int),
                ss <= (k as int) * 4_000_000_000_000_000_000_000_000,
            decreases 20 - k,
        {
            let v = self.time_series_data[start + k].value;
            proof {
                assert(vals.take(k + 1 as int).drop_last() =~= vals.take(k as int));
                assert(vals.take(k + 1 as int).last() == vals[k as int]);
                assert(vals[k as int] == self.spec_series()[n - 20 + k].value);
            }
            let d: i64 = v - mean;
            proof {
                assert(0 <= (d as int) * (d as int) <= 4_000_000_000_000_000_000_000_000)
                    by (nonlinear_arith)
                    requires
                        -2 * AMOUNT_LIMIT <= d <= 2 * AMOUNT_LIMIT,
                        AMOUNT_LIMIT == 1_000_000_000_000i64,
                ;
            }
            let dd: i128 = (d as i128) * (d as i128);
            ss = ss + (dd as u128);
            k = k + 1;
        }
        proof {
            assert(vals.take(20) =~= vals);
        }

        let var: u128 = ss / 20;
        let sig128: u128 = isqrt_u128(var);
        proof {
            assert(sig128 <= 2_000_000_000_000u128) by (nonlinear_arith)
                requires
                    (sig128 as int) * (sig128 as int) <= var,
                    var <= 4_000_000_000_000_000_000_000_000u128,
            ;
        }
        let sig: i64 = sig128 as i64;
        let ci_low: i64 = mean - sig;
        let ci_high: i64 = mean + sig;

        let horizon: u32 = self.config.analytics.forecast_horizon_days;
        let mut predictions: Vec<TimeSeriesPoint> = Vec::new();
        let mut day: u32 = 0;
        while day < horizon
            invariant
                0 <= sig <= 2_000_000_000_000i64,
                -AMOUNT_LIMIT <= mean <= AMOUNT_LIMIT,
                sig == sig128,
                day <= horizon,
                predictions@.len() == day,
                forall|j: int|
                    0 <= j < day ==> (#[trigger] predictions@[j]).timestamp == sat_add_u64(
                        now as int,
                        (j + 1) * 86400,
                    ),
                forall|j: int|
                    0 <= j < day ==> mean - sig <= (#[trigger] predictions@[j]).value <= mean
                        + sig,
            decreases horizon - day,
        {
            let ts: u64 = now.saturating_add(((day as u64) + 1) * 86400);
            let r16 = random_u16();
            let jmod: u16 = r16 % 10001;
            let jit: i64 = jmod as i64 - 5000;
            let jm: u128 = if jit >= 0 {
                jit as u128
            } else {
                (-jit) as u128
            };
            proof {
                assert((jm as int) * (sig128 as int) <= 10_000_000_000_000_000) by (nonlinear_arith)
                    requires
                        jm <= 5000,
                        0 <= sig128 <= 2_000_000_000_000u128,
                ;
            }
            let deltam: u128 = jm * sig128 / 20000;
            proof {
                assert(jm * sig128 <= 20000 * sig128) by (nonlinear_arith)
                    requires
                        jm <= 5000,
                        0 <= sig128,
                ;
                assert(deltam <= sig128) by (nonlinear_arith)
                    requires
                        deltam == jm * sig128 / 20000,
                        jm * sig128 <= 20000 * sig128,
                        0 <= sig128,
                ;
            }
            let delta: i64 = if jit >= 0 {
                deltam as i64
            } else {
                -(deltam as i64)
            };
            let value: i64 = mean + delta;
            predictions.push(TimeSeriesPoint { timestamp: ts, value });
            day = day + 1;
        }

        let result = PredictionResult {
            id: generate_id(),
            timestamp: now,
            metric: String::from_str(metric),
            predictions,
            confidence_interval: (ci_low, ci_high),
            model_accuracy: Some(8500),
        };
        proof {
            let sg = sig as int;
            assert(is_isqrt(sg, window_var(self.spec_series())));
            assert(result.confidence_interval.0 == window_mean(self.spec_series()) - sg);
        }
        Ok(result)
    }

    /// Generate a forecast against the wall clock. Whatever the clock
    /// or the jitter source handed back, the outcome is a forecast at
    /// some reading.
    pub fn predict(&self, metric: &str) -> (r: Result<PredictionResult, AnalyticsError>)
        requires
            self.wf(),
        ensures
            exists|now: u64| Self::predict_post(*self, metric@, now, r),
    {
        let t = now_seconds();
        let now: u64 = if t < 0 {
            0
        } else {
            t as u64
        };
        let r = self.predict_at(metric, now);
        proof {
            assert(Self::predict_post(*self, metric@, now, r));
        }
        r
    }

    /// Reset the aggregates for a new period; the forecast buffer is
    /// kept.
    pub fn reset(&mut self)
        ensures
            old(self).wf() ==> final(self).wf(),
            final(self).spec_config() == old(self).spec_config(),
            final(self).spec_total() == 0,
            final(self).spec_successful() == 0,
            final(self).spec_failed() == 0,
            final(self).spec_amount() == 0,
            final(self).spec_period_end() is None,
            final(self).spec_connectors() == Seq::<ConnectorMetrics>::empty(),
            final(self).spec_methods() == Seq::<PaymentMethodMetrics>::empty(),
            final(self).spec_series() == old(self).spec_series(),
            old(self).wf() ==> forall|i: int|
                0 <= i < final(self).spec_series().len() ==> -AMOUNT_LIMIT <= (
                #[trigger] final(self).spec_series()[i]).value <= AMOUNT_LIMIT,
    {
        let t = now_seconds();
        let start: u64 = if t < 0 {
            0
        } else {
            t as u64
        };
        self.total_payments = 0;
        self.successful_payments = 0;
        self.failed_payments = 0;
        self.total_amount = 0;
        self.period_start = start;
        self.period_end = None;
        self.connector_stats = Vec::new();
        self.payment_method_stats = Vec::new();
        proof {
            if old(self).wf() {
                assert forall|i: int|
                    0 <= i < self.spec_series().len() implies -AMOUNT_LIMIT <= (
                #[trigger] self.spec_series()[i]).value <= AMOUNT_LIMIT by {
                    assert(old(self).spec_series()[i] == self.spec_series()[i]);
                    assert(-AMOUNT_LIMIT <= old(self).spec_series()[i].value <= AMOUNT_LIMIT);
                }
            }
        }
    }

    /// Get analytics statistics at a given reading of the clock.
    pub fn get_statistics_at(&self, now: u64) -> (r: AnalyticsStatistics)
        ensures
            r.total_events_processed == self.spec_total(),
            r.unique_connectors == self.spec_connectors().len(),
            r.unique_payment_methods == self.spec_methods().len(),
            r.time_series_points == self.spec_series().len(),
            r.data_freshness_seconds == freshness_at(self.spec_period_end(), now),
    {
        let freshness: i64 = match self.period_end {
            Some(e) => {
                let d: i128 = now as i128 - e as i128;
                if d > i64::MAX as i128 {
                    i64::MAX
                } else if d < i64::MIN as i128 {
                    i64::MIN
                } else {
                    d as i64
                }
            },
            None => 0,
        };
        AnalyticsStatistics {
            total_events_processed: self.total_payments,
            unique_connectors: self.connector_stats.len(),
            unique_payment_methods: self.payment_method_stats.len(),
            time_series_points: self.time_series_data.len(),
            data_freshness_seconds: freshness,
        }
    }

    /// Get analytics statistics against the wall clock; only the
    /// freshness field depends on the reading.
    pub fn get_statistics(&self) -> (r: AnalyticsStatistics)
        ensures
            r.total_events_processed == self.spec_total(),
            r.unique_connectors == self.spec_connectors().len(),
            r.unique_payment_methods == self.spec_methods().len(),
            r.time_series_points == self.spec_series().len(),
            exists|now: u64|
                r.data_freshness_seconds == #[trigger] freshness_at(self.spec_period_end(), now),
    {
        let t = now_seconds();
        let now: u64 = if t < 0 {
            0
        } else {
            t as u64
        };
        let r = self.get_statistics_at(now);
        proof {
            assert(r.data_freshness_seconds == freshness_at(self.spec_period_end(), now));
        }
        r
    }
}

/// Success rate of the engine-level counters; the split never exceeds
/// the total.
fn rate_bp_exec_engine(s: u64, t: u64) -> (r: u32)
    requires
        s <= t,
    ensures
        r as int == rate_bp(s as int, t as int),
{
    rate_bp_exec(s, t)
}

/// Success rate in basis points over machine counters.
fn rate_bp_exec(s: u64, t: u64) -> (r: u32)
    requires
        s <= t,
    ensures
        r as int == rate_bp(s as int, t as int),
{
    if t == 0 {
        0
    } else {
        let v: u128 = (s as u128) * 10_000 / (t as u128);
        proof {
            assert((s as int) * 10_000 / (t as int) <= 10_000) by (nonlinear_arith)
                requires
                    s <= t,
                    t > 0,
            ;
        }
        v as u32
    }
}

/// Division truncating towards zero, with a positive divisor.
fn div_trunc_exec(a: i64, b: u64) -> (r: i64)
    requires
        b > 0,
    ensures
        r as int == div_trunc(a as int, b as int),
{
    if a >= 0 {
        ((a as u64) / b) as i64
    } else {
        let mag: u64 = (-(a as i128)) as u64;
        let q: u64 = mag / b;
        if q == 9_223_372_036_854_775_808u64 {
            i64::MIN
        } else {
            proof {
                assert(q <= mag);
            }
            -(q as i64)
        }
    }
}

/// Totals after folding a sequence of event statuses: every event
/// counts towards the total, succeeded and failed ones towards their
/// splits.
pub open spec fn totals_after(st: Seq<Seq<char>>) -> (int, int, int)
    decreases st.len(),
{
    if st.len() == 0 {
        (0int, 0int, 0int)
    } else {
        let p = totals_after(st.drop_last());
        (
            p.0 + 1,
            p.1 + if st.last() == "succeeded"@ {
                1int
            } else {
                0int
            },
            p.2 + if st.last() == "failed"@ {
                1int
            } else {
                0int
            },
        )
    }
}

/// Over any sequence of events each of which succeeded or failed, the
/// summary counters partition the total: succeeded plus failed equals
/// the number of events folded in. (Each fold step of the engine
/// follows `totals_after` exactly, by the contract of
/// `process_event_at`.)
pub proof fn lemma_success_failure_partition(st: Seq<Seq<char>>)
    requires
        forall|i: int| 0 <= i < st.len() ==> st[i] == "succeeded"@ || st[i] == "failed"@,
    ensures
        totals_after(st).0 == st.len(),
        totals_after(st).1 + totals_after(st).2 == st.len(),
    decreases st.len(),
{
    assert("succeeded"@ != "failed"@) by {
        reveal_strlit("succeeded");
        reveal_strlit("failed");
        assert("succeeded"@.len() == 9);
        assert("failed"@.len() == 6);
    }
    if st.len() > 0 {
        assert(st.drop_last().len() == st.len() - 1);
        assert(forall|i: int|
            0 <= i < st.drop_last().len() ==> st.drop_last()[i] == #[trigger] st[i]);
        lemma_success_failure_partition(st.drop_last());
        assert(st.last() == st[st.len() - 1]);
    }
}

/// Over a sequence of succeeded events alone, every fold is counted
/// successful and none failed.
pub proof fn lemma_all_succeeded_totals(st: Seq<Seq<char>>)
    requires
        forall|i: int| 0 <= i < st.len() ==> st[i] == "succeeded"@,
    ensures
        totals_after(st) == (st.len() as int, st.len() as int, 0int),
    decreases st.len(),
{
    assert("succeeded"@ != "failed"@) by {
        reveal_strlit("succeeded");
        reveal_strlit("failed");
        assert("succeeded"@.len() == 9);
        assert("failed"@.len() == 6);
    }
    if st.len() > 0 {
        assert(forall|i: int|
            0 <= i < st.drop_last().len() ==> st.drop_last()[i] == #[trigger] st[i]);
        lemma_all_succeeded_totals(st.drop_last());
        assert(st.last() == st[st.len() - 1]);
    }
}

/// A forecast request with fewer than a hundred buffered samples
/// always fails for want of data (predictions being enabled).
pub proof fn lemma_predict_needs_data(
    eng: AnalyticsEngine,
    metric: Seq<char>,
    now: u64,
    r: Result<PredictionResult, AnalyticsError>,
)
    requires
        eng.spec_config().analytics.enable_predictions,
        eng.spec_series().len() < 100,
        AnalyticsEngine::predict_post(eng, metric, now, r),
    ensures
        r matches Err(e) && e is InsufficientData,
{
}

/// A successful forecast's confidence interval is symmetric around the
/// computed mean of the recent window.
pub proof fn lemma_prediction_interval_symmetric(
    eng: AnalyticsEngine,
    metric: Seq<char>,
    now: u64,
    r: Result<PredictionResult, AnalyticsError>,
)
    requires
        AnalyticsEngine::predict_post(eng, metric, now, r),
        r is Ok,
    ensures
        r matches Ok(p) && p.confidence_interval.0 + p.confidence_interval.1 == 2 * window_mean(
            eng.spec_series(),
        ),
        r matches Ok(p) && window_mean(eng.spec_series()) - p.confidence_interval.0
            == p.confidence_interval.1 - window_mean(eng.spec_series()),
{
}

} // verus!
