//! Anomaly detector: maintains rolling windows of volume, success and
//! amount signals, runs four independent detectors per event, and keeps
//! the highest-scoring finding of each event in a bounded history.

use vstd::prelude::*;

use crate::config::Settings;
use crate::ring::BoundedRing;
use crate::ring::ring_push;
use crate::types::AnomalyResult;
use crate::types::AnomalyType;
use crate::types::PaymentEvent;
use crate::types::AMOUNT_LIMIT;
use crate::utils::generate_id;
use crate::utils::isqrt_u128;
use crate::utils::now_seconds;
use crate::utils::str_equal;
use crate::analytics::div_trunc;
use crate::analytics::is_isqrt;
use crate::analytics::sum_ints;
use crate::analytics::sumsq;

verus! {

/// Anomaly detector error.
#[derive(Debug, Clone, PartialEq, Eq)]
pub enum AnomalyDetectorError {
    /// Detection error
    Detection(String),
    /// Insufficient data
    InsufficientData(String),
}

/// One rolling-window observation.
#[derive(Debug, Clone, Copy)]
pub struct TimePoint {
    /// Timestamp, seconds since the Unix epoch
    pub timestamp: u64,
    /// Observed value
    pub value: i64,
}

/// Anomaly statistics.
#[derive(Debug, Clone)]
pub struct AnomalyStatistics {
    /// Total anomalies recorded
    pub total_detected: usize,
    /// Recorded within the last day of the given clock reading
    pub detected_last_24h: usize,
    /// Average anomaly score in basis points
    pub avg_score: u32,
    /// Most common anomaly type
    pub most_common_type: Option<String>,
}

/// The integer square root as a spec-level function.
pub open spec fn spec_isqrt(v: int) -> int {
    choose|s: int| is_isqrt(s, v)
}

/// The integer square root is unique.
pub proof fn lemma_isqrt_unique(a: int, b: int, v: int)
    requires
        is_isqrt(a, v),
        is_isqrt(b, v),
    ensures
        a == b,
{
    if a < b {
        assert((a + 1) * (a + 1) <= b * b) by (nonlinear_arith)
            requires
                0 <= a,
                a + 1 <= b,
        ;
    }
    if b < a {
        assert((b + 1) * (b + 1) <= a * a) by (nonlinear_arith)
            requires
                0 <= b,
                b + 1 <= a,
        ;
    }
}

/// Values of a window's points.
pub open spec fn point_vals(s: Seq<TimePoint>) -> Seq<int> {
    Seq::new(s.len(), |i: int| s[i].value as int)
}

/// The volume detector's finding: with at least ten points, the sum of
/// the five most recent against the mean of the earlier points scaled
/// to the same span; a spike past double, a drop below half.
pub open spec fn volume_signal(vols: Seq<TimePoint>) -> Option<(AnomalyType, int)> {
    if vols.len() < 10 {
        None
    } else {
        let vals = point_vals(vols);
        let recent = sum_ints(vals.skip(vals.len() - 5));
        let earlier = sum_ints(vals.take(vals.len() - 5));
        let baseline = earlier * 5 / (vals.len() - 5);
        let floor = if baseline < 1 {
            1int
        } else {
            baseline
        };
        let ratio_bp = recent * 10_000 / floor;
        if ratio_bp > 20_000 {
            Some(
                (
                    AnomalyType::VolumeSpike,
                    if (ratio_bp - 10_000) / 2 < 10_000 {
                        (ratio_bp - 10_000) / 2
                    } else {
                        10_000int
                    },
                ),
            )
        } else if ratio_bp < 5_000 {
            Some(
                (
                    AnomalyType::VolumeDrop,
                    if 10_000 - ratio_bp < 10_000 {
                        10_000 - ratio_bp
                    } else {
                        10_000int
                    },
                ),
            )
        } else {
            None
        }
    }
}

/// The success-rate detector's finding: with at least twenty points,
/// the mean of the ten most recent pass/fail marks against the mean of
/// the earlier ones; fires once the drop passes twenty points of rate.
pub open spec fn success_signal(s: Seq<TimePoint>) -> Option<(AnomalyType, int)> {
    if s.len() < 20 {
        None
    } else {
        let vals = point_vals(s);
        let recent_bp = sum_ints(vals.skip(vals.len() - 10)) * 1_000;
        let baseline_bp = sum_ints(vals.take(vals.len() - 10)) * 10_000 / (vals.len() - 10);
        let drop = baseline_bp - recent_bp;
        if drop > 2_000 {
            Some(
                (
                    AnomalyType::HighFailureRate,
                    if drop * 5 < 10_000 {
                        drop * 5
                    } else {
                        10_000int
                    },
                ),
            )
        } else {
            None
        }
    }
}

/// The fraud detector's finding: an additive heuristic over the event
/// alone, firing once it passes the configured sensitivity.
pub open spec fn fraud_signal(e: PaymentEvent, sensitivity: int) -> Option<(AnomalyType, int)> {
    let score = (if e.amount matches Some(a) && a > 100_000 {
        3_000int
    } else {
        0int
    }) + (if e.error_code matches Some(c) && c@ == "card_declined"@ {
        2_000int
    } else {
        0int
    });
    if score > sensitivity {
        Some((AnomalyType::PotentialFraud, score))
    } else {
        None
    }
}

/// The amount detector's finding: with at least twenty buffered
/// amounts, the deviation of the incoming amount from the window mean
/// in units of the window deviation (floored at one); fires past three
/// deviations.
pub open spec fn amount_signal(window: Seq<TimePoint>, amount: int) -> Option<(AnomalyType, int)> {
    if window.len() < 20 {
        None
    } else {
        let vals = point_vals(window);
        let mean = div_trunc(sum_ints(vals), vals.len() as int);
        let var = sumsq(vals, mean) / vals.len() as int;
        let sigma0 = spec_isqrt(var);
        let sigma = if sigma0 < 1 {
            1int
        } else {
            sigma0
        };
        let dev = if amount >= mean {
            amount - mean
        } else {
            mean - amount
        };
        if dev > 3 * sigma {
            Some(
                (
                    AnomalyType::UnusualPattern,
                    if dev * 2_000 / sigma < 10_000 {
                        dev * 2_000 / sigma
                    } else {
                        10_000int
                    },
                ),
            )
        } else {
            None
        }
    }
}

/// The fixed remediation advice attached to each anomaly type.
pub open spec fn actions_of(t: AnomalyType) -> Seq<Seq<char>> {
    match t {
        AnomalyType::VolumeSpike => seq![
            "Monitor system resources"@,
            "Check for potential DDoS"@,
            "Scale up infrastructure if needed"@,
        ],
        AnomalyType::VolumeDrop => seq![
            "Check payment gateway connectivity"@,
            "Verify API availability"@,
            "Contact merchants to confirm issue"@,
        ],
        AnomalyType::HighFailureRate => seq![
            "Investigate connector issues"@,
            "Check for card network problems"@,
            "Review recent configuration changes"@,
            "Enable fallback routing"@,
        ],
        AnomalyType::PotentialFraud => seq![
            "Flag for manual review"@,
            "Apply additional verification"@,
            "Monitor merchant activity"@,
        ],
        AnomalyType::UnusualPattern => seq![
            "Review transaction details"@,
            "Verify merchant legitimacy"@,
        ],
        AnomalyType::PerformanceDegradation => Seq::<Seq<char>>::empty(),
        AnomalyType::Other => Seq::<Seq<char>>::empty(),
    }
}

/// The fixed description attached to each anomaly type.
pub open spec fn details_of(t: AnomalyType) -> Seq<char> {
    match t {
        AnomalyType::VolumeSpike => "Payment volume spike detected"@,
        AnomalyType::VolumeDrop => "Payment volume drop detected"@,
        AnomalyType::HighFailureRate => "High failure rate detected"@,
        AnomalyType::PotentialFraud => "Potential fraud detected"@,
        AnomalyType::UnusualPattern => "Unusual payment amount detected"@,
        AnomalyType::PerformanceDegradation => "Performance degradation detected"@,
        AnomalyType::Other => "Anomaly detected"@,
    }
}

/// The entity an anomaly of a type points at: the fleet for windowed
/// signals, the payment for per-event signals.
pub open spec fn entity_of(t: AnomalyType, e: PaymentEvent) -> Seq<char> {
    match t {
        AnomalyType::PotentialFraud => e.payment_id@,
        AnomalyType::UnusualPattern => e.payment_id@,
        _ => "system"@,
    }
}

/// Content equality of two anomaly records.
pub open spec fn anomaly_eq(a: AnomalyResult, b: AnomalyResult) -> bool {
    &&& a.id@ == b.id@
    &&& a.timestamp == b.timestamp
    &&& a.is_anomaly == b.is_anomaly
    &&& a.score == b.score
    &&& a.anomaly_type == b.anomaly_type
    &&& a.entity_id@ == b.entity_id@
    &&& a.details@ == b.details@
    &&& a.recommended_actions.deep_view() == b.recommended_actions.deep_view()
}

/// Anomaly detector with windowed statistical detection.
pub struct AnomalyDetector {
    config: Settings,
    volumes: BoundedRing<TimePoint>,
    success_rates: BoundedRing<TimePoint>,
    amounts: BoundedRing<TimePoint>,
    latencies: BoundedRing<TimePoint>,
    anomalies: BoundedRing<AnomalyResult>,
}

impl AnomalyDetector {
    /// The configuration the detector was created with.
    pub closed spec fn spec_config(&self) -> Settings {
        self.config
    }

    /// The volume window, oldest first.
    pub closed spec fn spec_volumes(&self) -> Seq<TimePoint> {
        self.volumes@
    }

    /// The success window, oldest first.
    pub closed spec fn spec_success(&self) -> Seq<TimePoint> {
        self.success_rates@
    }

    /// The amount window, oldest first.
    pub closed spec fn spec_amounts(&self) -> Seq<TimePoint> {
        self.amounts@
    }

    /// The latency window, oldest first.
    pub closed spec fn spec_latencies(&self) -> Seq<TimePoint> {
        self.latencies@
    }

    /// The recorded anomalies, oldest first.
    pub closed spec fn spec_anomalies(&self) -> Seq<AnomalyResult> {
        self.anomalies@
    }

    /// The shared capacity of the four rolling windows.
    pub closed spec fn spec_window_cap(&self) -> nat {
        self.volumes.cap()
    }

    /// A valid detector: the four windows and the history are bounded
    /// rings, volume marks are always one, success marks are zero or
    /// one, and buffered amounts lie within the machine bound.
    pub open spec fn wf(&self) -> bool {
        &&& self.rings_wf()
        &&& forall|i: int|
            0 <= i < self.spec_volumes().len() ==> (#[trigger] self.spec_volumes()[i]).value == 1
        &&& forall|i: int|
            0 <= i < self.spec_success().len() ==> (#[trigger] self.spec_success()[i]).value == 0
                || self.spec_success()[i].value == 1
        &&& forall|i: int|
            0 <= i < self.spec_amounts().len() ==> -AMOUNT_LIMIT
                <= (#[trigger] self.spec_amounts()[i]).value <= AMOUNT_LIMIT
    }

    /// The rings stand at their fixed capacities.
    pub closed spec fn rings_wf(&self) -> bool {
        &&& self.volumes.wf()
        &&& self.success_rates.wf()
        &&& self.success_rates.cap() == self.volumes.cap()
        &&& self.amounts.wf()
        &&& self.amounts.cap() == self.volumes.cap()
        &&& self.latencies.wf()
        &&& self.anomalies.wf()
        &&& self.anomalies.cap() == 1000
        &&& self.volumes.cap() <= 257_698_037_700
    }

    /// Create a new anomaly detector; the window capacity budgets one
    /// slot per second of the configured window.
    pub fn new(config: Settings) -> (r: Self)
        ensures
            r.wf(),
            r.spec_config() == config,
            r.spec_volumes() == Seq::<TimePoint>::empty(),
            r.spec_success() == Seq::<TimePoint>::empty(),
            r.spec_amounts() == Seq::<TimePoint>::empty(),
            r.spec_anomalies() == Seq::<AnomalyResult>::empty(),
            config.anomaly_detection.window_size_minutes >= 1
                && config.anomaly_detection.window_size_minutes as int * 60 <= usize::MAX
                ==> r.spec_window_cap() == config.anomaly_detection.window_size_minutes as int
                * 60,
    {
        let minutes = config.anomaly_detection.window_size_minutes;
        let cap64: u64 = (minutes as u64) * 60;
        let cap: usize = if cap64 == 0 {
            1
        } else if cap64 > (usize::MAX as u64) {
            usize::MAX
        } else {
            cap64 as usize
        };
        AnomalyDetector {
            config,
            volumes: BoundedRing::new(cap),
            success_rates: BoundedRing::new(cap),
            amounts: BoundedRing::new(cap),
            latencies: BoundedRing::new(cap),
            anomalies: BoundedRing::new(1000),
        }
    }

    /// What analysing one event at one reading of the clock leaves
    /// behind and hands back: the windows take the event's marks, and
    /// the highest-scoring fired detector (if any) yields a recorded
    /// anomaly.
    pub open spec fn analyze_post(
        old_s: AnomalyDetector,
        new_s: AnomalyDetector,
        e: PaymentEvent,
        now: u64,
        r: Result<Option<AnomalyResult>, AnomalyDetectorError>,
    ) -> bool {
        let cfg = old_s.spec_config().anomaly_detection;
        let cap = old_s.spec_window_cap();
        &&& new_s.spec_config() == old_s.spec_config()
        &&& if !cfg.enabled {
            new_s == old_s && (r matches Ok(o) && o is None)
        } else {
            let vols = ring_push(old_s.spec_volumes(), TimePoint { timestamp: now, value: 1 }, cap);
            let succ = ring_push(
                old_s.spec_success(),
                TimePoint {
                    timestamp: now,
                    value: if e.status@ == "succeeded"@ {
                        1
                    } else {
                        0
                    },
                },
                cap,
            );
            let amts = match e.amount {
                Some(a) => ring_push(
                    old_s.spec_amounts(),
                    TimePoint { timestamp: now, value: a },
                    cap,
                ),
                None => old_s.spec_amounts(),
            };
            let c_vol = volume_signal(vols);
            let c_succ = success_signal(succ);
            let c_fraud = if cfg.enable_fraud_detection {
                fraud_signal(e, cfg.sensitivity as int)
            } else {
                None
            };
            let c_amt = match e.amount {
                Some(a) => amount_signal(amts, a as int),
                None => None,
            };
            &&& new_s.spec_volumes() == vols
            &&& new_s.spec_success() == succ
            &&& new_s.spec_amounts() == amts
            &&& new_s.spec_latencies() == old_s.spec_latencies()
            &&& if c_vol is None && c_succ is None && c_fraud is None && c_amt is None {
                (r matches Ok(o) && o is None) && new_s.spec_anomalies()
                    == old_s.spec_anomalies()
            } else {
                r matches Ok(o) && o matches Some(a) && {
                    &&& a.timestamp == now
                    &&& a.is_anomaly
                    &&& signal_matches(a, c_vol) || signal_matches(a, c_succ) || signal_matches(
                        a,
                        c_fraud,
                    ) || signal_matches(a, c_amt)
                    &&& signal_at_most(a, c_vol) && signal_at_most(a, c_succ) && signal_at_most(
                        a,
                        c_fraud,
                    ) && signal_at_most(a, c_amt)
                    &&& a.entity_id@ == entity_of(a.anomaly_type, e)
                    &&& a.details@ == details_of(a.anomaly_type)
                    &&& a.recommended_actions.deep_view() == actions_of(a.anomaly_type)
                    &&& new_s.spec_anomalies().len() > 0
                    &&& new_s.spec_anomalies() == ring_push(
                        old_s.spec_anomalies(),
                        new_s.spec_anomalies().last(),
                        1000,
                    )
                    &&& anomaly_eq(new_s.spec_anomalies().last(), a)
                }
            }
        }
    }

    /// Analyse one event at a given reading of the clock.
    pub fn analyze_event_at(&mut self, event: &PaymentEvent, now: u64) -> (r: Result<
        Option<AnomalyResult>,
        AnomalyDetectorError,
    >)
        requires
            old(self).wf(),
            event.wf(),
        ensures
            final(self).wf(),
            final(self).spec_window_cap() == old(self).spec_window_cap(),
            Self::analyze_post(*old(self), *final(self), *event, now, r),
    {
        if !self.config.anomaly_detection.enabled {
            return Ok(None);
        }

        let succeeded = str_equal(event.status.as_str(), "succeeded");
        self.volumes.push(TimePoint { timestamp: now, value: 1 });
        self.success_rates.push(
            TimePoint {
                timestamp: now,
                value: if succeeded {
                    1
                } else {
                    0
                },
            },
        );
        let has_amount = event.amount.is_some();
        let amount: i64 = match event.amount {
            Some(a) => a,
            None => 0,
        };
        if has_amount {
            self.amounts.push(TimePoint { timestamp: now, value: amount });
        }
        proof {
            let cap = old(self).spec_window_cap();
            lemma_ring_push_bounds(
                old(self).spec_volumes(),
                (TimePoint { timestamp: now, value: 1 }),
                cap,
                1,
                1,
            );
            lemma_ring_push_bounds(
                old(self).spec_success(),
                (TimePoint {
                    timestamp: now,
                    value: if succeeded {
                        1
                    } else {
                        0
                    },
                }),
                cap,
                0,
                1,
            );
            if has_amount {
                lemma_ring_push_bounds(
                    old(self).spec_amounts(),
                    (TimePoint { timestamp: now, value: amount }),
                    cap,
                    -AMOUNT_LIMIT as int,
                    AMOUNT_LIMIT as int,
                );
            }
        }

        let c_vol = self.detect_volume_anomaly();
        let c_succ = self.detect_success_rate_anomaly();
        let c_fraud = if self.config.anomaly_detection.enable_fraud_detection {
            self.detect_fraud_pattern(event)
        } else {
            proof {
                assert(!self.spec_config().anomaly_detection.enable_fraud_detection);
            }
            None
        };
        let c_amt = if has_amount {
            self.detect_amount_anomaly(amount)
        } else {
            None
        };

        let best: Option<(u8, u32)> = pick_best(c_vol, c_succ, c_fraud, c_amt);
        match best {
            None => Ok(None),
            Some((which, score)) => {
                let t = signal_type(which);
                let entity = if matches!(t, AnomalyType::PotentialFraud) || matches!(
                    t,
                    AnomalyType::UnusualPattern,
                ) {
                    event.payment_id.clone()
                } else {
                    String::from_str("system")
                };
                let result = AnomalyResult {
                    id: generate_id(),
                    timestamp: now,
                    is_anomaly: true,
                    score,
                    anomaly_type: t,
                    entity_id: entity,
                    details: build_details(which),
                    recommended_actions: build_actions(which),
                };
                let stored = AnomalyResult {
                    id: result.id.clone(),
                    timestamp: now,
                    is_anomaly: true,
                    score,
                    anomaly_type: signal_type(which),
                    entity_id: result.entity_id.clone(),
                    details: result.details.clone(),
                    recommended_actions: build_actions(which),
                };
                proof {
                    assert(anomaly_eq(stored, result));
                }
                self.anomalies.push(stored);
                Ok(Some(result))
            },
        }
    }

    /// Analyse one event against the wall clock. Whatever the clock
    /// read, the outcome is the analysis at some reading.
    pub fn analyze_event(&mut self, event: &PaymentEvent) -> (r: Result<
        Option<AnomalyResult>,
        AnomalyDetectorError,
    >)
        requires
            old(self).wf(),
            event.wf(),
        ensures
            final(self).wf(),
            exists|now: u64| Self::analyze_post(*old(self), *final(self), *event, now, r),
    {
        let t = now_seconds();
        let now: u64 = if t < 0 {
            0
        } else {
            t as u64
        };
        let r = self.analyze_event_at(event, now);
        proof {
            assert(Self::analyze_post(*old(self), *final(self), *event, now, r));
        }
        r
    }
}

/// The detector a compact index stands for.
pub open spec fn spec_signal_type(which: u8) -> AnomalyType {
    if which == 0 {
        AnomalyType::VolumeSpike
    } else if which == 1 {
        AnomalyType::VolumeDrop
    } else if which == 2 {
        AnomalyType::HighFailureRate
    } else if which == 3 {
        AnomalyType::PotentialFraud
    } else {
        AnomalyType::UnusualPattern
    }
}

fn signal_type(which: u8) -> (r: AnomalyType)
    ensures
        r == spec_signal_type(which),
{
    if which == 0 {
        AnomalyType::VolumeSpike
    } else if which == 1 {
        AnomalyType::VolumeDrop
    } else if which == 2 {
        AnomalyType::HighFailureRate
    } else if which == 3 {
        AnomalyType::PotentialFraud
    } else {
        AnomalyType::UnusualPattern
    }
}

/// Whether a recorded anomaly reports exactly a fired signal.
pub open spec fn signal_matches(a: AnomalyResult, c: Option<(AnomalyType, int)>) -> bool {
    c matches Some(s) && a.anomaly_type == s.0 && a.score == s.1
}

/// Whether a recorded anomaly scores at least as high as a signal.
pub open spec fn signal_at_most(a: AnomalyResult, c: Option<(AnomalyType, int)>) -> bool {
    match c {
        Some(s) => s.1 <= a.score,
        None => true,
    }
}


/// Sum of a stretch of nonnegative window values.
fn sum_nonneg_values(ring: &BoundedRing<TimePoint>, from: usize, to: usize) -> (r: u128)
    requires
        from <= to <= ring@.len(),
        forall|i: int| 0 <= i < ring@.len() ==> 0 <= (#[trigger] ring@[i]).value <= AMOUNT_LIMIT,
    ensures
        r == sum_ints(point_vals(ring@).subrange(from as int, to as int)),
        r <= (to - from) * (AMOUNT_LIMIT as int),
{
    let ghost vals = point_vals(ring@).subrange(from as int, to as int);
    let mut sum: u128 = 0;
    let mut i: usize = from;
    while i < to
        invariant
            from <= i <= to <= ring@.len(),
            vals == point_vals(ring@).subrange(from as int, to as int),
            forall|k: int| 0 <= k < ring@.len() ==> 0 <= (#[trigger] ring@[k]).value <= AMOUNT_LIMIT,
            sum == sum_ints(vals.take(i - from)),
            sum <= (i - from) * (AMOUNT_LIMIT as int),
        decreases to - i,
    {
        proof {
            assert(vals.take(i - from + 1).drop_last() =~= vals.take(i - from));
            assert(vals.take(i - from + 1).last() == vals[i - from]);
            assert(vals[i - from] == ring@[i as int].value);
        }
        sum = sum + (ring.get(i).value as u128);
        i = i + 1;
    }
    proof {
        assert(vals.take(to - from) =~= vals);
    }
    sum
}

/// Sum of a whole window of bounded signed values.
fn sum_signed_values(ring: &BoundedRing<TimePoint>) -> (r: i128)
    requires
        forall|i: int|
            0 <= i < ring@.len() ==> -AMOUNT_LIMIT <= (#[trigger] ring@[i]).value <= AMOUNT_LIMIT,
    ensures
        r == sum_ints(point_vals(ring@)),
        -(ring@.len() as int) * (AMOUNT_LIMIT as int) <= r <= (ring@.len() as int) * (
        AMOUNT_LIMIT as int),
{
    let ghost vals = point_vals(ring@);
    let n = ring.len();
    let mut sum: i128 = 0;
    let mut i: usize = 0;
    while i < n
        invariant
            i <= n,
            n == ring@.len(),
            vals == point_vals(ring@),
            forall|k: int|
                0 <= k < ring@.len() ==> -AMOUNT_LIMIT <= (#[trigger] ring@[k]).value
                    <= AMOUNT_LIMIT,
            sum == sum_ints(vals.take(i as int)),
            -(i as int) * (AMOUNT_LIMIT as int) <= sum <= (i as int) * (AMOUNT_LIMIT as int),
        decreases n - i,
    {
        proof {
            assert(vals.take(i + 1 as int).drop_last() =~= vals.take(i as int));
            assert(vals.take(i + 1 as int).last() == vals[i as int]);
            assert(vals[i as int] == ring@[i as int].value);
        }
        sum = sum + (ring.get(i).value as i128);
        i = i + 1;
    }
    proof {
        assert(vals.take(n as int) =~= vals);
    }
    sum
}

impl AnomalyDetector {
    /// Run the volume detector over the current window.
    fn detect_volume_anomaly(&self) -> (r: Option<(u8, u32)>)
        requires
            self.wf(),
        ensures
            match volume_signal(self.spec_volumes()) {
                Some(s) => r matches Some(p) && spec_signal_type(p.0) == s.0 && p.1 == s.1 && (p.0
                    == 0 || p.0 == 1),
                None => r is None,
            },
    {
        let len = self.volumes.len();
        if len < 10 {
            return None;
        }
        let ghost vals = point_vals(self.spec_volumes());
        let recent: u128 = sum_nonneg_values(&self.volumes, len - 5, len);
        let earlier: u128 = sum_nonneg_values(&self.volumes, 0, len - 5);
        proof {
            assert(vals.skip(vals.len() - 5) =~= vals.subrange(len - 5, len as int));
            assert(vals.take(vals.len() - 5) =~= vals.subrange(0, len - 5));
        }
        let baseline: u128 = earlier * 5 / ((len - 5) as u128);
        let floor: u128 = if baseline < 1 {
            1
        } else {
            baseline
        };
        let ratio_bp: u128 = recent * 10_000 / floor;
        if ratio_bp > 20_000 {
            let raw: u128 = (ratio_bp - 10_000) / 2;
            let score: u32 = if raw < 10_000 {
                raw as u32
            } else {
                10_000
            };
            Some((0, score))
        } else if ratio_bp < 5_000 {
            let raw: u128 = 10_000 - ratio_bp;
            let score: u32 = if raw < 10_000 {
                raw as u32
            } else {
                10_000
            };
            Some((1, score))
        } else {
            None
        }
    }

    /// Run the success-rate detector over the current window.
    fn detect_success_rate_anomaly(&self) -> (r: Option<(u8, u32)>)
        requires
            self.wf(),
        ensures
            match success_signal(self.spec_success()) {
                Some(s) => r matches Some(p) && spec_signal_type(p.0) == s.0 && p.1 == s.1 && p.0
                    == 2,
                None => r is None,
            },
    {
        let len = self.success_rates.len();
        if len < 20 {
            return None;
        }
        let ghost vals = point_vals(self.spec_success());
        let recent: u128 = sum_nonneg_values(&self.success_rates, len - 10, len);
        let earlier: u128 = sum_nonneg_values(&self.success_rates, 0, len - 10);
        proof {
            assert(vals.skip(vals.len() - 10) =~= vals.subrange(len - 10, len as int));
            assert(vals.take(vals.len() - 10) =~= vals.subrange(0, len - 10));
        }
        let recent_bp: i128 = (recent as i128) * 1_000;
        let baseline_bp: i128 = ((earlier * 10_000 / ((len - 10) as u128)) as i128);
        let drop: i128 = baseline_bp - recent_bp;
        if drop > 2_000 {
            let raw: i128 = drop * 5;
            let score: u32 = if raw < 10_000 {
                raw as u32
            } else {
                10_000
            };
            Some((2, score))
        } else {
            None
        }
    }

    /// Run the fraud heuristic over one event.
    fn detect_fraud_pattern(&self, event: &PaymentEvent) -> (r: Option<(u8, u32)>)
        ensures
            match fraud_signal(*event, self.spec_config().anomaly_detection.sensitivity as int) {
                Some(s) => r matches Some(p) && spec_signal_type(p.0) == s.0 && p.1 == s.1 && p.0
                    == 3,
                None => r is None,
            },
    {
        let mut score: u32 = 0;
        match event.amount {
            Some(a) => {
                if a > 100_000 {
                    score = score + 3_000;
                }
            },
            None => {},
        }
        match &event.error_code {
            Some(c) => {
                if str_equal(c.as_str(), "card_declined") {
                    score = score + 2_000;
                }
            },
            None => {},
        }
        if (score as i64) > (self.config.anomaly_detection.sensitivity as i64) {
            Some((3, score))
        } else {
            None
        }
    }

    /// Run the amount detector for one incoming amount against the
    /// current window.
    fn detect_amount_anomaly(&self, amount: i64) -> (r: Option<(u8, u32)>)
        requires
            self.wf(),
            -AMOUNT_LIMIT <= amount <= AMOUNT_LIMIT,
        ensures
            match amount_signal(self.spec_amounts(), amount as int) {
                Some(s) => r matches Some(p) && spec_signal_type(p.0) == s.0 && p.1 == s.1 && p.0
                    == 4,
                None => r is None,
            },
    {
        let len = self.amounts.len();
        if len < 20 {
            return None;
        }
        let ghost vals = point_vals(self.spec_amounts());
        let sum: i128 = sum_signed_values(&self.amounts);
        let mean: i64 = div_trunc_i128(sum, len as u64);
        proof {
            assert(-AMOUNT_LIMIT <= mean <= AMOUNT_LIMIT) by (nonlinear_arith)
                requires
                    mean as int == div_trunc(sum as int, len as int),
                    len >= 20,
                    -(len as int) * (AMOUNT_LIMIT as int) <= sum <= (len as int) * (
                    AMOUNT_LIMIT as int),
            ;
        }

        let mut ss: u128 = 0;
        let mut k: usize = 0;
        while k < len
            invariant
                self.wf(),
                len == self.spec_amounts().len(),
                vals == point_vals(self.spec_amounts()),
                -AMOUNT_LIMIT <= mean <= AMOUNT_LIMIT,
                k <= len,
                ss == sumsq(vals.take(k as int), mean as int),
                ss <= (k as int) * 4_000_000_000_000_000_000_000_000,
            decreases len - k,
        {
            let v = self.amounts.get(k).value;
            proof {
                assert(vals.take(k + 1 as int).drop_last() =~= vals.take(k as int));
                assert(vals.take(k + 1 as int).last() == vals[k as int]);
                assert(vals[k as int] == self.spec_amounts()[k as int].value);
                assert((k + 1) * 4_000_000_000_000_000_000_000_000int == k
                    * 4_000_000_000_000_000_000_000_000 + 4_000_000_000_000_000_000_000_000)
                    by (nonlinear_arith);
            }
            let d: i64 = v - mean;
            proof {
                assert(0 <= (d as int) * (d as int) <= 4_000_000_000_000_000_000_000_000)
                    by (nonlinear_arith)
                    requires
                        -2 * AMOUNT_LIMIT <= d <= 2 * AMOUNT_LIMIT,
                        AMOUNT_LIMIT == 1_000_000_000_000i64,
                ;
                assert(self.rings_wf());
                assert(len <= 257_698_037_700);
                assert((k as int) * 4_000_000_000_000_000_000_000_000 + 4_000_000_000_000_000_000_000_000
                    <= 257_698_037_700i128 * 4_000_000_000_000_000_000_000_000) by (nonlinear_arith)
                    requires
                        k + 1 <= 257_698_037_700,
                ;
            }
            let dd: i128 = (d as i128) * (d as i128);
            ss = ss + (dd as u128);
            k = k + 1;
        }
        proof {
            assert(vals.take(len as int) =~= vals);
        }

        let var: u128 = ss / (len as u128);
        let sig0: u128 = isqrt_u128(var);
        proof {
            assert(is_isqrt(sig0 as int, var as int));
            assert(is_isqrt(spec_isqrt(var as int), var as int));
            lemma_isqrt_unique(sig0 as int, spec_isqrt(var as int), var as int);
            assert(ss <= (len as int) * 4_000_000_000_000_000_000_000_000);
            assert(var <= 4_000_000_000_000_000_000_000_000u128) by (nonlinear_arith)
                requires
                    var == ss / (len as u128),
                    ss <= (len as int) * 4_000_000_000_000_000_000_000_000,
                    20 <= len <= 257_698_037_700,
            ;
            assert(sig0 <= 2_000_000_000_000u128) by (nonlinear_arith)
                requires
                    (sig0 as int) * (sig0 as int) <= var,
                    var <= 4_000_000_000_000_000_000_000_000u128,
            ;
        }
        let sigma: u128 = if sig0 < 1 {
            1
        } else {
            sig0
        };
        let dev: u128 = if amount >= mean {
            (amount - mean) as u128
        } else {
            (mean - amount) as u128
        };
        if dev > 3 * sigma {
            let raw: u128 = dev * 2_000 / sigma;
            let score: u32 = if raw < 10_000 {
                raw as u32
            } else {
                10_000
            };
            Some((4, score))
        } else {
            None
        }
    }
}

/// Division of a window sum by the window length, truncating towards
/// zero; the mean stays within the amount bound.
fn div_trunc_i128(a: i128, b: u64) -> (r: i64)
    requires
        b > 0,
        -(b as int) * (AMOUNT_LIMIT as int) <= a <= (b as int) * (AMOUNT_LIMIT as int),
    ensures
        r as int == div_trunc(a as int, b as int),
        -AMOUNT_LIMIT <= r <= AMOUNT_LIMIT,
{
    if a >= 0 {
        let q: u128 = (a as u128) / (b as u128);
        proof {
            assert(q <= AMOUNT_LIMIT) by (nonlinear_arith)
                requires
                    q == (a as int) / (b as int),
                    0 <= a <= (b as int) * (AMOUNT_LIMIT as int),
                    b > 0,
            ;
        }
        q as i64
    } else {
        let mag: u128 = (-a) as u128;
        let q: u128 = mag / (b as u128);
        proof {
            assert(q <= AMOUNT_LIMIT) by (nonlinear_arith)
                requires
                    q == (mag as int) / (b as int),
                    0 <= mag <= (b as int) * (AMOUNT_LIMIT as int),
                    b > 0,
            ;
        }
        -(q as i64)
    }
}

/// A bounded insertion keeps every window value inside the given band.
proof fn lemma_ring_push_bounds(s: Seq<TimePoint>, x: TimePoint, cap: nat, lo: int, hi: int)
    requires
        cap >= 1,
        s.len() <= cap,
        forall|i: int| 0 <= i < s.len() ==> lo <= (#[trigger] s[i]).value <= hi,
        lo <= x.value <= hi,
    ensures
        forall|i: int|
            0 <= i < ring_push(s, x, cap).len() ==> lo <= (#[trigger] ring_push(s, x, cap)[i]).value
                <= hi,
{
    let out = ring_push(s, x, cap);
    assert forall|i: int| 0 <= i < out.len() implies lo <= (#[trigger] out[i]).value <= hi by {
        if s.len() < cap {
            if i < s.len() {
                assert(out[i] == s[i]);
            }
        } else {
            if i < out.len() - 1 {
                assert(out[i] == s.drop_first()[i]);
                assert(s.drop_first()[i] == s[i + 1]);
            }
        }
    }
}

/// The highest-scoring fired detector, later detectors winning ties.
fn pick_best(
    c_vol: Option<(u8, u32)>,
    c_succ: Option<(u8, u32)>,
    c_fraud: Option<(u8, u32)>,
    c_amt: Option<(u8, u32)>,
) -> (r: Option<(u8, u32)>)
    ensures
        r is None <==> (c_vol is None && c_succ is None && c_fraud is None && c_amt is None),
        r matches Some(p) ==> (Some(p) == c_vol || Some(p) == c_succ || Some(p) == c_fraud || Some(
            p,
        ) == c_amt),
        r matches Some(p) ==> ((c_vol matches Some(q) ==> q.1 <= p.1) && (c_succ matches Some(q)
            ==> q.1 <= p.1) && (c_fraud matches Some(q) ==> q.1 <= p.1) && (c_amt matches Some(q)
            ==> q.1 <= p.1)),
{
    let mut best: Option<(u8, u32)> = c_vol;
    best = prefer_later(best, c_succ);
    best = prefer_later(best, c_fraud);
    best = prefer_later(best, c_amt);
    best
}

/// Keep the later candidate unless the earlier one scores strictly
/// higher.
fn prefer_later(a: Option<(u8, u32)>, b: Option<(u8, u32)>) -> (r: Option<(u8, u32)>)
    ensures
        r is None <==> (a is None && b is None),
        r matches Some(p) ==> (Some(p) == a || Some(p) == b),
        r matches Some(p) ==> ((a matches Some(q) ==> q.1 <= p.1) && (b matches Some(q) ==> q.1
            <= p.1)),
{
    match (a, b) {
        (None, None) => None,
        (Some(x), None) => Some(x),
        (None, Some(y)) => Some(y),
        (Some(x), Some(y)) => {
            if x.1 > y.1 {
                Some(x)
            } else {
                Some(y)
            }
        },
    }
}

/// The fixed description for a detector's finding.
fn build_details(which: u8) -> (r: String)
    ensures
        r@ == details_of(spec_signal_type(which)),
{
    if which == 0 {
        String::from_str("Payment volume spike detected")
    } else if which == 1 {
        String::from_str("Payment volume drop detected")
    } else if which == 2 {
        String::from_str("High failure rate detected")
    } else if which == 3 {
        String::from_str("Potential fraud detected")
    } else {
        String::from_str("Unusual payment amount detected")
    }
}

/// The fixed remediation advice for a detector's finding.
fn build_actions(which: u8) -> (r: Vec<String>)
    ensures
        r.deep_view() == actions_of(spec_signal_type(which)),
{
    let mut out: Vec<String> = Vec::new();
    if which == 0 {
        out.push(String::from_str("Monitor system resources"));
        out.push(String::from_str("Check for potential DDoS"));
        out.push(String::from_str("Scale up infrastructure if needed"));
    } else if which == 1 {
        out.push(String::from_str("Check payment gateway connectivity"));
        out.push(String::from_str("Verify API availability"));
        out.push(String::from_str("Contact merchants to confirm issue"));
    } else if which == 2 {
        out.push(String::from_str("Investigate connector issues"));
        out.push(String::from_str("Check for card network problems"));
        out.push(String::from_str("Review recent configuration changes"));
        out.push(String::from_str("Enable fallback routing"));
    } else if which == 3 {
        out.push(String::from_str("Flag for manual review"));
        out.push(String::from_str("Apply additional verification"));
        out.push(String::from_str("Monitor merchant activity"));
    } else {
        out.push(String::from_str("Review transaction details"));
        out.push(String::from_str("Verify merchant legitimacy"));
    }
    proof {
        assert(out.deep_view() =~= actions_of(spec_signal_type(which)));
    }
    out
}

/// Deep copy of a string list; the copy reads the same.
fn clone_string_vec(v: &Vec<String>) -> (r: Vec<String>)
    ensures
        r.deep_view() == v.deep_view(),
{
    let n = v.len();
    let mut out: Vec<String> = Vec::new();
    let mut i: usize = 0;
    while i < n
        invariant
            i <= n,
            n == v@.len(),
            out@.len() == i,
            forall|k: int| 0 <= k < i ==> #[trigger] out@[k] == v@[k],
        decreases n - i,
    {
        out.push(v[i].clone());
        i = i + 1;
    }
    proof {
        assert(out.deep_view() =~= v.deep_view());
    }
    out
}

/// Deep copy of an anomaly record; the copy reads the same.
fn clone_anomaly(a: &AnomalyResult) -> (r: AnomalyResult)
    ensures
        anomaly_eq(r, *a),
{
    AnomalyResult {
        id: a.id.clone(),
        timestamp: a.timestamp,
        is_anomaly: a.is_anomaly,
        score: a.score,
        anomaly_type: match &a.anomaly_type {
            AnomalyType::VolumeSpike => AnomalyType::VolumeSpike,
            AnomalyType::VolumeDrop => AnomalyType::VolumeDrop,
            AnomalyType::HighFailureRate => AnomalyType::HighFailureRate,
            AnomalyType::UnusualPattern => AnomalyType::UnusualPattern,
            AnomalyType::PotentialFraud => AnomalyType::PotentialFraud,
            AnomalyType::PerformanceDegradation => AnomalyType::PerformanceDegradation,
            AnomalyType::Other => AnomalyType::Other,
        },
        entity_id: a.entity_id.clone(),
        details: a.details.clone(),
        recommended_actions: clone_string_vec(&a.recommended_actions),
    }
}

/// How many recorded anomalies fall within a day of the clock reading.
pub open spec fn count_recent(s: Seq<AnomalyResult>, now: u64) -> int
    decreases s.len(),
{
    if s.len() == 0 {
        0
    } else {
        count_recent(s.drop_last(), now) + if now - s.last().timestamp < 86400 {
            1int
        } else {
            0int
        }
    }
}

/// Sum of the recorded anomaly scores.
pub open spec fn sum_scores(s: Seq<AnomalyResult>) -> int
    decreases s.len(),
{
    if s.len() == 0 {
        0
    } else {
        sum_scores(s.drop_last()) + s.last().score
    }
}

impl AnomalyDetector {
    /// Get the most recent anomalies, newest first, at most `limit` of
    /// them.
    pub fn get_anomalies(&self, limit: usize) -> (r: Vec<AnomalyResult>)
        ensures
            r@.len() == if limit <= self.spec_anomalies().len() {
                limit as int
            } else {
                self.spec_anomalies().len() as int
            },
            forall|i: int|
                0 <= i < r@.len() ==> anomaly_eq(
                    #[trigger] r@[i],
                    self.spec_anomalies()[self.spec_anomalies().len() - 1 - i],
                ),
    {
        let n = self.anomalies.len();
        let mut out: Vec<AnomalyResult> = Vec::new();
        let mut i: usize = 0;
        while i < n && i < limit
            invariant
                n == self.spec_anomalies().len(),
                i <= n,
                i <= limit,
                out@.len() == i,
                forall|k: int|
                    0 <= k < i ==> anomaly_eq(
                        #[trigger] out@[k],
                        self.spec_anomalies()[n - 1 - k],
                    ),
            decreases n - i,
        {
            out.push(clone_anomaly(self.anomalies.get(n - 1 - i)));
            i = i + 1;
        }
        out
    }

    /// Get anomaly statistics at a given reading of the clock.
    pub fn get_statistics_at(&self, now: u64) -> (r: AnomalyStatistics)
        requires
            self.rings_wf(),
        ensures
            r.total_detected == self.spec_anomalies().len(),
            r.detected_last_24h == count_recent(self.spec_anomalies(), now),
            r.avg_score == if self.spec_anomalies().len() == 0 {
                0int
            } else {
                sum_scores(self.spec_anomalies()) / self.spec_anomalies().len() as int
            },
            r.most_common_type is None,
    {
        let n = self.anomalies.len();
        let mut recent: usize = 0;
        let mut total_score: u64 = 0;
        let mut i: usize = 0;
        while i < n
            invariant
                self.rings_wf(),
                n == self.spec_anomalies().len(),
                n <= 1000,
                i <= n,
                recent == count_recent(self.spec_anomalies().take(i as int), now),
                total_score == sum_scores(self.spec_anomalies().take(i as int)),
                recent <= i,
                total_score <= (i as int) * (u32::MAX as int),
            decreases n - i,
        {
            let a = self.anomalies.get(i);
            proof {
                assert(self.spec_anomalies().take(i + 1 as int).drop_last() =~= self.spec_anomalies().take(i as int));
                assert(self.spec_anomalies().take(i + 1 as int).last() == self.spec_anomalies()[i as int]);
            }
            let d: i128 = now as i128 - a.timestamp as i128;
            if d < 86400 {
                recent = recent + 1;
            }
            total_score = total_score + (a.score as u64);
            i = i + 1;
        }
        proof {
            assert(self.spec_anomalies().take(n as int) =~= self.spec_anomalies());
        }
        let avg: u32 = if n == 0 {
            0
        } else {
            proof {
                assert(total_score / (n as u64) <= u32::MAX) by (nonlinear_arith)
                    requires
                        n > 0,
                        total_score <= (n as int) * (u32::MAX as int),
                ;
            }
            (total_score / (n as u64)) as u32
        };
        AnomalyStatistics {
            total_detected: n,
            detected_last_24h: recent,
            avg_score: avg,
            most_common_type: None,
        }
    }

    /// Get anomaly statistics against the wall clock; only the
    /// last-day count depends on the reading.
    pub fn get_statistics(&self) -> (r: AnomalyStatistics)
        requires
            self.rings_wf(),
        ensures
            r.total_detected == self.spec_anomalies().len(),
            r.avg_score == if self.spec_anomalies().len() == 0 {
                0int
            } else {
                sum_scores(self.spec_anomalies()) / self.spec_anomalies().len() as int
            },
            r.most_common_type is None,
            exists|now: u64| r.detected_last_24h == #[trigger] count_recent(
                self.spec_anomalies(),
                now,
            ),
    {
        let t = now_seconds();
        let now: u64 = if t < 0 {
            0
        } else {
            t as u64
        };
        let r = self.get_statistics_at(now);
        proof {
            assert(r.detected_last_24h == count_recent(self.spec_anomalies(), now));
        }
        r
    }
}

/// The amount detector fires exactly past three deviations: over any
/// window of at least twenty buffered amounts with mean and deviation
/// as the detector computes them, an amount within three deviations
/// never yields a finding, and one beyond three deviations always
/// does.
pub proof fn lemma_amount_detector_threshold(window: Seq<TimePoint>, amount: int)
    requires
        window.len() >= 20,
    ensures
        ({
            let vals = point_vals(window);
            let mean = div_trunc(sum_ints(vals), vals.len() as int);
            let var = sumsq(vals, mean) / vals.len() as int;
            let sigma0 = spec_isqrt(var);
            let sigma = if sigma0 < 1 {
                1int
            } else {
                sigma0
            };
            let dev = if amount >= mean {
                amount - mean
            } else {
                mean - amount
            };
            &&& (dev <= 3 * sigma ==> amount_signal(window, amount) is None)
            &&& (dev > 3 * sigma ==> (amount_signal(window, amount) matches Some(s) && s.0
                == AnomalyType::UnusualPattern))
        }),
{
}

} // verus!
