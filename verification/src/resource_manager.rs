//! Auto-scaling resource manager: scores fleet health samples, emits
//! clamped scaling recommendations outside a cooldown window, and
//! records applied transitions in a bounded history.

use vstd::prelude::*;

use crate::config::ResourceManagerConfig;
use crate::config::Settings;
use crate::ring::BoundedRing;
use crate::ring::ring_push;
use crate::types::HealthMetrics;
use crate::types::ScalingDirection;
use crate::types::ScalingRecommendation;
use crate::utils::generate_id;
use crate::utils::now_seconds;

verus! {

/// Resource manager error.
#[derive(Debug, Clone, PartialEq, Eq)]
pub enum ResourceManagerError {
    /// Scaling error
    Scaling(String),
    /// Metrics error
    Metrics(String),
}

/// Record of one applied scaling transition.
#[derive(Debug, Clone)]
pub struct ScalingEvent {
    /// When the transition was applied, seconds since the Unix epoch
    pub timestamp: u64,
    /// Direction of the transition
    pub direction: ScalingDirection,
    /// Instance count before
    pub from_instances: u32,
    /// Instance count after
    pub to_instances: u32,
    /// Why the transition was recommended
    pub reason: String,
}

/// Scaling event info for reporting.
#[derive(Debug, Clone)]
pub struct ScalingEventInfo {
    /// When the transition was applied, seconds since the Unix epoch
    pub timestamp: u64,
    /// Direction rendered as text
    pub direction: String,
    /// Instance count before
    pub from_instances: u32,
    /// Instance count after
    pub to_instances: u32,
    /// Why the transition was recommended
    pub reason: String,
}

/// Resource statistics.
#[derive(Debug, Clone)]
pub struct ResourceStatistics {
    /// Current instance count
    pub current_instances: u32,
    /// Total scaling events
    pub total_scaling_events: usize,
    /// Scale up events
    pub scale_up_events: usize,
    /// Scale down events
    pub scale_down_events: usize,
    /// Average CPU usage over the recorded samples, hundredths of a percent
    pub avg_cpu_usage: u32,
    /// Average memory usage over the recorded samples, hundredths of a percent
    pub avg_memory_usage: u32,
    /// Is in cooldown
    pub is_in_cooldown: bool,
}

/// Additive pressure towards scaling up: two points each for CPU,
/// memory or queue depth above their bounds, one each for a high
/// request rate or error rate.
pub open spec fn up_score(m: HealthMetrics, c: ResourceManagerConfig) -> int {
    (if m.cpu_usage > c.cpu_scale_up_threshold {
        2int
    } else {
        0int
    }) + (if m.memory_usage > c.memory_scale_up_threshold {
        2int
    } else {
        0int
    }) + (if m.request_rate > 1000 {
        1int
    } else {
        0int
    }) + (if m.error_rate > 500 {
        1int
    } else {
        0int
    }) + (if m.queue_depth > 100 {
        2int
    } else {
        0int
    })
}

/// Additive pressure towards scaling down: one point each for CPU or
/// memory below their bounds (where the matching up-bound did not
/// already fire) or a low request rate.
pub open spec fn down_score(m: HealthMetrics, c: ResourceManagerConfig) -> int {
    (if m.cpu_usage <= c.cpu_scale_up_threshold && m.cpu_usage < c.cpu_scale_down_threshold {
        1int
    } else {
        0int
    }) + (if m.memory_usage <= c.memory_scale_up_threshold && m.memory_usage
        < c.memory_scale_down_threshold {
        1int
    } else {
        0int
    }) + (if m.request_rate < 100 {
        1int
    } else {
        0int
    })
}

/// Direction the analysis settles on for one sample.
pub open spec fn scaling_direction(m: HealthMetrics, c: ResourceManagerConfig, current: u32) -> ScalingDirection {
    if up_score(m, c) >= 2 {
        if scaling_target(m, c, current) > current {
            ScalingDirection::Up
        } else {
            ScalingDirection::NoChange
        }
    } else if down_score(m, c) >= 2 && current > c.min_instances {
        ScalingDirection::Down
    } else {
        ScalingDirection::NoChange
    }
}

/// Target instance count the analysis settles on for one sample: one
/// step up clamped to the maximum, one step down clamped to the
/// minimum, or the current count.
pub open spec fn scaling_target(m: HealthMetrics, c: ResourceManagerConfig, current: u32) -> int {
    if up_score(m, c) >= 2 {
        if current + 1 <= c.max_instances {
            current + 1
        } else {
            c.max_instances as int
        }
    } else if down_score(m, c) >= 2 && current > c.min_instances {
        if current - 1 >= c.min_instances {
            current - 1
        } else {
            c.min_instances as int
        }
    } else {
        current as int
    }
}

/// The fixed impact text of each scaling direction.
pub open spec fn impact_of(d: ScalingDirection) -> Seq<char> {
    match d {
        ScalingDirection::Up => "Increased capacity, improved response times, reduced error rate"@,
        ScalingDirection::Down => "Reduced costs, maintained service levels"@,
        ScalingDirection::NoChange => "No impact"@,
    }
}

/// Whether a reading of the clock falls inside the cooldown window
/// after the last applied scaling action.
pub open spec fn in_cooldown(last: Option<u64>, now: u64, cooldown_seconds: u64) -> bool {
    match last {
        Some(t) => now - t < cooldown_seconds,
        None => false,
    }
}

/// Resource manager for auto-scaling.
pub struct ResourceManager {
    config: Settings,
    current_instances: u32,
    metrics_history: BoundedRing<HealthMetrics>,
    last_scaling: Option<u64>,
    scaling_history: BoundedRing<ScalingEvent>,
}

/// Sum of the CPU gauges of a sample sequence.
pub open spec fn sum_cpu(s: Seq<HealthMetrics>) -> int
    decreases s.len(),
{
    if s.len() == 0 {
        0
    } else {
        sum_cpu(s.drop_last()) + s.last().cpu_usage
    }
}

/// Sum of the memory gauges of a sample sequence.
pub open spec fn sum_memory(s: Seq<HealthMetrics>) -> int
    decreases s.len(),
{
    if s.len() == 0 {
        0
    } else {
        sum_memory(s.drop_last()) + s.last().memory_usage
    }
}

/// How many recorded transitions went the given direction.
pub open spec fn count_direction(s: Seq<ScalingEvent>, d: ScalingDirection) -> int
    decreases s.len(),
{
    if s.len() == 0 {
        0
    } else {
        count_direction(s.drop_last(), d) + if s.last().direction == d {
            1int
        } else {
            0int
        }
    }
}

impl ResourceManager {
    /// The configuration the manager was created with.
    pub closed spec fn spec_config(&self) -> Settings {
        self.config
    }

    /// The live instance count.
    pub closed spec fn spec_instances(&self) -> u32 {
        self.current_instances
    }

    /// When a scaling action was last applied, if ever.
    pub closed spec fn spec_last_scaling(&self) -> Option<u64> {
        self.last_scaling
    }

    /// The recorded health samples, oldest first.
    pub closed spec fn spec_metrics(&self) -> Seq<HealthMetrics> {
        self.metrics_history@
    }

    /// The recorded scaling transitions, oldest first.
    pub closed spec fn spec_history(&self) -> Seq<ScalingEvent> {
        self.scaling_history@
    }

    /// A valid manager: bounded histories of the fixed capacities, and
    /// an instance count inside the configured band.
    pub open spec fn wf(&self) -> bool {
        &&& self.spec_metrics().len() <= 1000
        &&& self.metrics_history_wf()
        &&& self.spec_history().len() <= 100
        &&& self.scaling_history_wf()
        &&& self.spec_config().resource_manager.min_instances <= self.spec_instances()
        &&& self.spec_instances() <= self.spec_config().resource_manager.max_instances
    }

    /// The metrics ring stands at its fixed capacity.
    pub closed spec fn metrics_history_wf(&self) -> bool {
        self.metrics_history.wf() && self.metrics_history.cap() == 1000
    }

    /// The transition ring stands at its fixed capacity.
    pub closed spec fn scaling_history_wf(&self) -> bool {
        self.scaling_history.wf() && self.scaling_history.cap() == 100
    }

    /// Create a new resource manager serving the configured minimum
    /// instance count.
    pub fn new(config: Settings) -> (r: Self)
        ensures
            r.spec_config() == config,
            r.spec_instances() == config.resource_manager.min_instances,
            r.spec_last_scaling() is None,
            r.spec_metrics() == Seq::<HealthMetrics>::empty(),
            r.spec_history() == Seq::<ScalingEvent>::empty(),
            config.resource_manager.min_instances <= config.resource_manager.max_instances
                ==> r.wf(),
    {
        let current = config.resource_manager.min_instances;
        ResourceManager {
            config,
            current_instances: current,
            metrics_history: BoundedRing::new(1000),
            last_scaling: None,
            scaling_history: BoundedRing::new(100),
        }
    }

    /// What evaluation leaves behind and hands back for one sample at
    /// one reading of the clock.
    pub open spec fn evaluate_post(
        old_self: ResourceManager,
        new_self: ResourceManager,
        m: HealthMetrics,
        now: u64,
        r: Result<Option<ScalingRecommendation>, ResourceManagerError>,
    ) -> bool {
        let c = old_self.spec_config().resource_manager;
        &&& new_self.spec_config() == old_self.spec_config()
        &&& new_self.spec_instances() == old_self.spec_instances()
        &&& new_self.spec_last_scaling() == old_self.spec_last_scaling()
        &&& new_self.spec_history() == old_self.spec_history()
        &&& if !c.enable_auto_scaling {
            new_self == old_self && (r matches Ok(o) && o is None)
        } else {
            &&& new_self.spec_metrics() == ring_push(old_self.spec_metrics(), m, 1000)
            &&& if in_cooldown(old_self.spec_last_scaling(), now, c.scale_cooldown_seconds) {
                r matches Ok(o) && o is None
            } else {
                r matches Ok(o) && o matches Some(rec) && rec.direction == scaling_direction(
                    m,
                    c,
                    old_self.spec_instances(),
                ) && rec.target_instances == scaling_target(m, c, old_self.spec_instances())
                    && rec.current_instances == old_self.spec_instances() && rec.timestamp == now
                    && rec.auto_apply == c.enable_auto_scaling && rec.expected_impact@
                    == impact_of(rec.direction)
            }
        }
    }

    /// Evaluate one health sample against a given reading of the clock
    /// and recommend scaling: no recommendation while auto-scaling is
    /// off or the cooldown window is open, otherwise the analyzed
    /// direction and clamped target.
    pub fn evaluate_scaling_at(&mut self, metrics: &HealthMetrics, now: u64) -> (r: Result<
        Option<ScalingRecommendation>,
        ResourceManagerError,
    >)
        requires
            old(self).metrics_history_wf(),
        ensures
            final(self).metrics_history_wf(),
            final(self).scaling_history_wf() == old(self).scaling_history_wf(),
            Self::evaluate_post(*old(self), *final(self), *metrics, now, r),
    {
        if !self.config.resource_manager.enable_auto_scaling {
            return Ok(None);
        }
        self.metrics_history.push(*metrics);

        if self.is_in_cooldown_at(now) {
            return Ok(None);
        }

        let current = self.current_instances;
        let recommendation = self.analyze_metrics(metrics, current, now);
        Ok(Some(recommendation))
    }

    /// Evaluate one health sample against the wall clock. Whatever the
    /// clock read, the outcome is the evaluation at some reading.
    pub fn evaluate_scaling(&mut self, metrics: &HealthMetrics) -> (r: Result<
        Option<ScalingRecommendation>,
        ResourceManagerError,
    >)
        requires
            old(self).metrics_history_wf(),
        ensures
            final(self).metrics_history_wf(),
            final(self).scaling_history_wf() == old(self).scaling_history_wf(),
            exists|now: u64|
                Self::evaluate_post(*old(self), *final(self), *metrics, now, r),
    {
        let t = now_seconds();
        let now: u64 = if t < 0 {
            0
        } else {
            t as u64
        };
        let r = self.evaluate_scaling_at(metrics, now);
        proof {
            assert(Self::evaluate_post(*old(self), *final(self), *metrics, now, r));
        }
        r
    }

    /// Whether the cooldown window is open at the given clock reading.
    fn is_in_cooldown_at(&self, now: u64) -> (r: bool)
        ensures
            r == in_cooldown(
                self.spec_last_scaling(),
                now,
                self.spec_config().resource_manager.scale_cooldown_seconds,
            ),
    {
        match self.last_scaling {
            Some(t) => {
                let elapsed: i128 = now as i128 - t as i128;
                elapsed < self.config.resource_manager.scale_cooldown_seconds as i128
            },
            None => false,
        }
    }

    /// Analyze one sample and determine the scaling need.
    fn analyze_metrics(&self, metrics: &HealthMetrics, current_instances: u32, now: u64) -> (r:
        ScalingRecommendation)
        ensures
            r.direction == scaling_direction(
                *metrics,
                self.spec_config().resource_manager,
                current_instances,
            ),
            r.target_instances == scaling_target(
                *metrics,
                self.spec_config().resource_manager,
                current_instances,
            ),
            r.current_instances == current_instances,
            r.timestamp == now,
            r.auto_apply == self.spec_config().resource_manager.enable_auto_scaling,
            r.expected_impact@ == impact_of(r.direction),
    {
        let c = &self.config.resource_manager;
        let mut up: u32 = 0;
        let mut down: u32 = 0;
        let mut reason = String::new();

        if metrics.cpu_usage > c.cpu_scale_up_threshold {
            up = up + 2;
            reason.append("High CPU usage; ");
        } else if metrics.cpu_usage < c.cpu_scale_down_threshold {
            down = down + 1;
            reason.append("Low CPU usage; ");
        }
        if metrics.memory_usage > c.memory_scale_up_threshold {
            up = up + 2;
            reason.append("High memory usage; ");
        } else if metrics.memory_usage < c.memory_scale_down_threshold {
            down = down + 1;
            reason.append("Low memory usage; ");
        }
        if metrics.request_rate > 1000 {
            up = up + 1;
            reason.append("High request rate; ");
        } else if metrics.request_rate < 100 {
            down = down + 1;
            reason.append("Low request rate; ");
        }
        if metrics.error_rate > 500 {
            up = up + 1;
            reason.append("High error rate; ");
        }
        if metrics.queue_depth > 100 {
            up = up + 2;
            reason.append("High queue depth; ");
        }

        let ghost cfg = self.spec_config().resource_manager;
        proof {
            assert(up == up_score(*metrics, cfg));
            assert(down == down_score(*metrics, cfg));
        }

        let (direction, target_instances): (ScalingDirection, u32) = if up >= 2 {
            let target: u32 = if current_instances < c.max_instances {
                current_instances + 1
            } else {
                c.max_instances
            };
            if target > current_instances {
                (ScalingDirection::Up, target)
            } else {
                (ScalingDirection::NoChange, target)
            }
        } else if down >= 2 && current_instances > c.min_instances {
            let target: u32 = if current_instances - 1 > c.min_instances {
                current_instances - 1
            } else {
                c.min_instances
            };
            (ScalingDirection::Down, target)
        } else {
            reason = String::from_str("No scaling needed");
            (ScalingDirection::NoChange, current_instances)
        };

        let expected_impact = match direction {
            ScalingDirection::Up => String::from_str(
                "Increased capacity, improved response times, reduced error rate",
            ),
            ScalingDirection::Down => String::from_str("Reduced costs, maintained service levels"),
            ScalingDirection::NoChange => String::from_str("No impact"),
        };

        ScalingRecommendation {
            id: generate_id(),
            timestamp: now,
            direction,
            target_instances,
            current_instances,
            reason,
            expected_impact,
            auto_apply: c.enable_auto_scaling,
        }
    }

    /// What applying a recommendation at one clock reading leaves
    /// behind: the live count moved to the target, the cooldown window
    /// restarted, and one transition recorded.
    pub open spec fn apply_post(
        old_self: ResourceManager,
        new_self: ResourceManager,
        rec: ScalingRecommendation,
        now: u64,
    ) -> bool {
        if rec.direction is NoChange {
            new_self == old_self
        } else {
            &&& new_self.spec_config() == old_self.spec_config()
            &&& new_self.spec_instances() == rec.target_instances
            &&& new_self.spec_last_scaling() == Some(now)
            &&& new_self.spec_metrics() == old_self.spec_metrics()
            &&& new_self.spec_history().len() > 0
            &&& new_self.spec_history() == ring_push(
                old_self.spec_history(),
                new_self.spec_history().last(),
                100,
            )
            &&& new_self.spec_history().last().timestamp == now
            &&& new_self.spec_history().last().direction == rec.direction
            &&& new_self.spec_history().last().from_instances == old_self.spec_instances()
            &&& new_self.spec_history().last().to_instances == rec.target_instances
            &&& new_self.spec_history().last().reason == rec.reason
        }
    }

    /// Apply a scaling recommendation at a given reading of the clock:
    /// the only mutator of the live instance count and of the cooldown
    /// timestamp, and the recorder of the transition.
    pub fn execute_scaling_at(&mut self, recommendation: ScalingRecommendation, now: u64) -> (r:
        Result<(), ResourceManagerError>)
        requires
            old(self).scaling_history_wf(),
            recommendation.direction is NoChange || old(self).spec_config().resource_manager.min_instances <= recommendation.target_instances <= old(self).spec_config().resource_manager.max_instances,
        ensures
            r is Ok,
            final(self).scaling_history_wf(),
            final(self).metrics_history_wf() == old(self).metrics_history_wf(),
            old(self).wf() ==> final(self).wf(),
            Self::apply_post(*old(self), *final(self), recommendation, now),
    {
        if matches!(recommendation.direction, ScalingDirection::NoChange) {
            return Ok(());
        }

        let old_count = self.current_instances;
        self.current_instances = recommendation.target_instances;

        self.scaling_history.push(
            ScalingEvent {
                timestamp: now,
                direction: recommendation.direction,
                from_instances: old_count,
                to_instances: recommendation.target_instances,
                reason: recommendation.reason.clone(),
            },
        );
        self.last_scaling = Some(now);
        Ok(())
    }

    /// Apply a scaling recommendation against the wall clock.
    pub fn execute_scaling(&mut self, recommendation: ScalingRecommendation) -> (r: Result<
        (),
        ResourceManagerError,
    >)
        requires
            old(self).scaling_history_wf(),
            recommendation.direction is NoChange || old(self).spec_config().resource_manager.min_instances <= recommendation.target_instances <= old(self).spec_config().resource_manager.max_instances,
        ensures
            r is Ok,
            final(self).scaling_history_wf(),
            final(self).metrics_history_wf() == old(self).metrics_history_wf(),
            old(self).wf() ==> final(self).wf(),
            exists|now: u64| Self::apply_post(*old(self), *final(self), recommendation, now),
    {
        let t = now_seconds();
        let now: u64 = if t < 0 {
            0
        } else {
            t as u64
        };
        let r = self.execute_scaling_at(recommendation, now);
        proof {
            assert(Self::apply_post(*old(self), *final(self), recommendation, now));
        }
        r
    }

    /// Get the current instance count.
    pub fn get_instance_count(&self) -> (r: u32)
        ensures
            r == self.spec_instances(),
    {
        self.current_instances
    }

    /// Get the most recent scaling transitions, newest first, at most
    /// `limit` of them.
    pub fn get_scaling_history(&self, limit: usize) -> (r: Vec<ScalingEventInfo>)
        ensures
            r.len() == if limit <= self.spec_history().len() {
                limit as int
            } else {
                self.spec_history().len() as int
            },
            forall|i: int|
                0 <= i < r.len() ==> {
                    let e = self.spec_history()[self.spec_history().len() - 1 - i];
                    &&& (#[trigger] r[i]).timestamp == e.timestamp
                    &&& r[i].direction@ == direction_name(e.direction)
                    &&& r[i].from_instances == e.from_instances
                    &&& r[i].to_instances == e.to_instances
                    &&& r[i].reason@ == e.reason@
                },
    {
        let mut out: Vec<ScalingEventInfo> = Vec::new();
        let n = self.scaling_history.len();
        let mut i: usize = 0;
        while i < n && i < limit
            invariant
                n == self.spec_history().len(),
                i <= n,
                i <= limit,
                out.len() == i,
                forall|j: int|
                    0 <= j < i ==> {
                        let e = self.spec_history()[n - 1 - j];
                        &&& (#[trigger] out[j]).timestamp == e.timestamp
                        &&& out[j].direction@ == direction_name(e.direction)
                        &&& out[j].from_instances == e.from_instances
                        &&& out[j].to_instances == e.to_instances
                        &&& out[j].reason@ == e.reason@
                    },
            decreases n - i,
        {
            let e = self.scaling_history.get(n - 1 - i);
            out.push(
                ScalingEventInfo {
                    timestamp: e.timestamp,
                    direction: direction_to_string(&e.direction),
                    from_instances: e.from_instances,
                    to_instances: e.to_instances,
                    reason: e.reason.clone(),
                },
            );
            i = i + 1;
        }
        out
    }

    /// Get resource statistics at a given reading of the clock.
    pub fn get_statistics_at(&self, now: u64) -> (r: ResourceStatistics)
        requires
            self.metrics_history_wf(),
        ensures
            r.current_instances == self.spec_instances(),
            r.total_scaling_events == self.spec_history().len(),
            r.scale_up_events == count_direction(self.spec_history(), ScalingDirection::Up),
            r.scale_down_events == count_direction(self.spec_history(), ScalingDirection::Down),
            r.avg_cpu_usage == if self.spec_metrics().len() == 0 {
                0int
            } else {
                sum_cpu(self.spec_metrics()) / self.spec_metrics().len() as int
            },
            r.avg_memory_usage == if self.spec_metrics().len() == 0 {
                0int
            } else {
                sum_memory(self.spec_metrics()) / self.spec_metrics().len() as int
            },
            r.is_in_cooldown == in_cooldown(
                self.spec_last_scaling(),
                now,
                self.spec_config().resource_manager.scale_cooldown_seconds,
            ),
    {
        let hist_len = self.scaling_history.len();
        let mut ups: usize = 0;
        let mut downs: usize = 0;
        let mut i: usize = 0;
        while i < hist_len
            invariant
                hist_len == self.spec_history().len(),
                i <= hist_len,
                ups == count_direction(self.spec_history().take(i as int), ScalingDirection::Up),
                downs == count_direction(
                    self.spec_history().take(i as int),
                    ScalingDirection::Down,
                ),
                ups <= i,
                downs <= i,
            decreases hist_len - i,
        {
            let e = self.scaling_history.get(i);
            proof {
                assert(self.spec_history().take(i + 1 as int).drop_last() =~= self.spec_history()
                    .take(i as int));
                assert(self.spec_history().take(i + 1 as int).last() == self.spec_history()[i as int]);
            }
            if matches!(e.direction, ScalingDirection::Up) {
                ups = ups + 1;
            } else if matches!(e.direction, ScalingDirection::Down) {
                downs = downs + 1;
            }
            i = i + 1;
        }
        proof {
            assert(self.spec_history().take(hist_len as int) =~= self.spec_history());
        }

        let m_len = self.metrics_history.len();
        let mut cpu_sum: u64 = 0;
        let mut mem_sum: u64 = 0;
        let mut j: usize = 0;
        while j < m_len
            invariant
                m_len == self.spec_metrics().len(),
                m_len <= usize::MAX,
                j <= m_len,
                cpu_sum == sum_cpu(self.spec_metrics().take(j as int)),
                mem_sum == sum_memory(self.spec_metrics().take(j as int)),
                cpu_sum <= j * (u32::MAX as u64),
                mem_sum <= j * (u32::MAX as u64),
                j * (u32::MAX as u64) <= m_len * (u32::MAX as u64),
                m_len * (u32::MAX as u64) < u64::MAX,
            decreases m_len - j,
        {
            let m = self.metrics_history.get(j);
            proof {
                assert(self.spec_metrics().take(j + 1 as int).drop_last() =~= self.spec_metrics()
                    .take(j as int));
                assert(self.spec_metrics().take(j + 1 as int).last() == self.spec_metrics()[j as int]);
                assert((j + 1) * (u32::MAX as u64) == j * (u32::MAX as u64) + (u32::MAX as u64))
                    by (nonlinear_arith);
                assert((j + 1) * (u32::MAX as u64) <= m_len * (u32::MAX as u64)) by (nonlinear_arith)
                    requires
                        j + 1 <= m_len,
                ;
            }
            cpu_sum = cpu_sum + m.cpu_usage as u64;
            mem_sum = mem_sum + m.memory_usage as u64;
            j = j + 1;
        }
        proof {
            assert(self.spec_metrics().take(m_len as int) =~= self.spec_metrics());
        }
        let avg_cpu: u32 = if m_len == 0 {
            0
        } else {
            proof {
                lemma_avg_fits_u32(cpu_sum as int, m_len as int);
            }
            (cpu_sum / m_len as u64) as u32
        };
        let avg_mem: u32 = if m_len == 0 {
            0
        } else {
            proof {
                lemma_avg_fits_u32(mem_sum as int, m_len as int);
            }
            (mem_sum / m_len as u64) as u32
        };

        ResourceStatistics {
            current_instances: self.current_instances,
            total_scaling_events: hist_len,
            scale_up_events: ups,
            scale_down_events: downs,
            avg_cpu_usage: avg_cpu,
            avg_memory_usage: avg_mem,
            is_in_cooldown: self.is_in_cooldown_at(now),
        }
    }

    /// Get resource statistics against the wall clock. Every field but
    /// the cooldown flag is independent of the clock; the cooldown flag
    /// belongs to some reading of it.
    pub fn get_statistics(&self) -> (r: ResourceStatistics)
        requires
            self.metrics_history_wf(),
        ensures
            r.current_instances == self.spec_instances(),
            r.total_scaling_events == self.spec_history().len(),
            r.scale_up_events == count_direction(self.spec_history(), ScalingDirection::Up),
            r.scale_down_events == count_direction(self.spec_history(), ScalingDirection::Down),
            r.avg_cpu_usage == if self.spec_metrics().len() == 0 {
                0int
            } else {
                sum_cpu(self.spec_metrics()) / self.spec_metrics().len() as int
            },
            r.avg_memory_usage == if self.spec_metrics().len() == 0 {
                0int
            } else {
                sum_memory(self.spec_metrics()) / self.spec_metrics().len() as int
            },
            exists|now: u64|
                r.is_in_cooldown == in_cooldown(
                    self.spec_last_scaling(),
                    now,
                    self.spec_config().resource_manager.scale_cooldown_seconds,
                ),
    {
        let t = now_seconds();
        let now: u64 = if t < 0 {
            0
        } else {
            t as u64
        };
        let r = self.get_statistics_at(now);
        proof {
            assert(r.is_in_cooldown == in_cooldown(
                self.spec_last_scaling(),
                now,
                self.spec_config().resource_manager.scale_cooldown_seconds,
            ));
        }
        r
    }
}

/// Average of values each below the `u32` bound stays below it.
proof fn lemma_avg_fits_u32(sum: int, len: int)
    requires
        len > 0,
        sum <= len * (u32::MAX as int),
        sum >= 0,
    ensures
        sum / len <= u32::MAX,
{
    assert(sum / len <= u32::MAX) by (nonlinear_arith)
        requires
            len > 0,
            sum >= 0,
            sum <= len * (u32::MAX as int),
    ;
}

/// Text of a scaling direction.
pub open spec fn direction_name(d: ScalingDirection) -> Seq<char> {
    match d {
        ScalingDirection::Up => "Up"@,
        ScalingDirection::Down => "Down"@,
        ScalingDirection::NoChange => "NoChange"@,
    }
}

fn direction_to_string(d: &ScalingDirection) -> (r: String)
    ensures
        r@ == direction_name(*d),
{
    match d {
        ScalingDirection::Up => String::from_str("Up"),
        ScalingDirection::Down => String::from_str("Down"),
        ScalingDirection::NoChange => String::from_str("NoChange"),
    }
}

/// No recommendation comes within the cooldown window of an applied
/// scaling action: whenever evaluation runs before the window closes,
/// it hands back nothing.
pub proof fn lemma_no_recommendation_in_cooldown(
    s0: ResourceManager,
    s1: ResourceManager,
    m: HealthMetrics,
    t_apply: u64,
    t_eval: u64,
    r: Result<Option<ScalingRecommendation>, ResourceManagerError>,
)
    requires
        s0.spec_last_scaling() == Some(t_apply),
        t_eval - t_apply < s0.spec_config().resource_manager.scale_cooldown_seconds,
        ResourceManager::evaluate_post(s0, s1, m, t_eval, r),
    ensures
        r matches Ok(o) && o is None,
{
}

/// Every recommendation evaluation emits keeps its target inside the
/// configured instance band.
pub proof fn lemma_target_clamped(
    s0: ResourceManager,
    s1: ResourceManager,
    m: HealthMetrics,
    now: u64,
    r: Result<Option<ScalingRecommendation>, ResourceManagerError>,
)
    requires
        s0.wf(),
        ResourceManager::evaluate_post(s0, s1, m, now, r),
    ensures
        r matches Ok(o) && o matches Some(rec) ==> s0.spec_config().resource_manager.min_instances
            <= rec.target_instances <= s0.spec_config().resource_manager.max_instances,
{
}

} // verus!
