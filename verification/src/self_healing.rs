//! Self-healing service: a failure-driven state machine per connector.
//! Consecutive failures past a configured threshold mark a connector
//! failed and, with auto-switch on, launch a connector switch; failed
//! payments whose error is retriable launch a retry; one success resets
//! the streak.

use vstd::prelude::*;

use crate::config::Settings;
use crate::ring::BoundedRing;
use crate::ring::ring_push;
use crate::types::ActionStatus;
use crate::types::HealingAction;
use crate::types::HealingActionType;
use crate::types::PaymentEvent;
use crate::utils::generate_id;
use crate::utils::now_seconds;
use crate::utils::str_equal;

verus! {

/// Self-healing error.
#[derive(Debug, Clone, PartialEq, Eq)]
pub enum SelfHealingError {
    /// Action execution error
    Execution(String),
    /// Invalid action
    InvalidAction(String),
}

/// Failure tracker for one connector.
#[derive(Debug, Clone)]
pub struct FailureTracker {
    /// Connector name
    pub connector: String,
    /// Consecutive failures since the last success
    pub consecutive_failures: u32,
    /// Total failures observed
    pub total_failures: u32,
    /// Last failure time, seconds since the Unix epoch
    pub last_failure: u64,
    /// Is currently failed
    pub is_failed: bool,
}

/// Healing statistics.
#[derive(Debug, Clone)]
pub struct HealingStatistics {
    /// Active healing actions
    pub active_actions: usize,
    /// Total completed actions recorded
    pub total_actions: usize,
    /// Successful actions
    pub successful_actions: usize,
    /// Failed actions
    pub failed_actions: usize,
    /// Average recovery time in ms over successful actions
    pub avg_recovery_time_ms: u64,
    /// Number of tracked connectors
    pub tracked_connectors: usize,
    /// Number of currently failed connectors
    pub failed_connectors: usize,
}

/// A counter one step up, stopping at the machine bound.
pub open spec fn sat_inc(x: u32) -> u32 {
    if x == u32::MAX {
        x
    } else {
        (x + 1) as u32
    }
}

/// Whether some tracker carries the given connector name.
pub open spec fn has_tracker(s: Seq<FailureTracker>, name: Seq<char>) -> bool {
    exists|i: int| 0 <= i < s.len() && (#[trigger] s[i]).connector@ == name
}

/// A tracker after one more failure at the given time: both counters
/// one up, and the failed flag raised once the streak reaches the
/// threshold.
pub open spec fn tracker_after_failure(t: FailureTracker, now: u64, threshold: u32) -> FailureTracker {
    FailureTracker {
        connector: t.connector,
        consecutive_failures: sat_inc(t.consecutive_failures),
        total_failures: sat_inc(t.total_failures),
        last_failure: now,
        is_failed: t.is_failed || sat_inc(t.consecutive_failures) >= threshold,
    }
}

/// A tracker after one success: the streak cleared and the failed flag
/// lowered; the total stays.
pub open spec fn tracker_after_success(t: FailureTracker) -> FailureTracker {
    FailureTracker {
        connector: t.connector,
        consecutive_failures: 0,
        total_failures: t.total_failures,
        last_failure: t.last_failure,
        is_failed: false,
    }
}

/// The tracker a first failure creates.
pub open spec fn fresh_failed_tracker(
    t: FailureTracker,
    name: Seq<char>,
    now: u64,
    threshold: u32,
) -> bool {
    &&& t.connector@ == name
    &&& t.consecutive_failures == 1
    &&& t.total_failures == 1
    &&& t.last_failure == now
    &&& t.is_failed == (threshold <= 1)
}

/// How one failure on the named connector moves the tracker table: the
/// first tracker of that name steps once, or a fresh one is appended.
pub open spec fn trackers_after_failure(
    old_t: Seq<FailureTracker>,
    new_t: Seq<FailureTracker>,
    name: Seq<char>,
    now: u64,
    threshold: u32,
) -> bool {
    if has_tracker(old_t, name) {
        &&& new_t.len() == old_t.len()
        &&& exists|i: int|
            {
                &&& 0 <= i < old_t.len()
                &&& (#[trigger] old_t[i]).connector@ == name
                &&& forall|k: int| 0 <= k < i ==> (#[trigger] old_t[k]).connector@ != name
                &&& new_t[i] == tracker_after_failure(old_t[i], now, threshold)
                &&& forall|k: int| 0 <= k < old_t.len() && k != i ==> new_t[k] == #[trigger] old_t[k]
            }
    } else {
        &&& new_t.len() == old_t.len() + 1
        &&& new_t.drop_last() == old_t
        &&& fresh_failed_tracker(new_t.last(), name, now, threshold)
    }
}

/// How one success on the named connector moves the tracker table: the
/// first tracker of that name resets, absent trackers stay absent.
pub open spec fn trackers_after_success(
    old_t: Seq<FailureTracker>,
    new_t: Seq<FailureTracker>,
    name: Seq<char>,
) -> bool {
    if has_tracker(old_t, name) {
        &&& new_t.len() == old_t.len()
        &&& exists|i: int|
            {
                &&& 0 <= i < old_t.len()
                &&& (#[trigger] old_t[i]).connector@ == name
                &&& forall|k: int| 0 <= k < i ==> (#[trigger] old_t[k]).connector@ != name
                &&& new_t[i] == tracker_after_success(old_t[i])
                &&& forall|k: int| 0 <= k < old_t.len() && k != i ==> new_t[k] == #[trigger] old_t[k]
            }
    } else {
        new_t == old_t
    }
}

/// Whether the named connector now stands failed and auto-switching is
/// on, so a switch is launched.
pub open spec fn switch_fires(s: Seq<FailureTracker>, name: Seq<char>, auto_switch: bool) -> bool {
    auto_switch && exists|i: int|
        0 <= i < s.len() && (#[trigger] s[i]).connector@ == name && s[i].is_failed
}

/// Whether a failed event's error code permits a retry: the
/// non-retriable codes are excluded.
pub open spec fn retriable(e: PaymentEvent) -> bool {
    match e.error_code {
        Some(c) => !(c@ == "invalid_card"@ || c@ == "expired_card"@ || c@
            == "insufficient_funds"@),
        None => true,
    }
}

/// The shape of a remediation action launched for an event at a time:
/// pending, aimed at the event's payment, with no outcome yet. The id
/// is freshly generated, so it stays unconstrained.
pub open spec fn action_launched(
    a: HealingAction,
    kind: HealingActionType,
    e: PaymentEvent,
    now: u64,
) -> bool {
    &&& a.timestamp == now
    &&& a.action_type == kind
    &&& a.target@ == e.payment_id@
    &&& a.status is Pending
    &&& a.result_message is None
    &&& a.recovery_time_ms is None
}

/// Self-healing service.
pub struct SelfHealingService {
    config: Settings,
    active_actions: Vec<HealingAction>,
    action_history: BoundedRing<HealingAction>,
    connector_failures: Vec<FailureTracker>,
}

impl SelfHealingService {
    /// The configuration the service was created with.
    pub closed spec fn spec_config(&self) -> Settings {
        self.config
    }

    /// The in-flight actions, oldest first.
    pub closed spec fn spec_active(&self) -> Seq<HealingAction> {
        self.active_actions@
    }

    /// The completed actions, oldest first.
    pub closed spec fn spec_history(&self) -> Seq<HealingAction> {
        self.action_history@
    }

    /// The per-connector failure trackers.
    pub closed spec fn spec_trackers(&self) -> Seq<FailureTracker> {
        self.connector_failures@
    }

    /// A valid service: a bounded history of the fixed capacity and at
    /// most one tracker per connector name.
    pub open spec fn wf(&self) -> bool {
        &&& self.history_wf()
        &&& forall|i: int, j: int|
            0 <= i < j < self.spec_trackers().len() ==> (#[trigger] self.spec_trackers()[i]).connector@
                != (#[trigger] self.spec_trackers()[j]).connector@
    }

    /// The completed-action ring stands at its fixed capacity.
    pub closed spec fn history_wf(&self) -> bool {
        self.action_history.wf() && self.action_history.cap() == 1000
    }

    /// Create a new self-healing service.
    pub fn new(config: Settings) -> (r: Self)
        ensures
            r.wf(),
            r.spec_config() == config,
            r.spec_active() == Seq::<HealingAction>::empty(),
            r.spec_history() == Seq::<HealingAction>::empty(),
            r.spec_trackers() == Seq::<FailureTracker>::empty(),
    {
        SelfHealingService {
            config,
            active_actions: Vec::new(),
            action_history: BoundedRing::new(1000),
            connector_failures: Vec::new(),
        }
    }

    /// Index of the first tracker of the given name.
    fn find_tracker_index(&self, name: &str) -> (r: Option<usize>)
        ensures
            match r {
                Some(i) => i < self.spec_trackers().len() && self.spec_trackers()[i as int].connector@
                    == name@ && forall|k: int|
                    0 <= k < i ==> (#[trigger] self.spec_trackers()[k]).connector@ != name@,
                None => !has_tracker(self.spec_trackers(), name@),
            },
    {
        let n = self.connector_failures.len();
        let mut i: usize = 0;
        while i < n
            invariant
                n == self.spec_trackers().len(),
                i <= n,
                forall|k: int| 0 <= k < i ==> (#[trigger] self.spec_trackers()[k]).connector@ != name@,
            decreases n - i,
        {
            if str_equal(self.connector_failures[i].connector.as_str(), name) {
                return Some(i);
            }
            i = i + 1;
        }
        None
    }

    /// Record one failure of the named connector.
    fn track_failure(&mut self, connector: &str, now: u64)
        ensures
            final(self).spec_config() == old(self).spec_config(),
            final(self).spec_active() == old(self).spec_active(),
            final(self).spec_history() == old(self).spec_history(),
            final(self).history_wf() == old(self).history_wf(),
            trackers_after_failure(
                old(self).spec_trackers(),
                final(self).spec_trackers(),
                connector@,
                now,
                old(self).spec_config().self_healing.failure_threshold,
            ),
            old(self).wf() ==> final(self).wf(),
    {
        let threshold = self.config.self_healing.failure_threshold;
        match self.find_tracker_index(connector) {
            Some(i) => {
                let t = &self.connector_failures[i];
                let consec: u32 = if t.consecutive_failures == u32::MAX {
                    u32::MAX
                } else {
                    t.consecutive_failures + 1
                };
                let total: u32 = if t.total_failures == u32::MAX {
                    u32::MAX
                } else {
                    t.total_failures + 1
                };
                let failed = t.is_failed || consec >= threshold;
                let updated = FailureTracker {
                    connector: t.connector.clone(),
                    consecutive_failures: consec,
                    total_failures: total,
                    last_failure: now,
                    is_failed: failed,
                };
                self.connector_failures.set(i, updated);
                proof {
                    assert(final(self).spec_trackers()[i as int] == tracker_after_failure(
                        old(self).spec_trackers()[i as int],
                        now,
                        threshold,
                    ));
                }
            },
            None => {
                let fresh = FailureTracker {
                    connector: String::from_str(connector),
                    consecutive_failures: 1,
                    total_failures: 1,
                    last_failure: now,
                    is_failed: 1 >= threshold,
                };
                self.connector_failures.push(fresh);
                proof {
                    assert(final(self).spec_trackers().drop_last() =~= old(self).spec_trackers());
                }
            },
        }
    }

    /// Clear the failure streak of the named connector after a success.
    fn reset_failure_tracking(&mut self, connector: &str)
        ensures
            final(self).spec_config() == old(self).spec_config(),
            final(self).spec_active() == old(self).spec_active(),
            final(self).spec_history() == old(self).spec_history(),
            final(self).history_wf() == old(self).history_wf(),
            trackers_after_success(old(self).spec_trackers(), final(self).spec_trackers(), connector@),
            old(self).wf() ==> final(self).wf(),
    {
        match self.find_tracker_index(connector) {
            Some(i) => {
                let t = &self.connector_failures[i];
                let updated = FailureTracker {
                    connector: t.connector.clone(),
                    consecutive_failures: 0,
                    total_failures: t.total_failures,
                    last_failure: t.last_failure,
                    is_failed: false,
                };
                self.connector_failures.set(i, updated);
                proof {
                    assert(final(self).spec_trackers()[i as int] == tracker_after_success(
                        old(self).spec_trackers()[i as int],
                    ));
                }
            },
            None => {},
        }
    }

    /// Whether the named connector stands failed and auto-switching is
    /// on.
    fn should_heal_connector(&self, connector: &str) -> (r: bool)
        requires
            self.wf(),
        ensures
            r == switch_fires(
                self.spec_trackers(),
                connector@,
                self.spec_config().self_healing.auto_switch_connectors,
            ),
    {
        match self.find_tracker_index(connector) {
            Some(i) => {
                let r = self.connector_failures[i].is_failed
                    && self.config.self_healing.auto_switch_connectors;
                proof {
                    if r {
                        assert(switch_fires(
                            self.spec_trackers(),
                            connector@,
                            self.spec_config().self_healing.auto_switch_connectors,
                        ));
                    } else {
                        assert forall|j: int|
                            0 <= j < self.spec_trackers().len() && (#[trigger] self.spec_trackers()[j]).connector@
                                == connector@ implies !(self.spec_trackers()[j].is_failed
                            && self.spec_config().self_healing.auto_switch_connectors) by {
                            assert(j == i as int);
                        }
                    }
                }
                r
            },
            None => false,
        }
    }

    /// Whether the event's error code permits a retry.
    fn should_retry_payment(&self, event: &PaymentEvent) -> (r: bool)
        ensures
            r == retriable(*event),
    {
        match &event.error_code {
            Some(code) => {
                !(str_equal(code.as_str(), "invalid_card") || str_equal(code.as_str(), "expired_card")
                    || str_equal(code.as_str(), "insufficient_funds"))
            },
            None => true,
        }
    }

    /// Build and register a pending action of the given kind for the
    /// event's payment.
    fn launch_action(&mut self, kind: HealingActionType, event: &PaymentEvent, now: u64) -> (r:
        HealingAction)
        ensures
            final(self).spec_config() == old(self).spec_config(),
            final(self).spec_history() == old(self).spec_history(),
            final(self).history_wf() == old(self).history_wf(),
            final(self).spec_trackers() == old(self).spec_trackers(),
            action_launched(r, kind, *event, now),
            final(self).spec_active() == old(self).spec_active().push(r),
    {
        let stored_kind = match &kind {
            HealingActionType::RetryPayment => HealingActionType::RetryPayment,
            HealingActionType::SwitchConnector => HealingActionType::SwitchConnector,
            HealingActionType::UpdateRouting => HealingActionType::UpdateRouting,
            HealingActionType::ClearCache => HealingActionType::ClearCache,
            HealingActionType::RestartService => HealingActionType::RestartService,
            HealingActionType::ScaleResources => HealingActionType::ScaleResources,
            HealingActionType::Custom(s) => HealingActionType::Custom(s.clone()),
        };
        let action = HealingAction {
            id: generate_id(),
            timestamp: now,
            action_type: kind,
            target: event.payment_id.clone(),
            status: ActionStatus::Pending,
            result_message: None,
            recovery_time_ms: None,
        };
        let stored = HealingAction {
            id: action.id.clone(),
            timestamp: now,
            action_type: stored_kind,
            target: event.payment_id.clone(),
            status: ActionStatus::Pending,
            result_message: None,
            recovery_time_ms: None,
        };
        proof {
            assert(stored == action);
        }
        self.active_actions.push(stored);
        action
    }

    /// What evaluating one event at one reading of the clock leaves
    /// behind and hands back.
    pub open spec fn evaluate_post(
        old_s: SelfHealingService,
        new_s: SelfHealingService,
        e: PaymentEvent,
        now: u64,
        r: Result<Option<HealingAction>, SelfHealingError>,
    ) -> bool {
        let cfg = old_s.spec_config().self_healing;
        &&& new_s.spec_config() == old_s.spec_config()
        &&& new_s.spec_history() == old_s.spec_history()
        &&& if !cfg.enabled {
            new_s == old_s && (r matches Ok(o) && o is None)
        } else if e.status@ == "failed"@ {
            match e.connector {
                Some(c) => {
                    &&& trackers_after_failure(
                        old_s.spec_trackers(),
                        new_s.spec_trackers(),
                        c@,
                        now,
                        cfg.failure_threshold,
                    )
                    &&& if switch_fires(new_s.spec_trackers(), c@, cfg.auto_switch_connectors) {
                        r matches Ok(o) && o matches Some(a) && action_launched(
                            a,
                            HealingActionType::SwitchConnector,
                            e,
                            now,
                        ) && new_s.spec_active() == old_s.spec_active().push(a)
                    } else if retriable(e) {
                        r matches Ok(o) && o matches Some(a) && action_launched(
                            a,
                            HealingActionType::RetryPayment,
                            e,
                            now,
                        ) && new_s.spec_active() == old_s.spec_active().push(a)
                    } else {
                        (r matches Ok(o) && o is None) && new_s.spec_active()
                            == old_s.spec_active()
                    }
                },
                None => {
                    &&& new_s.spec_trackers() == old_s.spec_trackers()
                    &&& if retriable(e) {
                        r matches Ok(o) && o matches Some(a) && action_launched(
                            a,
                            HealingActionType::RetryPayment,
                            e,
                            now,
                        ) && new_s.spec_active() == old_s.spec_active().push(a)
                    } else {
                        (r matches Ok(o) && o is None) && new_s.spec_active()
                            == old_s.spec_active()
                    }
                },
            }
        } else if e.status@ == "succeeded"@ {
            &&& new_s.spec_active() == old_s.spec_active()
            &&& (r matches Ok(o) && o is None)
            &&& match e.connector {
                Some(c) => trackers_after_success(
                    old_s.spec_trackers(),
                    new_s.spec_trackers(),
                    c@,
                ),
                None => new_s.spec_trackers() == old_s.spec_trackers(),
            }
        } else {
            new_s == old_s && (r matches Ok(o) && o is None)
        }
    }

    /// Evaluate one event for healing needs at a given reading of the
    /// clock: track failures, launch a switch once the connector stands
    /// failed, launch a retry for retriable failures, and reset the
    /// streak on success.
    pub fn evaluate_event_at(&mut self, event: &PaymentEvent, now: u64) -> (r: Result<
        Option<HealingAction>,
        SelfHealingError,
    >)
        requires
            old(self).wf(),
        ensures
            final(self).wf(),
            Self::evaluate_post(*old(self), *final(self), *event, now, r),
    {
        if !self.config.self_healing.enabled {
            return Ok(None);
        }

        if str_equal(self.status_of(event), "failed") {
            let has_connector = event.connector.is_some();
            if has_connector {
                let connector = self.connector_of(event);
                self.track_failure(connector.as_str(), now);
                if self.should_heal_connector(connector.as_str()) {
                    let action = self.launch_action(
                        HealingActionType::SwitchConnector,
                        event,
                        now,
                    );
                    return Ok(Some(action));
                }
            }
            if self.should_retry_payment(event) {
                let action = self.launch_action(HealingActionType::RetryPayment, event, now);
                return Ok(Some(action));
            }
            Ok(None)
        } else if str_equal(self.status_of(event), "succeeded") {
            let has_connector = event.connector.is_some();
            if has_connector {
                let connector = self.connector_of(event);
                self.reset_failure_tracking(connector.as_str());
            }
            Ok(None)
        } else {
            Ok(None)
        }
    }

    /// The event's status text.
    fn status_of<'a>(&self, event: &'a PaymentEvent) -> (r: &'a str)
        ensures
            r@ == event.status@,
    {
        event.status.as_str()
    }

    /// The event's connector name.
    fn connector_of(&self, event: &PaymentEvent) -> (r: String)
        requires
            event.connector is Some,
        ensures
            r@ == event.connector->0@,
    {
        match &event.connector {
            Some(c) => c.clone(),
            None => String::new(),
        }
    }

    /// Evaluate one event against the wall clock. Whatever the clock
    /// read, the outcome is the evaluation at some reading.
    pub fn evaluate_event(&mut self, event: &PaymentEvent) -> (r: Result<
        Option<HealingAction>,
        SelfHealingError,
    >)
        requires
            old(self).wf(),
        ensures
            final(self).wf(),
            exists|now: u64| Self::evaluate_post(*old(self), *final(self), *event, now, r),
    {
        let t = now_seconds();
        let now: u64 = if t < 0 {
            0
        } else {
            t as u64
        };
        let r = self.evaluate_event_at(event, now);
        proof {
            assert(Self::evaluate_post(*old(self), *final(self), *event, now, r));
        }
        r
    }
}

/// Deep copy of a healing action; the copy equals the original.
fn clone_healing_action(a: &HealingAction) -> (r: HealingAction)
    ensures
        r == *a,
{
    HealingAction {
        id: a.id.clone(),
        timestamp: a.timestamp,
        action_type: match &a.action_type {
            HealingActionType::RetryPayment => HealingActionType::RetryPayment,
            HealingActionType::SwitchConnector => HealingActionType::SwitchConnector,
            HealingActionType::UpdateRouting => HealingActionType::UpdateRouting,
            HealingActionType::ClearCache => HealingActionType::ClearCache,
            HealingActionType::RestartService => HealingActionType::RestartService,
            HealingActionType::ScaleResources => HealingActionType::ScaleResources,
            HealingActionType::Custom(s) => HealingActionType::Custom(s.clone()),
        },
        target: a.target.clone(),
        status: match &a.status {
            ActionStatus::Pending => ActionStatus::Pending,
            ActionStatus::InProgress => ActionStatus::InProgress,
            ActionStatus::Success => ActionStatus::Success,
            ActionStatus::Failed => ActionStatus::Failed,
            ActionStatus::RolledBack => ActionStatus::RolledBack,
        },
        result_message: match &a.result_message {
            Some(m) => Some(m.clone()),
            None => None,
        },
        recovery_time_ms: a.recovery_time_ms,
    }
}

impl SelfHealingService {
    /// Move a pending action out of the active set into the completed
    /// history, with the given outcome. An id no active action carries
    /// changes nothing.
    pub fn complete_action(&mut self, action_id: &str, status: ActionStatus, result: String)
        requires
            old(self).history_wf(),
        ensures
            final(self).history_wf(),
            final(self).spec_config() == old(self).spec_config(),
            final(self).spec_trackers() == old(self).spec_trackers(),
            old(self).wf() ==> final(self).wf(),
            if exists|i: int|
                0 <= i < old(self).spec_active().len() && (#[trigger] old(self).spec_active()[i]).id@
                    == action_id@ {
                exists|i: int|
                    {
                        &&& 0 <= i < old(self).spec_active().len()
                        &&& (#[trigger] old(self).spec_active()[i]).id@ == action_id@
                        &&& forall|k: int|
                            0 <= k < i ==> (#[trigger] old(self).spec_active()[k]).id@ != action_id@
                        &&& final(self).spec_active() == old(self).spec_active().remove(i)
                        &&& final(self).spec_history() == ring_push(
                            old(self).spec_history(),
                            (HealingAction {
                                status: status,
                                result_message: Some(result),
                                ..old(self).spec_active()[i]
                            }),
                            1000,
                        )
                    }
            } else {
                final(self).spec_active() == old(self).spec_active() && final(self).spec_history()
                    == old(self).spec_history()
            },
    {
        let n = self.active_actions.len();
        let mut i: usize = 0;
        while i < n
            invariant
                *self == *old(self),
                old(self).history_wf(),
                n == self.spec_active().len(),
                i <= n,
                forall|k: int| 0 <= k < i ==> (#[trigger] self.spec_active()[k]).id@ != action_id@,
            decreases n - i,
        {
            if str_equal(self.active_actions[i].id.as_str(), action_id) {
                let mut action = self.active_actions.remove(i);
                action.status = status;
                action.result_message = Some(result);
                self.action_history.push(action);
                proof {
                    assert(self.spec_trackers() =~= old(self).spec_trackers());
                }
                return ;
            }
            i = i + 1;
        }
    }

    /// Get the in-flight actions, oldest first.
    pub fn get_active_actions(&self) -> (r: Vec<HealingAction>)
        ensures
            r@.len() == self.spec_active().len(),
            forall|i: int| 0 <= i < r@.len() ==> #[trigger] r@[i] == self.spec_active()[i],
    {
        let n = self.active_actions.len();
        let mut out: Vec<HealingAction> = Vec::new();
        let mut i: usize = 0;
        while i < n
            invariant
                n == self.spec_active().len(),
                i <= n,
                out.len() == i,
                forall|k: int| 0 <= k < i ==> #[trigger] out@[k] == self.spec_active()[k],
            decreases n - i,
        {
            out.push(clone_healing_action(&self.active_actions[i]));
            i = i + 1;
        }
        out
    }

    /// Get the most recently completed actions, newest first, at most
    /// `limit` of them.
    pub fn get_action_history(&self, limit: usize) -> (r: Vec<HealingAction>)
        ensures
            r@.len() == if limit <= self.spec_history().len() {
                limit as int
            } else {
                self.spec_history().len() as int
            },
            forall|i: int|
                0 <= i < r@.len() ==> #[trigger] r@[i] == self.spec_history()[self.spec_history().len()
                    - 1 - i],
    {
        let n = self.action_history.len();
        let mut out: Vec<HealingAction> = Vec::new();
        let mut i: usize = 0;
        while i < n && i < limit
            invariant
                n == self.spec_history().len(),
                i <= n,
                i <= limit,
                out.len() == i,
                forall|k: int|
                    0 <= k < i ==> #[trigger] out@[k] == self.spec_history()[n - 1 - k],
            decreases n - i,
        {
            out.push(clone_healing_action(self.action_history.get(n - 1 - i)));
            i = i + 1;
        }
        out
    }

    /// Get healing statistics: sizes of the active set and history,
    /// per-outcome counts, the mean recovery time of successful
    /// actions, and the tracked and failed connector counts.
    pub fn get_statistics(&self) -> (r: HealingStatistics)
        ensures
            r.active_actions == self.spec_active().len(),
            r.total_actions == self.spec_history().len(),
            r.successful_actions == count_status(self.spec_history(), ActionStatus::Success),
            r.failed_actions == count_status(self.spec_history(), ActionStatus::Failed),
            r.avg_recovery_time_ms == if count_status(self.spec_history(), ActionStatus::Success)
                > 0 {
                sum_recovery(self.spec_history()) / count_status(
                    self.spec_history(),
                    ActionStatus::Success,
                )
            } else {
                0int
            },
            r.tracked_connectors == self.spec_trackers().len(),
            r.failed_connectors == count_failed(self.spec_trackers()),
    {
        let n = self.action_history.len();
        let mut successful: usize = 0;
        let mut failed: usize = 0;
        let mut rec_entries: usize = 0;
        let mut rec_sum: u128 = 0;
        let mut i: usize = 0;
        while i < n
            invariant
                n == self.spec_history().len(),
                n <= usize::MAX,
                i <= n,
                successful == count_status(self.spec_history().take(i as int), ActionStatus::Success),
                failed == count_status(self.spec_history().take(i as int), ActionStatus::Failed),
                rec_sum == sum_recovery(self.spec_history().take(i as int)),
                rec_entries == count_with_recovery(self.spec_history().take(i as int)),
                successful <= i,
                failed <= i,
                rec_entries <= successful,
                rec_sum <= rec_entries * (u64::MAX as u128),
            decreases n - i,
        {
            let a = self.action_history.get(i);
            proof {
                let pre = self.spec_history().take(i as int);
                let cur = self.spec_history().take(i + 1 as int);
                assert(cur.drop_last() =~= pre);
                assert(cur.last() == self.spec_history()[i as int]);
                assert((rec_entries + 1) * (u64::MAX as u128) == rec_entries * (u64::MAX as u128) + (
                u64::MAX as u128)) by (nonlinear_arith);
            }
            if matches!(a.status, ActionStatus::Success) {
                successful = successful + 1;
                match a.recovery_time_ms {
                    Some(t) => {
                        rec_entries = rec_entries + 1;
                        rec_sum = rec_sum + t as u128;
                    },
                    None => {},
                }
            } else if matches!(a.status, ActionStatus::Failed) {
                failed = failed + 1;
            }
            i = i + 1;
        }
        proof {
            assert(self.spec_history().take(n as int) =~= self.spec_history());
        }

        let avg: u64 = if successful > 0 {
            proof {
                lemma_recovery_avg_fits(
                    rec_sum as int,
                    rec_entries as int,
                    successful as int,
                );
            }
            (rec_sum / successful as u128) as u64
        } else {
            0
        };

        let tn = self.connector_failures.len();
        let mut failed_conn: usize = 0;
        let mut j: usize = 0;
        while j < tn
            invariant
                tn == self.spec_trackers().len(),
                j <= tn,
                failed_conn == count_failed(self.spec_trackers().take(j as int)),
                failed_conn <= j,
            decreases tn - j,
        {
            proof {
                let pre = self.spec_trackers().take(j as int);
                let cur = self.spec_trackers().take(j + 1 as int);
                assert(cur.drop_last() =~= pre);
                assert(cur.last() == self.spec_trackers()[j as int]);
            }
            if self.connector_failures[j].is_failed {
                failed_conn = failed_conn + 1;
            }
            j = j + 1;
        }
        proof {
            assert(self.spec_trackers().take(tn as int) =~= self.spec_trackers());
        }

        HealingStatistics {
            active_actions: self.active_actions.len(),
            total_actions: n,
            successful_actions: successful,
            failed_actions: failed,
            avg_recovery_time_ms: avg,
            tracked_connectors: tn,
            failed_connectors: failed_conn,
        }
    }
}

/// How many recorded actions ended with the given status.
pub open spec fn count_status(s: Seq<HealingAction>, status: ActionStatus) -> int
    decreases s.len(),
{
    if s.len() == 0 {
        0
    } else {
        count_status(s.drop_last(), status) + if s.last().status == status {
            1int
        } else {
            0int
        }
    }
}

/// How many successful actions carry a recovery time.
pub open spec fn count_with_recovery(s: Seq<HealingAction>) -> int
    decreases s.len(),
{
    if s.len() == 0 {
        0
    } else {
        count_with_recovery(s.drop_last()) + if s.last().status is Success && s.last().recovery_time_ms
            is Some {
            1int
        } else {
            0int
        }
    }
}

/// Sum of the recovery times of successful actions that carry one.
pub open spec fn sum_recovery(s: Seq<HealingAction>) -> int
    decreases s.len(),
{
    if s.len() == 0 {
        0
    } else {
        sum_recovery(s.drop_last()) + if s.last().status is Success && s.last().recovery_time_ms
            is Some {
            s.last().recovery_time_ms->0 as int
        } else {
            0int
        }
    }
}

/// How many trackers stand failed.
pub open spec fn count_failed(s: Seq<FailureTracker>) -> int
    decreases s.len(),
{
    if s.len() == 0 {
        0
    } else {
        count_failed(s.drop_last()) + if s.last().is_failed {
            1int
        } else {
            0int
        }
    }
}

/// The mean recovery time of values each below the machine bound stays
/// below it.
proof fn lemma_recovery_avg_fits(sum: int, entries: int, successful: int)
    requires
        successful > 0,
        0 <= entries <= successful,
        0 <= sum <= entries * (u64::MAX as int),
    ensures
        sum / successful <= u64::MAX,
{
    assert(entries * (u64::MAX as int) <= successful * (u64::MAX as int)) by (nonlinear_arith)
        requires
            0 <= entries <= successful,
    ;
    assert(sum / successful <= u64::MAX) by (nonlinear_arith)
        requires
            successful > 0,
            0 <= sum,
            sum <= successful * (u64::MAX as int),
    ;
}

/// Self-healing produces a connector switch on the very event whose
/// failure completes the threshold streak: with healing and
/// auto-switching on, a connector one failure short of the threshold,
/// and one more failed event on it, the evaluation hands back a pending
/// switch action for that payment.
pub proof fn lemma_failover_at_threshold(
    s0: SelfHealingService,
    s1: SelfHealingService,
    e: PaymentEvent,
    now: u64,
    r: Result<Option<HealingAction>, SelfHealingError>,
)
    requires
        s0.wf(),
        s0.spec_config().self_healing.enabled,
        s0.spec_config().self_healing.auto_switch_connectors,
        s0.spec_config().self_healing.failure_threshold >= 1,
        e.status@ == "failed"@,
        e.connector is Some,
        has_tracker(s0.spec_trackers(), e.connector->0@) || s0.spec_config()
            .self_healing.failure_threshold == 1,
        forall|i: int|
            0 <= i < s0.spec_trackers().len() && (#[trigger] s0.spec_trackers()[i]).connector@
                == e.connector->0@ ==> s0.spec_trackers()[i].consecutive_failures == s0.spec_config()
                .self_healing.failure_threshold - 1,
        SelfHealingService::evaluate_post(s0, s1, e, now, r),
    ensures
        r matches Ok(o) && o matches Some(a) && action_launched(
            a,
            HealingActionType::SwitchConnector,
            e,
            now,
        ),
{
    let name = e.connector->0@;
    let cfg = s0.spec_config().self_healing;
    if has_tracker(s0.spec_trackers(), name) {
        let i = choose|i: int|
            {
                &&& 0 <= i < s0.spec_trackers().len()
                &&& (#[trigger] s0.spec_trackers()[i]).connector@ == name
                &&& forall|k: int|
                    0 <= k < i ==> (#[trigger] s0.spec_trackers()[k]).connector@ != name
                &&& s1.spec_trackers()[i] == tracker_after_failure(
                    s0.spec_trackers()[i],
                    now,
                    cfg.failure_threshold,
                )
                &&& forall|k: int|
                    0 <= k < s0.spec_trackers().len() && k != i ==> s1.spec_trackers()[k]
                        == #[trigger] s0.spec_trackers()[k]
            };
        assert(s1.spec_trackers()[i].is_failed);
        assert(switch_fires(s1.spec_trackers(), name, cfg.auto_switch_connectors));
    } else {
        assert(cfg.failure_threshold == 1);
        assert(s1.spec_trackers().last().is_failed);
        assert(switch_fires(s1.spec_trackers(), name, cfg.auto_switch_connectors));
    }
}

/// A single success on a connector clears its failure streak: after a
/// succeeded event on that connector, every tracker of its name stands
/// at zero consecutive failures with the failed flag lowered.
pub proof fn lemma_success_resets_streak(
    s0: SelfHealingService,
    s1: SelfHealingService,
    e: PaymentEvent,
    now: u64,
    r: Result<Option<HealingAction>, SelfHealingError>,
)
    requires
        s0.wf(),
        s0.spec_config().self_healing.enabled,
        e.status@ == "succeeded"@,
        e.connector is Some,
        SelfHealingService::evaluate_post(s0, s1, e, now, r),
    ensures
        forall|i: int|
            0 <= i < s1.spec_trackers().len() && (#[trigger] s1.spec_trackers()[i]).connector@
                == e.connector->0@ ==> s1.spec_trackers()[i].consecutive_failures == 0
                && !s1.spec_trackers()[i].is_failed,
{
    let name = e.connector->0@;
    assert("failed"@ != "succeeded"@) by {
        reveal_strlit("failed");
        reveal_strlit("succeeded");
        assert("failed"@.len() == 6);
        assert("succeeded"@.len() == 9);
    }
    if has_tracker(s0.spec_trackers(), name) {
        let i = choose|i: int|
            {
                &&& 0 <= i < s0.spec_trackers().len()
                &&& (#[trigger] s0.spec_trackers()[i]).connector@ == name
                &&& forall|k: int|
                    0 <= k < i ==> (#[trigger] s0.spec_trackers()[k]).connector@ != name
                &&& s1.spec_trackers()[i] == tracker_after_success(s0.spec_trackers()[i])
                &&& forall|k: int|
                    0 <= k < s0.spec_trackers().len() && k != i ==> s1.spec_trackers()[k]
                        == #[trigger] s0.spec_trackers()[k]
            };
        assert forall|j: int|
            0 <= j < s1.spec_trackers().len() && (#[trigger] s1.spec_trackers()[j]).connector@ == name
            implies s1.spec_trackers()[j].consecutive_failures == 0 && !s1.spec_trackers()[j].is_failed by {
            if j != i {
                assert(s1.spec_trackers()[j] == s0.spec_trackers()[j]);
                assert(s0.spec_trackers()[j].connector@ == name);
                assert(s0.spec_trackers()[i].connector@ == name);
                assert(false);
            }
        }
    } else {
        assert forall|j: int|
            0 <= j < s1.spec_trackers().len() && (#[trigger] s1.spec_trackers()[j]).connector@ == name
            implies s1.spec_trackers()[j].consecutive_failures == 0 && !s1.spec_trackers()[j].is_failed by {
            assert(s1.spec_trackers()[j] == s0.spec_trackers()[j]);
            assert(has_tracker(s0.spec_trackers(), name));
            assert(false);
        }
    }
}

} // verus!
