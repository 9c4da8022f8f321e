//! The per-target health state machine: counts consecutive failed probes,
//! escalates once per down episode, and resolves its open alerts on recovery.
//!
//! The monitor decides; its caller performs what it decides (waits, probes,
//! sends, edits) and reports the results back.
use crate::configs::{AddressConfig, PingConfig};
use crate::delivery::{AlertMessage, MessageHandle};
use crate::text::{
    lemma_bodies_name_target, occurs_in, probe_error_body, probe_error_text, recovered_body,
    recovered_text, text_contains, unavailable_body, unavailable_text,
};
use vstd::prelude::*;

verus! {

/// Result of one probe of a target.
#[derive(Debug)]
pub enum ProbeOutcome {
    Reachable,
    /// The target did not answer; the text says how.
    Unreachable(String),
    /// The probe itself could not be run; the text says why.
    ExecutionError(String),
}

/// What the caller does after a probe, before the next tick.
#[derive(Debug)]
pub enum MonitorAction {
    /// Nothing until the next tick.
    Wait,
    /// Edit each open alert that has a handle here, once, to `recovered_body`;
    /// the entries follow the order of the open alerts, `None` meaning no edit.
    /// Report the results with `record_resolutions`.
    Resolve { edits: Vec<Option<MessageHandle>>, recovered_body: String },
    /// Deliver `alert_body` to every recipient, report the sent copies with
    /// `record_escalation`, then pause `cooldown_secs` seconds.
    Escalate { alert_body: String, cooldown_secs: u64 },
}

/// The monitor's answer to a probe.
#[derive(Debug)]
pub struct ProbeResponse {
    /// A notice to send at once, a single time, to every recipient, when the
    /// probe itself could not be run.
    pub error_report: Option<String>,
    pub action: MonitorAction,
}

/// Where a target stands in its health cycle.
#[derive(Debug, Clone, Copy, PartialEq, Eq, Structural)]
pub enum MonitorStatus {
    /// No failure since the last success, and no open alert.
    Healthy,
    /// Failures observed, below the threshold.
    Suspect,
    /// An alert was sent and is not yet resolved everywhere.
    Alerting,
}

/// The abstract state of a target's monitor.
pub struct MonitorState {
    pub address: Seq<char>,
    pub description: Seq<char>,
    /// Consecutive failures that make an alert.
    pub threshold: int,
    /// Pause after an alert, in seconds.
    pub cooldown: nat,
    /// Consecutive failed probes not yet escalated.
    pub failures: nat,
    /// Alerts of the current down episode that are not yet resolved.
    pub open: Seq<AlertMessage>,
}

/// The status of a state: alerting while alerts are open, suspect while
/// failures are counted, healthy otherwise.
pub open spec fn status_of(s: MonitorState) -> MonitorStatus {
    if s.open.len() > 0 {
        MonitorStatus::Alerting
    } else if s.failures > 0 {
        MonitorStatus::Suspect
    } else {
        MonitorStatus::Healthy
    }
}

/// A failed probe in this state sends an alert.
pub open spec fn escalates(s: MonitorState, reachable: bool) -> bool {
    &&& !reachable
    &&& s.open.len() == 0
    &&& s.failures + 1 >= s.threshold
}

/// The state after a probe; a reachable target clears the failure count.
pub open spec fn after_probe(s: MonitorState, reachable: bool) -> MonitorState {
    if reachable {
        MonitorState { failures: 0, ..s }
    } else if s.open.len() > 0 {
        s
    } else if escalates(s, reachable) {
        MonitorState { failures: 0, ..s }
    } else {
        MonitorState { failures: s.failures + 1, ..s }
    }
}

/// An open alert that recovery can edit: it was delivered and names the target.
pub open spec fn resolvable(m: AlertMessage, address: Seq<char>) -> bool {
    &&& m.handle is Some
    &&& occurs_in(address, m.body@)
}

/// One entry per open alert: its handle when it is to be edited, else `None`.
pub open spec fn resolution_plan(open: Seq<AlertMessage>, address: Seq<char>) -> Seq<
    Option<MessageHandle>,
> {
    Seq::new(
        open.len(),
        |i: int|
            if resolvable(open[i], address) {
                open[i].handle
            } else {
                None
            },
    )
}

/// The copies of a sent alert that were delivered, in order.
pub open spec fn with_handle(sent: Seq<AlertMessage>) -> Seq<AlertMessage>
    decreases sent.len(),
{
    if sent.len() == 0 {
        seq![]
    } else {
        let head = with_handle(sent.drop_last());
        if sent.last().handle is Some {
            head.push(sent.last())
        } else {
            head
        }
    }
}

/// The open alerts that stay after the edits: those whose edit did not
/// succeed, in their order.
pub open spec fn still_open(open: Seq<AlertMessage>, edited: Seq<bool>, address: Seq<char>) -> Seq<
    AlertMessage,
>
    decreases open.len(),
{
    if open.len() == 0 {
        seq![]
    } else {
        let n = open.len() - 1;
        let head = still_open(open.drop_last(), edited, address);
        if edited[n] && resolvable(open[n], address) {
            head
        } else {
            head.push(open[n])
        }
    }
}

/// The state after the copies of an alert were sent.
pub open spec fn after_escalation(s: MonitorState, sent: Seq<AlertMessage>) -> MonitorState {
    MonitorState { open: s.open + with_handle(sent), failures: 0, ..s }
}

/// The state after the edits of a resolution round.
pub open spec fn after_resolution(s: MonitorState, edited: Seq<bool>) -> MonitorState {
    MonitorState { open: still_open(s.open, edited, s.address), ..s }
}

/// One failed probe, followed, when it escalates, by recording the copies
/// `sent` of the alert.
pub open spec fn after_failed_cycle(s: MonitorState, sent: Seq<AlertMessage>) -> MonitorState {
    if escalates(s, false) {
        after_escalation(after_probe(s, false), sent)
    } else {
        after_probe(s, false)
    }
}

/// The state after `n` consecutive failed probes.
pub open spec fn after_failures(s: MonitorState, sent: Seq<AlertMessage>, n: nat) -> MonitorState
    decreases n,
{
    if n == 0 {
        s
    } else {
        after_failures(after_failed_cycle(s, sent), sent, (n - 1) as nat)
    }
}

/// How many alerts `n` consecutive failed probes send.
pub open spec fn escalations_in_failures(s: MonitorState, sent: Seq<AlertMessage>, n: nat) -> nat
    decreases n,
{
    if n == 0 {
        0
    } else {
        (if escalates(s, false) {
            1nat
        } else {
            0nat
        }) + escalations_in_failures(after_failed_cycle(s, sent), sent, (n - 1) as nat)
    }
}

/// While alerts are open, failed probes leave the state as it is and send
/// no further alert, however many there are.
pub proof fn lemma_open_alerts_suppress_escalation(
    s: MonitorState,
    sent: Seq<AlertMessage>,
    n: nat,
)
    requires
        s.open.len() > 0,
    ensures
        after_failures(s, sent, n) == s,
        escalations_in_failures(s, sent, n) == 0,
    decreases n,
{
    if n > 0 {
        lemma_open_alerts_suppress_escalation(s, sent, (n - 1) as nat);
    }
}

/// A sent alert with a delivered copy leaves a delivered copy to keep open.
proof fn lemma_delivered_copy_kept(sent: Seq<AlertMessage>, i: int)
    requires
        0 <= i < sent.len(),
        sent[i].handle is Some,
    ensures
        with_handle(sent).len() > 0,
    decreases sent.len(),
{
    if sent.last().handle is None {
        assert(sent.drop_last()[i] == sent[i]);
        lemma_delivered_copy_kept(sent.drop_last(), i);
    }
}

/// An unbroken run of failed probes sends at most one alert, provided the
/// alert reaches at least one recipient.
pub proof fn lemma_one_escalation_per_failure_run(
    s: MonitorState,
    sent: Seq<AlertMessage>,
    n: nat,
)
    requires
        exists|i: int| 0 <= i < sent.len() && (#[trigger] sent[i]).handle is Some,
    ensures
        escalations_in_failures(s, sent, n) <= 1,
    decreases n,
{
    if n > 0 {
        let next = after_failed_cycle(s, sent);
        if escalates(s, false) {
            let i = choose|i: int| 0 <= i < sent.len() && (#[trigger] sent[i]).handle is Some;
            lemma_delivered_copy_kept(sent, i);
            lemma_open_alerts_suppress_escalation(next, sent, (n - 1) as nat);
        } else {
            lemma_one_escalation_per_failure_run(next, sent, (n - 1) as nat);
        }
    }
}

/// Every alert that stays open after edits is an open alert that was not
/// both edited and one to edit.
proof fn lemma_still_open_from(open: Seq<AlertMessage>, edited: Seq<bool>, address: Seq<char>)
    ensures
        forall|k: int|
            0 <= k < still_open(open, edited, address).len() ==> exists|j: int|
                0 <= j < open.len() && #[trigger] still_open(open, edited, address)[k]
                    == #[trigger] open[j] && !(edited[j] && resolvable(open[j], address)),
    decreases open.len(),
{
    if open.len() > 0 {
        let n = open.len() - 1;
        let init = open.drop_last();
        lemma_still_open_from(init, edited, address);
        let head = still_open(init, edited, address);
        let kept = still_open(open, edited, address);
        assert forall|k: int| 0 <= k < kept.len() implies exists|j: int|
            0 <= j < open.len() && #[trigger] kept[k] == #[trigger] open[j] && !(edited[j]
                && resolvable(open[j], address)) by {
            if k < head.len() {
                let j = choose|j: int|
                    0 <= j < init.len() && #[trigger] head[k] == #[trigger] init[j] && !(edited[j]
                        && resolvable(init[j], address));
                assert(kept[k] == head[k]);
                assert(init[j] == open[j]);
            } else {
                assert(kept[k] == open[n]);
            }
        }
    }
}

/// An open alert that was not edited successfully is still open afterwards.
proof fn lemma_unedited_stays(
    open: Seq<AlertMessage>,
    edited: Seq<bool>,
    address: Seq<char>,
    i: int,
)
    requires
        0 <= i < open.len(),
        !(edited[i] && resolvable(open[i], address)),
    ensures
        still_open(open, edited, address).contains(open[i]),
    decreases open.len(),
{
    let n = open.len() - 1;
    let head = still_open(open.drop_last(), edited, address);
    if i == n {
        assert(head.push(open[i])[head.len() as int] == open[i]);
    } else {
        assert(open.drop_last()[i] == open[i]);
        lemma_unedited_stays(open.drop_last(), edited, address, i);
        let k = choose|k: int| 0 <= k < head.len() && head[k] == open[i];
        assert(head.push(open[n])[k] == open[i]);
    }
}

/// A resolution round changes nothing for an alert whose edit failed: it
/// stays in the open set as it was.
pub proof fn lemma_failed_edit_keeps_alert(
    open: Seq<AlertMessage>,
    edited: Seq<bool>,
    address: Seq<char>,
    i: int,
)
    requires
        edited.len() == open.len(),
        0 <= i < open.len(),
        !edited[i],
    ensures
        still_open(open, edited, address).contains(open[i]),
{
    lemma_unedited_stays(open, edited, address, i);
}

/// An alert whose edit succeeded leaves the open set: no alert that stays
/// carries its handle, so no later resolution round asks to edit it again.
pub proof fn lemma_resolved_alert_leaves(
    open: Seq<AlertMessage>,
    edited: Seq<bool>,
    address: Seq<char>,
    i: int,
)
    requires
        edited.len() == open.len(),
        0 <= i < open.len(),
        edited[i],
        resolvable(open[i], address),
        forall|j: int| 0 <= j < open.len() && j != i ==> open[j].handle != open[i].handle,
    ensures
        forall|k: int|
            0 <= k < still_open(open, edited, address).len() ==> (#[trigger] still_open(
                open,
                edited,
                address,
            )[k]).handle != open[i].handle,
        forall|k: int|
            0 <= k < resolution_plan(still_open(open, edited, address), address).len() ==> (
            #[trigger] resolution_plan(still_open(open, edited, address), address)[k])
                != open[i].handle,
{
    let kept = still_open(open, edited, address);
    lemma_still_open_from(open, edited, address);
    assert forall|k: int| 0 <= k < kept.len() implies (#[trigger] kept[k]).handle
        != open[i].handle by {
        let j = choose|j: int|
            0 <= j < open.len() && kept[k] == #[trigger] open[j] && !(edited[j] && resolvable(
                open[j],
                address,
            ));
        assert(j != i);
    }
}

/// The copies kept open from a sent alert are delivered copies of it.
proof fn lemma_with_handle_from(sent: Seq<AlertMessage>)
    ensures
        forall|k: int|
            0 <= k < with_handle(sent).len() ==> (#[trigger] with_handle(sent)[k]).handle is Some
                && sent.contains(with_handle(sent)[k]),
    decreases sent.len(),
{
    if sent.len() > 0 {
        let init = sent.drop_last();
        lemma_with_handle_from(init);
        let w = with_handle(sent);
        let head = with_handle(init);
        assert forall|k: int| 0 <= k < w.len() implies (#[trigger] w[k]).handle is Some
            && sent.contains(w[k]) by {
            if k < head.len() {
                assert(w[k] == head[k]);
                let j = choose|j: int| 0 <= j < init.len() && init[j] == head[k];
                assert(sent[j] == init[j]);
            } else {
                assert(w[k] == sent.last());
                assert(sent[sent.len() - 1] == sent.last());
            }
        }
    }
}

/// When the copies of an alert carry its body, the first reachable probe
/// after the escalation asks to edit every alert that was kept open.
pub proof fn lemma_recovery_edits_every_alert(s: MonitorState, sent: Seq<AlertMessage>)
    requires
        s.open.len() == 0,
        forall|i: int|
            0 <= i < sent.len() ==> (#[trigger] sent[i]).body@ == unavailable_text(
                s.address,
                s.description,
            ),
    ensures
        forall|k: int|
            0 <= k < after_escalation(s, sent).open.len() ==> (#[trigger] resolution_plan(
                after_escalation(s, sent).open,
                s.address,
            )[k]) == after_escalation(s, sent).open[k].handle,
        forall|k: int|
            0 <= k < after_escalation(s, sent).open.len() ==> (#[trigger] resolution_plan(
                after_escalation(s, sent).open,
                s.address,
            )[k]) is Some,
{
    let open = after_escalation(s, sent).open;
    lemma_with_handle_from(sent);
    lemma_bodies_name_target(s.address, s.description);
    assert(open =~= with_handle(sent));
    assert forall|k: int| 0 <= k < open.len() implies resolvable(open[k], s.address) by {
        assert(open[k] == with_handle(sent)[k]);
        let j = choose|j: int| 0 <= j < sent.len() && sent[j] == with_handle(sent)[k];
    }
}

/// Monitor of one target.
pub struct TargetMonitor {
    address: String,
    description: String,
    alert_threshold: i64,
    cooldown_secs: u64,
    consecutive_failures: u64,
    open_alerts: Vec<AlertMessage>,
}

impl View for TargetMonitor {
    type V = MonitorState;

    closed spec fn view(&self) -> MonitorState {
        MonitorState {
            address: self.address@,
            description: self.description@,
            threshold: self.alert_threshold as int,
            cooldown: self.cooldown_secs as nat,
            failures: self.consecutive_failures as nat,
            open: self.open_alerts@,
        }
    }
}

impl TargetMonitor {
    /// A healthy monitor of `target` that uses the thresholds of `ping_config`;
    /// a negative pause counts as none.
    pub fn new(target: &AddressConfig, ping_config: &PingConfig) -> (r: TargetMonitor)
        ensures
            r@.address == target.address@,
            r@.description == target.description@,
            r@.threshold == ping_config.retry as int,
            r@.cooldown == if ping_config.sleep_after_alert_secs < 0 {
                0
            } else {
                ping_config.sleep_after_alert_secs as nat
            },
            r@.failures == 0,
            r@.open == Seq::<AlertMessage>::empty(),
    {
        let cooldown_secs: u64 = if ping_config.sleep_after_alert_secs < 0 {
            0
        } else {
            ping_config.sleep_after_alert_secs as u64
        };
        TargetMonitor {
            address: target.address.clone(),
            description: target.description.clone(),
            alert_threshold: ping_config.retry,
            cooldown_secs,
            consecutive_failures: 0,
            open_alerts: Vec::new(),
        }
    }

    pub fn address(&self) -> (r: &String)
        ensures
            r@ == self@.address,
    {
        &self.address
    }

    pub fn description(&self) -> (r: &String)
        ensures
            r@ == self@.description,
    {
        &self.description
    }

    pub fn consecutive_failures(&self) -> (r: u64)
        ensures
            r == self@.failures,
    {
        self.consecutive_failures
    }

    /// Healthy, suspect or alerting, as the state stands.
    pub fn status(&self) -> (r: MonitorStatus)
        ensures
            r == status_of(self@),
    {
        if self.open_alerts.len() > 0 {
            MonitorStatus::Alerting
        } else if self.consecutive_failures > 0 {
            MonitorStatus::Suspect
        } else {
            MonitorStatus::Healthy
        }
    }

    pub fn open_alerts(&self) -> (r: &Vec<AlertMessage>)
        ensures
            r@ == self@.open,
    {
        &self.open_alerts
    }

    /// One entry per open alert: its handle when it is delivered and names
    /// this target, else `None`.
    fn plan_resolutions(&self) -> (r: Vec<Option<MessageHandle>>)
        ensures
            r@ == resolution_plan(self@.open, self@.address),
    {
        let mut edits: Vec<Option<MessageHandle>> = Vec::new();
        let mut i: usize = 0;
        while i < self.open_alerts.len()
            invariant
                i <= self.open_alerts.len(),
                edits@.len() == i,
                forall|k: int|
                    0 <= k < i ==> edits@[k] == resolution_plan(self@.open, self@.address)[k],
            decreases self.open_alerts.len() - i,
        {
            let alert = &self.open_alerts[i];
            if alert.handle.is_some() && text_contains(alert.body.as_str(), self.address.as_str()) {
                edits.push(alert.handle);
            } else {
                edits.push(None);
            }
            i += 1;
        }
        assert(edits@ =~= resolution_plan(self@.open, self@.address));
        edits
    }

    /// Takes the outcome of a probe and says what to do next.
    ///
    /// A reachable target clears the failure count and, while alerts are
    /// open, asks to edit them to the recovery text. A failure while alerts
    /// are open changes nothing; otherwise it is counted, and the failure
    /// that reaches the threshold asks for an alert and clears the count.
    /// A probe that could not run also asks for an immediate notice.
    pub fn on_probe(&mut self, outcome: &ProbeOutcome) -> (r: ProbeResponse)
        ensures
            final(self)@ == after_probe(old(self)@, outcome is Reachable),
            r.action is Resolve <==> (outcome is Reachable && old(self)@.open.len() > 0),
            r.action is Escalate <==> escalates(old(self)@, outcome is Reachable),
            r.action is Resolve ==> r.action->edits@ == resolution_plan(
                old(self)@.open,
                old(self)@.address,
            ),
            r.action is Resolve ==> r.action->recovered_body@ == recovered_text(
                old(self)@.address,
                old(self)@.description,
            ),
            r.action is Escalate ==> r.action->alert_body@ == unavailable_text(
                old(self)@.address,
                old(self)@.description,
            ),
            r.action is Escalate ==> r.action->cooldown_secs == old(self)@.cooldown,
            r.error_report is Some <==> outcome is ExecutionError,
            outcome is ExecutionError ==> r.error_report->0@ == probe_error_text(
                old(self)@.address,
                outcome->ExecutionError_0@,
            ),
    {
        let error_report = match outcome {
            ProbeOutcome::ExecutionError(error) => Some(
                probe_error_body(self.address.as_str(), error.as_str()),
            ),
            _ => None,
        };
        let action = match outcome {
            ProbeOutcome::Reachable => {
                self.consecutive_failures = 0;
                if self.open_alerts.len() > 0 {
                    MonitorAction::Resolve {
                        edits: self.plan_resolutions(),
                        recovered_body: recovered_body(
                            self.address.as_str(),
                            self.description.as_str(),
                        ),
                    }
                } else {
                    MonitorAction::Wait
                }
            },
            _ => {
                if self.open_alerts.len() > 0 {
                    MonitorAction::Wait
                } else {
                    if self.alert_threshold <= 0 || self.consecutive_failures >= (
                    self.alert_threshold - 1) as u64 {
                        self.consecutive_failures = 0;
                        MonitorAction::Escalate {
                            alert_body: unavailable_body(
                                self.address.as_str(),
                                self.description.as_str(),
                            ),
                            cooldown_secs: self.cooldown_secs,
                        }
                    } else {
                        self.consecutive_failures = self.consecutive_failures + 1;
                        MonitorAction::Wait
                    }
                }
            },
        };
        ProbeResponse { error_report, action }
    }

    /// Takes the copies of an alert that was sent to every recipient: the
    /// delivered ones become open alerts, and the failure count is cleared.
    pub fn record_escalation(&mut self, sent: Vec<AlertMessage>)
        ensures
            final(self)@ == after_escalation(old(self)@, sent@),
    {
        let mut i: usize = 0;
        let ghost open0 = self.open_alerts@;
        while i < sent.len()
            invariant
                i <= sent.len(),
                self.address == old(self).address,
                self.description == old(self).description,
                self.alert_threshold == old(self).alert_threshold,
                self.cooldown_secs == old(self).cooldown_secs,
                self.consecutive_failures == old(self).consecutive_failures,
                open0 == old(self).open_alerts@,
                self.open_alerts@ == open0 + with_handle(sent@.subrange(0, i as int)),
            decreases sent.len() - i,
        {
            assert(sent@.subrange(0, i + 1).drop_last() =~= sent@.subrange(0, i as int));
            if sent[i].handle.is_some() {
                self.open_alerts.push(sent[i].clone());
            }
            i += 1;
        }
        assert(sent@.subrange(0, i as int) =~= sent@);
        self.consecutive_failures = 0;
    }

    /// Takes the results of the edits asked for by `Resolve`, one per open
    /// alert in order: an alert leaves the open set when its edit succeeded
    /// and it was one to edit; every other alert stays as it was.
    pub fn record_resolutions(&mut self, edited: &Vec<bool>)
        requires
            edited.len() == old(self)@.open.len(),
        ensures
            final(self)@ == after_resolution(old(self)@, edited@),
    {
        let mut kept: Vec<AlertMessage> = Vec::new();
        let mut i: usize = 0;
        while i < self.open_alerts.len()
            invariant
                i <= self.open_alerts.len(),
                edited.len() == self.open_alerts.len(),
                self.open_alerts@ == old(self).open_alerts@,
                self.address == old(self).address,
                self.description == old(self).description,
                self.alert_threshold == old(self).alert_threshold,
                self.cooldown_secs == old(self).cooldown_secs,
                self.consecutive_failures == old(self).consecutive_failures,
                kept@ == still_open(
                    self.open_alerts@.subrange(0, i as int),
                    edited@,
                    self.address@,
                ),
            decreases self.open_alerts.len() - i,
        {
            let alert = &self.open_alerts[i];
            let ghost prefix = self.open_alerts@.subrange(0, i + 1);
            assert(prefix.drop_last() =~= self.open_alerts@.subrange(0, i as int));
            assert(prefix[i as int] == self.open_alerts@[i as int]);
            let resolved = edited[i] && alert.handle.is_some() && text_contains(
                alert.body.as_str(),
                self.address.as_str(),
            );
            if !resolved {
                kept.push(alert.clone());
            }
            i += 1;
        }
        assert(self.open_alerts@.subrange(0, i as int) =~= self.open_alerts@);
        self.open_alerts = kept;
    }
}

} // verus!
