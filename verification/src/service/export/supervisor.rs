//! Supervision of the export: what is sent when, what waits for a confirmation, and what follows
//! a failure.
//!
//! The runtime performs one action at a time and reports what became of it.

use crate::scheduler::time::Span;
use crate::service::clock::Moment;
use crate::service::config::{same_export, ExportConfig, OutboundConfig};
use crate::service::export::delivery::{
    breaks_round, find_next_delivery, follows_interval, has_interval_deliveries,
    intervals_reachable, next_delivery, settle_delivery, settled, DeliveryState,
    ExportDeliveryFailurePolicy, ExportDeliveryId, Phase,
};
use crate::service::export::pending::{
    confirmed, failure_policy, next_number, noted, PendingExportEvents, PendingView, ResumeStage,
    TransportEvent,
};
use crate::service::outbound::{OutboundEvent, ReportEnvelope};
use vstd::prelude::*;

verus! {

/// Round through the deliveries with the latest report.
#[derive(Debug, Clone, Copy, PartialEq, Eq, Structural)]
pub struct Round {
    /// Part of the round.
    pub phase: Phase,
    /// Delivery that is being made.
    pub place: usize,
    /// Whether the deliveries of every new report follow those of the intervals.
    pub everything: bool,
    /// Start of the round.
    pub now: Moment,
}

/// What the supervisor is in the middle of.
#[derive(Debug)]
pub enum Activity {
    /// Nothing; it waits for something to happen.
    Idle,
    /// Nothing any more.
    Stopped,
    /// It delivers the latest report.
    Delivering {
        /// The round.
        round: Round,
        /// Whether a failure is passed over.
        lenient: bool,
    },
    /// It sends an event.
    Sending {
        /// The event.
        event: OutboundEvent,
    },
    /// It sends an event once more over a new connection.
    Resending {
        /// The event.
        event: OutboundEvent,
    },
    /// It waits for deliveries that follow a new configuration.
    Rebuilding {
        /// The configuration.
        outbound: OutboundConfig,
    },
    /// It waits for a new connection.
    Reconnecting {
        /// Event whose sending failed.
        after: Option<OutboundEvent>,
    },
    /// It delivers the latest report over a new connection.
    ResumingReports {
        /// The round.
        round: Round,
        /// Event whose sending failed.
        after: Option<OutboundEvent>,
    },
    /// It sends the waiting events over a new connection.
    Resuming {
        /// Sort of event.
        stage: ResumeStage,
        /// Event that is being sent.
        current: u64,
        /// Event whose sending failed.
        after: Option<OutboundEvent>,
    },
}

/// What the runtime has to do.
#[derive(Debug)]
pub enum ExportAction {
    /// Wait for the next thing to happen.
    Receive,
    /// Hand the latest report over and report what became of it.
    SendReport {
        /// Delivery to make.
        delivery: ExportDeliveryId,
        /// The report.
        report: ReportEnvelope,
    },
    /// Hand an event over and report what became of it.
    Send(OutboundEvent),
    /// Close the connection, pause, connect again and report what became of it.
    Reconnect {
        /// The pause.
        pause: Span,
    },
    /// Work out the deliveries anew.
    RebuildDeliveries,
    /// Close the connection and end.
    Stop,
    /// Close the connection and end with an error.
    Fail(String),
}

/// Supervisor of the export.
#[derive(Debug)]
pub struct ExportSupervisor {
    /// Deliveries of the connection.
    pub deliveries: Vec<DeliveryState>,
    /// Latest report.
    pub latest_report: Option<ReportEnvelope>,
    /// Events that wait for a confirmation.
    pub pending: PendingExportEvents,
    /// Configuration of the connection.
    pub export_config: ExportConfig,
    /// Configuration of the deliveries.
    pub outbound_config: OutboundConfig,
    /// What the supervisor is in the middle of.
    pub activity: Activity,
}

/// Supervisor as a mathematical value.
#[verifier::ext_equal]
pub struct SupervisorView {
    /// Deliveries of the connection.
    pub deliveries: Seq<DeliveryState>,
    /// Latest report.
    pub latest_report: Option<ReportEnvelope>,
    /// Events that wait for a confirmation.
    pub pending: PendingView,
    /// Configuration of the connection.
    pub export_config: ExportConfig,
    /// Configuration of the deliveries.
    pub outbound_config: OutboundConfig,
    /// What the supervisor is in the middle of.
    pub activity: Activity,
}

impl View for ExportSupervisor {
    type V = SupervisorView;

    open spec fn view(&self) -> SupervisorView {
        SupervisorView {
            deliveries: self.deliveries@,
            latest_report: self.latest_report,
            pending: self.pending@,
            export_config: self.export_config,
            outbound_config: self.outbound_config,
            activity: self.activity,
        }
    }
}

/// Round through all deliveries that starts at `now`.
pub open spec fn full_round(now: Moment) -> Round {
    Round { phase: Phase::Intervals, place: 0, everything: true, now }
}

/// Deliveries, and the round as far as it goes until a report has to be handed over; `None`
/// where the round is over.
pub open spec fn continued(
    deliveries: Seq<DeliveryState>,
    report: Option<ReportEnvelope>,
    round: Round,
) -> (Seq<DeliveryState>, Option<Round>) {
    match report {
        None => (deliveries, None),
        Some(report) => {
            let (first, place) = next_delivery(
                deliveries,
                round.place as int,
                round.phase,
                report.sequence,
                round.now,
            );
            if place < first.len() {
                (first, Some(Round { place: place as usize, ..round }))
            } else if round.phase == Phase::Intervals && round.everything {
                let (second, place) = next_delivery(
                    first,
                    0,
                    Phase::LatestReport,
                    report.sequence,
                    round.now,
                );
                if place < second.len() {
                    (
                        second,
                        Some(Round { phase: Phase::LatestReport, place: place as usize, ..round }),
                    )
                } else {
                    (second, None)
                }
            } else {
                (first, None)
            }
        },
    }
}

impl SupervisorView {
    /// Whether the parts of the supervisor fit together.
    pub open spec fn wf(self) -> bool {
        match self.activity {
            Activity::Delivering { round, .. } => self.round_fits(round),
            Activity::ResumingReports { round, .. } => self.round_fits(round),
            Activity::Resuming { stage, current, .. } => self.pending.numbers(stage).contains(
                current,
            ),
            _ => true,
        }
    }

    /// Whether a round can go on.
    pub open spec fn round_fits(self, round: Round) -> bool {
        &&& self.latest_report is Some
        &&& round.place < self.deliveries.len()
        &&& intervals_reachable(self.deliveries, round.now)
    }

    /// Action that hands the latest report over to a delivery.
    pub open spec fn send_report(self, round: Round) -> ExportAction {
        ExportAction::SendReport {
            delivery: self.deliveries[round.place as int].spec.id,
            report: self.latest_report->0,
        }
    }

    /// Goes on with a round.
    pub open spec fn deliver(self, round: Round, lenient: bool) -> (SupervisorView, ExportAction) {
        let (deliveries, next) = continued(self.deliveries, self.latest_report, round);
        match next {
            Some(round) => {
                let next = SupervisorView {
                    deliveries,
                    activity: Activity::Delivering { round, lenient },
                    ..self
                };
                (next, next.send_report(round))
            },
            None => (
                SupervisorView { deliveries, activity: Activity::Idle, ..self },
                ExportAction::Receive,
            ),
        }
    }

    /// Asks for a new connection.
    pub open spec fn reconnect(self, pause: Span, after: Option<OutboundEvent>) -> (
        SupervisorView,
        ExportAction,
    ) {
        (
            SupervisorView { activity: Activity::Reconnecting { after }, ..self },
            ExportAction::Reconnect { pause },
        )
    }

    /// Ends with an error.
    pub open spec fn fail(self, error: String) -> (SupervisorView, ExportAction) {
        (SupervisorView { activity: Activity::Stopped, ..self }, ExportAction::Fail(error))
    }

    /// Waits for the next thing to happen.
    pub open spec fn rest(self) -> (SupervisorView, ExportAction) {
        (SupervisorView { activity: Activity::Idle, ..self }, ExportAction::Receive)
    }

    /// Goes on with the waiting events: those of `stage` beyond `last`, then the later stages,
    /// then the event whose sending failed.
    pub open spec fn resume(
        self,
        stage: ResumeStage,
        last: Option<u64>,
        after: Option<OutboundEvent>,
    ) -> (SupervisorView, ExportAction)
        decreases stage.remaining(),
    {
        match next_number(self.pending.numbers(stage), last) {
            Some(current) => (
                SupervisorView { activity: Activity::Resuming { stage, current, after }, ..self },
                ExportAction::Send(self.pending.event(stage, current)),
            ),
            None => match stage.following() {
                Some(stage) => self.resume(stage, None, after),
                None => match after {
                    Some(event) => (
                        SupervisorView { activity: Activity::Resending { event }, ..self },
                        ExportAction::Send(event),
                    ),
                    None => self.rest(),
                },
            },
        }
    }

    /// Goes on with the latest report over a new connection; the waiting events follow.
    pub open spec fn resume_reports(self, round: Round, after: Option<OutboundEvent>) -> (
        SupervisorView,
        ExportAction,
    ) {
        let (deliveries, next) = continued(self.deliveries, self.latest_report, round);
        match next {
            Some(round) => {
                let next = SupervisorView {
                    deliveries,
                    activity: Activity::ResumingReports { round, after },
                    ..self
                };
                (next, next.send_report(round))
            },
            None => (SupervisorView { deliveries, ..self }).resume(
                ResumeStage::TaskResults,
                None,
                after,
            ),
        }
    }

    /// What follows an outbound event, or the end of all outbound events.
    pub open spec fn on_outbound(self, event: Option<OutboundEvent>, now: Moment) -> (
        SupervisorView,
        ExportAction,
    ) {
        match event {
            None => (SupervisorView { activity: Activity::Stopped, ..self }, ExportAction::Stop),
            Some(OutboundEvent::Report(report)) => (SupervisorView {
                latest_report: Some(report),
                ..self
            }).deliver(full_round(now), false),
            Some(event) => (
                SupervisorView { activity: Activity::Sending { event }, ..self },
                ExportAction::Send(event),
            ),
        }
    }

    /// What follows news of a message, or the end of all such news.
    pub open spec fn on_transport(self, event: Option<TransportEvent>) -> (
        SupervisorView,
        ExportAction,
    ) {
        match event {
            None => self.reconnect(self.export_config.reconnect_interval, None),
            Some(event) => {
                let next = SupervisorView {
                    pending: noted(self.pending, event),
                    deliveries: match event {
                        TransportEvent::Sent { transport, delivery, sequence } => confirmed(
                            self.deliveries,
                            delivery,
                            sequence,
                        ),
                        TransportEvent::Failed { .. } => self.deliveries,
                    },
                    ..self
                };
                match event {
                    TransportEvent::Failed { transport, delivery, sequence, error } if (
                    failure_policy(self.deliveries, delivery)
                        == ExportDeliveryFailurePolicy::ReconnectPipeline) => next.reconnect(
                        self.export_config.reconnect_interval,
                        None,
                    ),
                    _ => next.rest(),
                }
            },
        }
    }

    /// What follows the regular look at the intervals.
    pub open spec fn on_tick(self, now: Moment) -> (SupervisorView, ExportAction) {
        if exists|i: int| 0 <= i < self.deliveries.len() && #[trigger] follows_interval(self.deliveries[i]) {
            self.deliver(
                Round { phase: Phase::Intervals, place: 0, everything: false, now },
                false,
            )
        } else {
            self.rest()
        }
    }

    /// What follows a new configuration, or the end of all configurations.
    pub open spec fn on_config(self, config: Option<(ExportConfig, OutboundConfig)>) -> (
        SupervisorView,
        ExportAction,
    ) {
        match config {
            None => (SupervisorView { activity: Activity::Stopped, ..self }, ExportAction::Stop),
            Some((export, outbound)) => if !same_export(export, self.export_config) {
                self.reconnect(export.reconnect_interval, None)
            } else if outbound == self.outbound_config {
                self.rest()
            } else {
                (
                    SupervisorView { activity: Activity::Rebuilding { outbound }, ..self },
                    ExportAction::RebuildDeliveries,
                )
            },
        }
    }

    /// What follows new deliveries, or the failure to work them out.
    pub open spec fn on_rebuilt(
        self,
        rebuilt: Result<Seq<DeliveryState>, String>,
        now: Moment,
    ) -> (SupervisorView, ExportAction) {
        match (rebuilt, self.activity) {
            (Ok(deliveries), Activity::Rebuilding { outbound }) => (SupervisorView {
                deliveries,
                outbound_config: outbound,
                ..self
            }).deliver(full_round(now), false),
            (Err(error), _) => self.fail(error),
            _ => self.rest(),
        }
    }

    /// What follows a new connection.
    pub open spec fn on_reconnected(
        self,
        deliveries: Seq<DeliveryState>,
        export_config: ExportConfig,
        outbound_config: OutboundConfig,
        now: Moment,
    ) -> (SupervisorView, ExportAction) {
        (SupervisorView {
            deliveries,
            export_config,
            outbound_config,
            activity: Activity::Idle,
            ..self
        }).resume_reports(
            full_round(now),
            match self.activity {
                Activity::Reconnecting { after } => after,
                _ => None,
            },
        )
    }

    /// What follows the attempt to hand something over: the number of messages that it became,
    /// or an error.
    pub open spec fn on_sent(self, outcome: Result<usize, String>) -> (
        SupervisorView,
        ExportAction,
    ) {
        let base = SupervisorView { activity: Activity::Idle, ..self };
        match self.activity {
            Activity::Delivering { round, lenient } => base.delivery_made(round, lenient, outcome),
            Activity::Sending { event } => base.event_sent(event, outcome),
            Activity::Resending { event } => match outcome {
                Ok(requests) => (SupervisorView {
                    pending: self.pending.queued(event, requests),
                    ..base
                }).rest(),
                Err(_) => base.rest(),
            },
            Activity::ResumingReports { round, after } => base.resumed_delivery_made(
                round,
                after,
                outcome,
            ),
            Activity::Resuming { stage, current, after } => base.resumed_event_sent(
                stage,
                current,
                after,
                outcome,
            ),
            _ => base.rest(),
        }
    }

    /// What follows a delivery of the latest report.
    pub open spec fn delivery_made(
        self,
        round: Round,
        lenient: bool,
        outcome: Result<usize, String>,
    ) -> (SupervisorView, ExportAction) {
        if !breaks_round(self.deliveries, round.place as int, outcome) {
            self.after_delivery(round, outcome).deliver(next_place(round), lenient)
        } else if lenient {
            self.rest()
        } else {
            self.reconnect(self.export_config.reconnect_interval, None)
        }
    }

    /// What follows the sending of an event. Basic information is not worth a new connection.
    pub open spec fn event_sent(self, event: OutboundEvent, outcome: Result<usize, String>) -> (
        SupervisorView,
        ExportAction,
    ) {
        match outcome {
            Ok(requests) => (SupervisorView {
                pending: self.pending.queued(event, requests),
                ..self
            }).rest(),
            Err(_) => if event is BasicInfo {
                self.rest()
            } else {
                self.reconnect(self.export_config.reconnect_interval, Some(event))
            },
        }
    }

    /// What follows a delivery of the latest report over a new connection.
    pub open spec fn resumed_delivery_made(
        self,
        round: Round,
        after: Option<OutboundEvent>,
        outcome: Result<usize, String>,
    ) -> (SupervisorView, ExportAction) {
        if breaks_round(self.deliveries, round.place as int, outcome) {
            self.fail(outcome->Err_0)
        } else {
            self.after_delivery(round, outcome).resume_reports(next_place(round), after)
        }
    }

    /// What follows the sending of a waiting event over a new connection. An event that the
    /// message format has no use for stops waiting.
    pub open spec fn resumed_event_sent(
        self,
        stage: ResumeStage,
        current: u64,
        after: Option<OutboundEvent>,
        outcome: Result<usize, String>,
    ) -> (SupervisorView, ExportAction) {
        match outcome {
            Err(error) => self.fail(error),
            Ok(requests) => (SupervisorView {
                pending: if requests == 0 {
                    self.pending.without(stage, current)
                } else {
                    self.pending
                },
                ..self
            }).resume(stage, Some(current), after),
        }
    }

    /// Supervisor once a delivery was made or failed without consequence.
    pub open spec fn after_delivery(
        self,
        round: Round,
        outcome: Result<usize, String>,
    ) -> SupervisorView {
        SupervisorView {
            deliveries: settled(
                self.deliveries,
                round.place as int,
                round.phase,
                (self.latest_report->0).sequence,
                outcome,
                round.now,
            ),
            ..self
        }
    }
}

/// Round after the delivery at hand.
pub open spec fn next_place(round: Round) -> Round {
    Round { place: (round.place + 1) as usize, ..round }
}

impl ExportSupervisor {
    /// Supervisor of a new connection, before anything was sent.
    pub fn new(
        deliveries: Vec<DeliveryState>,
        export_config: ExportConfig,
        outbound_config: OutboundConfig,
    ) -> (supervisor: ExportSupervisor)
        ensures
            supervisor@ == (SupervisorView {
                deliveries: deliveries@,
                latest_report: None,
                pending: PendingView::empty(),
                export_config,
                outbound_config,
                activity: Activity::Idle,
            }),
            supervisor@.wf(),
    {
        ExportSupervisor {
            deliveries,
            latest_report: None,
            pending: PendingExportEvents::new(),
            export_config,
            outbound_config,
            activity: Activity::Idle,
        }
    }

    /// Goes on with a round until a report has to be handed over.
    fn advance_round(&mut self, round: Round) -> (next: Option<Round>)
        requires
            intervals_reachable(old(self).deliveries@, round.now),
        ensures
            (final(self)@.deliveries, next) == continued(
                old(self)@.deliveries,
                old(self)@.latest_report,
                round,
            ),
            final(self)@ == (SupervisorView {
                deliveries: final(self)@.deliveries,
                ..old(self)@
            }),
            next is Some ==> final(self)@.round_fits(next->0),
    {
        match &self.latest_report {
            None => None,
            Some(report) => {
                let place = find_next_delivery(
                    &mut self.deliveries,
                    round.place,
                    round.phase,
                    report,
                    round.now,
                );
                if place < self.deliveries.len() {
                    return Some(Round { place, ..round });
                }
                if round.phase == Phase::Intervals && round.everything {
                    let place = find_next_delivery(
                        &mut self.deliveries,
                        0,
                        Phase::LatestReport,
                        report,
                        round.now,
                    );
                    if place < self.deliveries.len() {
                        return Some(Round { phase: Phase::LatestReport, place, ..round });
                    }
                }
                None
            },
        }
    }

    /// Action that hands the latest report over to a delivery.
    fn send_report(&self, round: Round) -> (action: ExportAction)
        requires
            self@.round_fits(round),
        ensures
            action == self@.send_report(round),
    {
        match &self.latest_report {
            Some(report) => ExportAction::SendReport {
                delivery: self.deliveries[round.place].spec.id,
                report: report.clone(),
            },
            None => ExportAction::Receive,
        }
    }

    /// Goes on with a round.
    fn deliver(&mut self, round: Round, lenient: bool) -> (action: ExportAction)
        requires
            intervals_reachable(old(self).deliveries@, round.now),
        ensures
            (final(self)@, action) == old(self)@.deliver(round, lenient),
            final(self)@.wf(),
    {
        match self.advance_round(round) {
            Some(round) => {
                self.activity = Activity::Delivering { round, lenient };
                self.send_report(round)
            },
            None => {
                self.activity = Activity::Idle;
                ExportAction::Receive
            },
        }
    }

    /// Asks for a new connection.
    fn reconnect(&mut self, pause: Span, after: Option<OutboundEvent>) -> (action: ExportAction)
        ensures
            (final(self)@, action) == old(self)@.reconnect(pause, after),
            final(self)@.wf(),
    {
        self.activity = Activity::Reconnecting { after };
        ExportAction::Reconnect { pause }
    }

    /// Ends with an error.
    fn fail(&mut self, error: String) -> (action: ExportAction)
        ensures
            (final(self)@, action) == old(self)@.fail(error),
            final(self)@.wf(),
    {
        self.activity = Activity::Stopped;
        ExportAction::Fail(error)
    }

    /// Waits for the next thing to happen.
    fn rest(&mut self) -> (action: ExportAction)
        ensures
            (final(self)@, action) == old(self)@.rest(),
            final(self)@.wf(),
    {
        self.activity = Activity::Idle;
        ExportAction::Receive
    }

    /// Goes on with the waiting events.
    fn resume(
        &mut self,
        stage: ResumeStage,
        last: Option<u64>,
        after: Option<OutboundEvent>,
    ) -> (action: ExportAction)
        ensures
            (final(self)@, action) == old(self)@.resume(stage, last, after),
            final(self)@.wf(),
        decreases stage.remaining(),
    {
        match self.pending.next_sequence(stage, last) {
            Some(current) => {
                match self.pending.copy_event(stage, current) {
                    Some(event) => {
                        self.activity = Activity::Resuming { stage, current, after };
                        ExportAction::Send(event)
                    },
                    None => self.rest(),
                }
            },
            None => match stage.next() {
                Some(stage) => self.resume(stage, None, after),
                None => match after {
                    Some(event) => {
                        let copy = event.clone();
                        self.activity = Activity::Resending { event };
                        ExportAction::Send(copy)
                    },
                    None => self.rest(),
                },
            },
        }
    }

    /// Goes on with the latest report over a new connection.
    fn resume_reports(&mut self, round: Round, after: Option<OutboundEvent>) -> (action:
        ExportAction)
        requires
            intervals_reachable(old(self).deliveries@, round.now),
        ensures
            (final(self)@, action) == old(self)@.resume_reports(round, after),
            final(self)@.wf(),
    {
        match self.advance_round(round) {
            Some(round) => {
                self.activity = Activity::ResumingReports { round, after };
                self.send_report(round)
            },
            None => self.resume(ResumeStage::TaskResults, None, after),
        }
    }

    /// First round over a new connection. Its failure is passed over.
    pub fn start(&mut self, now: Moment) -> (action: ExportAction)
        requires
            intervals_reachable(old(self).deliveries@, now),
        ensures
            (final(self)@, action) == old(self)@.deliver(full_round(now), true),
            final(self)@.wf(),
    {
        self.deliver(
            Round { phase: Phase::Intervals, place: 0, everything: true, now },
            true,
        )
    }

    /// Takes an outbound event, or the end of all outbound events. Only the latest report is
    /// kept; every other event is sent as it comes.
    pub fn on_outbound(&mut self, event: Option<OutboundEvent>, now: Moment) -> (action:
        ExportAction)
        requires
            intervals_reachable(old(self).deliveries@, now),
        ensures
            (final(self)@, action) == old(self)@.on_outbound(event, now),
            final(self)@.wf(),
    {
        match event {
            None => {
                self.activity = Activity::Stopped;
                ExportAction::Stop
            },
            Some(OutboundEvent::Report(report)) => {
                self.latest_report = Some(report);
                self.deliver(
                    Round { phase: Phase::Intervals, place: 0, everything: true, now },
                    false,
                )
            },
            Some(event) => {
                let copy = event.clone();
                self.activity = Activity::Sending { event };
                ExportAction::Send(copy)
            },
        }
    }

    /// Takes news of a message, or the end of all such news.
    pub fn on_transport(&mut self, event: Option<TransportEvent>) -> (action: ExportAction)
        ensures
            (final(self)@, action) == old(self)@.on_transport(event),
            final(self)@.wf(),
    {
        let pause = self.export_config.reconnect_interval;
        match event {
            None => self.reconnect(pause, None),
            Some(event) => match self.pending.note_transport_event(event, &mut self.deliveries) {
                Ok(_) => self.rest(),
                Err(_) => self.reconnect(pause, None),
            },
        }
    }

    /// Takes a regular look at the intervals.
    pub fn on_tick(&mut self, now: Moment) -> (action: ExportAction)
        requires
            intervals_reachable(old(self).deliveries@, now),
        ensures
            (final(self)@, action) == old(self)@.on_tick(now),
            final(self)@.wf(),
    {
        if has_interval_deliveries(&self.deliveries) {
            self.deliver(
                Round { phase: Phase::Intervals, place: 0, everything: false, now },
                false,
            )
        } else {
            self.rest()
        }
    }

    /// Takes a new configuration, or the end of all configurations. The connection is replaced
    /// only where its own configuration changed.
    pub fn on_config(&mut self, config: Option<(ExportConfig, OutboundConfig)>) -> (action:
        ExportAction)
        ensures
            (final(self)@, action) == old(self)@.on_config(config),
            final(self)@.wf(),
    {
        match config {
            None => {
                self.activity = Activity::Stopped;
                ExportAction::Stop
            },
            Some((export, outbound)) => {
                if !export.same(&self.export_config) {
                    self.reconnect(export.reconnect_interval, None)
                } else if outbound == self.outbound_config {
                    self.rest()
                } else {
                    self.activity = Activity::Rebuilding { outbound };
                    ExportAction::RebuildDeliveries
                }
            },
        }
    }

    /// Takes the deliveries that follow a new configuration, or the failure to work them out.
    pub fn on_rebuilt(&mut self, rebuilt: Result<Vec<DeliveryState>, String>, now: Moment) -> (action:
        ExportAction)
        requires
            rebuilt matches Ok(deliveries) ==> intervals_reachable(deliveries@, now),
        ensures
            (final(self)@, action) == old(self)@.on_rebuilt(
                match rebuilt {
                    Ok(deliveries) => Ok(deliveries@),
                    Err(error) => Err(error),
                },
                now,
            ),
            final(self)@.wf(),
    {
        match rebuilt {
            Err(error) => self.fail(error),
            Ok(deliveries) => match self.activity {
                Activity::Rebuilding { outbound } => {
                    self.deliveries = deliveries;
                    self.outbound_config = outbound;
                    self.deliver(
                        Round { phase: Phase::Intervals, place: 0, everything: true, now },
                        false,
                    )
                },
                _ => self.rest(),
            },
        }
    }

    /// Takes a new connection. The latest report goes out first, then the waiting events, then
    /// the event whose sending failed.
    pub fn on_reconnected(
        &mut self,
        deliveries: Vec<DeliveryState>,
        export_config: ExportConfig,
        outbound_config: OutboundConfig,
        now: Moment,
    ) -> (action: ExportAction)
        requires
            intervals_reachable(deliveries@, now),
        ensures
            (final(self)@, action) == old(self)@.on_reconnected(
                deliveries@,
                export_config,
                outbound_config,
                now,
            ),
            final(self)@.wf(),
    {
        self.deliveries = deliveries;
        self.export_config = export_config;
        self.outbound_config = outbound_config;
        let mut activity = Activity::Idle;
        std::mem::swap(&mut activity, &mut self.activity);
        let after = match activity {
            Activity::Reconnecting { after } => after,
            _ => None,
        };
        self.resume_reports(
            Round { phase: Phase::Intervals, place: 0, everything: true, now },
            after,
        )
    }

    /// Takes the failure to connect again.
    pub fn on_reconnect_failed(&mut self, error: String) -> (action: ExportAction)
        ensures
            (final(self)@, action) == old(self)@.fail(error),
            final(self)@.wf(),
    {
        self.fail(error)
    }

    /// Notes the outcome of a delivery. The error comes back where it ends the round.
    fn settle(&mut self, round: Round, outcome: Result<usize, String>) -> (settling: Result<
        (),
        String,
    >)
        requires
            old(self)@.round_fits(round),
        ensures
            settling is Err <==> breaks_round(
                old(self)@.deliveries,
                round.place as int,
                outcome,
            ),
            settling matches Err(error) ==> {
                &&& outcome == Err::<usize, String>(error)
                &&& final(self)@ == old(self)@
            },
            settling is Ok ==> final(self)@ == old(self)@.after_delivery(round, outcome),
            intervals_reachable(final(self).deliveries@, round.now),
            round.place < usize::MAX,
    {
        assert(round.place < self.deliveries.len());
        let sequence: u64 = match &self.latest_report {
            Some(report) => report.sequence,
            None => 0,
        };
        settle_delivery(
            &mut self.deliveries,
            round.place,
            round.phase,
            sequence,
            outcome,
            round.now,
        )
    }

    fn after_delivering(&mut self, round: Round, lenient: bool, outcome: Result<usize, String>) -> (action:
        ExportAction)
        requires
            old(self)@.round_fits(round),
        ensures
            (final(self)@, action) == old(self)@.delivery_made(round, lenient, outcome),
            final(self)@.wf(),
    {
        match self.settle(round, outcome) {
            Ok(_) => self.deliver(Round { place: round.place + 1, ..round }, lenient),
            Err(_) => {
                if lenient {
                    self.rest()
                } else {
                    let pause = self.export_config.reconnect_interval;
                    self.reconnect(pause, None)
                }
            },
        }
    }

    fn after_sending(&mut self, event: OutboundEvent, outcome: Result<usize, String>) -> (action:
        ExportAction)
        ensures
            (final(self)@, action) == old(self)@.event_sent(event, outcome),
            final(self)@.wf(),
    {
        match outcome {
            Ok(requests) => {
                self.pending.note_queued(event, requests);
                self.rest()
            },
            Err(_) => {
                if matches!(event, OutboundEvent::BasicInfo(_)) {
                    self.rest()
                } else {
                    let pause = self.export_config.reconnect_interval;
                    self.reconnect(pause, Some(event))
                }
            },
        }
    }

    fn after_resumed_delivery(
        &mut self,
        round: Round,
        after: Option<OutboundEvent>,
        outcome: Result<usize, String>,
    ) -> (action: ExportAction)
        requires
            old(self)@.round_fits(round),
        ensures
            (final(self)@, action) == old(self)@.resumed_delivery_made(round, after, outcome),
            final(self)@.wf(),
    {
        match self.settle(round, outcome) {
            Ok(_) => self.resume_reports(Round { place: round.place + 1, ..round }, after),
            Err(error) => self.fail(error),
        }
    }

    fn after_resumed_event(
        &mut self,
        stage: ResumeStage,
        current: u64,
        after: Option<OutboundEvent>,
        outcome: Result<usize, String>,
    ) -> (action: ExportAction)
        ensures
            (final(self)@, action) == old(self)@.resumed_event_sent(
                stage,
                current,
                after,
                outcome,
            ),
            final(self)@.wf(),
    {
        match outcome {
            Err(error) => self.fail(error),
            Ok(requests) => {
                if requests == 0 {
                    self.pending.remove(stage, current);
                }
                self.resume(stage, Some(current), after)
            },
        }
    }

    /// Takes the outcome of handing something over: the number of messages that it became, or
    /// an error.
    pub fn on_sent(&mut self, outcome: Result<usize, String>) -> (action: ExportAction)
        requires
            old(self)@.wf(),
        ensures
            (final(self)@, action) == old(self)@.on_sent(outcome),
            final(self)@.wf(),
    {
        let mut activity = Activity::Idle;
        std::mem::swap(&mut activity, &mut self.activity);
        match activity {
            Activity::Delivering { round, lenient } => self.after_delivering(
                round,
                lenient,
                outcome,
            ),
            Activity::Sending { event } => self.after_sending(event, outcome),
            Activity::Resending { event } => {
                if let Ok(requests) = outcome {
                    self.pending.note_queued(event, requests);
                }
                self.rest()
            },
            Activity::ResumingReports { round, after } => self.after_resumed_delivery(
                round,
                after,
                outcome,
            ),
            Activity::Resuming { stage, current, after } => self.after_resumed_event(
                stage,
                current,
                after,
                outcome,
            ),
            _ => self.rest(),
        }
    }
}

} // verus!
