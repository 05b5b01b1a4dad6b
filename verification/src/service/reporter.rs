//! Reporting loop: when reports, requested snapshots and basic information are queued.
//!
//! The runtime performs one action at a time and reports what became of it.

use crate::scheduler::time::Span;
use crate::service::clock::{elapsed, Moment};
use crate::service::config::{export_format_needs_basic_info, AgentConfig, ExportFormat};
use crate::service::outbound::{BasicInfoEnvelope, OutboundEvent, ReportEnvelope};
use crate::service::protocol::{copied_text, OutboundReport};
use vstd::prelude::*;

verus! {

/// Commands that wait for the reporting loop.
pub const REPORTER_COMMAND_QUEUE_CAPACITY: usize = 32;

/// Seconds between two looks at a requested snapshot.
pub const FORCE_SNAPSHOT_CHECK_SECONDS: u64 = 1;

/// Command to the reporting loop.
#[derive(Debug)]
pub enum ReporterCommand {
    /// Send all metrics as soon as possible.
    ForceSnapshot {
        /// Why they are wanted.
        reason: Option<String>,
    },
}

/// Whether basic information is sent at all.
pub open spec fn sends_basic_info(config: AgentConfig) -> bool {
    config.outbound.basic_info.enabled && config.export.format.takes_basic_info()
}

/// Whether basic information is sent as soon as the agent is ready.
pub open spec fn sends_basic_info_first(config: AgentConfig) -> bool {
    sends_basic_info(config) && config.outbound.basic_info.send_on_start
}

/// Whether basic information is sent at all.
pub fn basic_info_enabled(config: &AgentConfig) -> (enabled: bool)
    ensures
        enabled == sends_basic_info(*config),
{
    config.outbound.basic_info.enabled && export_format_needs_basic_info(config.export.format)
}

/// Whether basic information is sent as soon as the agent is ready.
pub fn basic_info_should_send_on_start(config: &AgentConfig) -> (first: bool)
    ensures
        first == sends_basic_info_first(*config),
{
    basic_info_enabled(config) && config.outbound.basic_info.send_on_start
}

/// Whether a requested snapshot may be sent.
pub open spec fn snapshot_due(previous: Option<Moment>, now: Moment, min_interval: Span) -> bool {
    match previous {
        Some(previous) => elapsed(previous, now) >= min_interval.nanos,
        None => true,
    }
}

/// Whether a requested snapshot may be sent.
pub fn force_snapshot_due(previous: Option<Moment>, now: Moment, min_interval: Span) -> (due: bool)
    ensures
        due == snapshot_due(previous, now, min_interval),
{
    match previous {
        Some(previous) => now.since(previous).nanos >= min_interval.nanos,
        None => true,
    }
}

/// What the runtime has to do.
#[derive(Debug)]
pub enum ReporterAction {
    /// Wait for the next thing to happen.
    Wait,
    /// Assemble the next report, queue it where there is one, and report what became of it.
    QueueReport,
    /// Assemble a snapshot, queue it, and report what became of it.
    QueueSnapshot {
        /// Why it is wanted.
        reason: Option<String>,
    },
    /// Queue basic information where it is ready, and report what became of it.
    QueueBasicInfo,
    /// End the loop.
    Stop,
}

/// What the loop is in the middle of.
#[derive(Debug, Clone, Copy, PartialEq, Eq, Structural)]
pub enum ReporterActivity {
    /// Nothing; it waits for something to happen.
    Idle,
    /// A report is being queued.
    Report {
        /// Whether basic information may follow.
        basic_info_follows: bool,
    },
    /// A snapshot is being queued.
    Snapshot,
    /// Basic information is being queued.
    BasicInfo,
    /// Nothing any more.
    Stopped,
}

/// Reporting loop.
#[derive(Debug)]
pub struct ReporterState {
    /// Configuration.
    pub config: AgentConfig,
    /// Whether configurations can still arrive.
    pub config_open: bool,
    /// Whether samples can still arrive.
    pub updates_open: bool,
    /// Whether commands can still arrive.
    pub commands_open: bool,
    /// Whether a snapshot was requested and not yet queued.
    pub force_snapshot_pending: bool,
    /// Why it was requested.
    pub force_snapshot_reason: Option<String>,
    /// When a requested snapshot was queued last.
    pub last_forced_snapshot_at: Option<Moment>,
    /// Whether the first basic information was queued or is not wanted.
    pub basic_info_initial_sent: bool,
    /// What the loop is in the middle of.
    pub activity: ReporterActivity,
}

/// Things that the loop waits for.
#[derive(Debug, Clone, Copy, PartialEq, Eq, Structural)]
pub struct ReporterGuards {
    /// The regular report.
    pub report_tick: bool,
    /// The regular basic information.
    pub basic_info_tick: bool,
    /// The look at a requested snapshot.
    pub force_snapshot_tick: bool,
    /// Samples.
    pub updates: bool,
    /// Commands.
    pub commands: bool,
    /// Configurations.
    pub config: bool,
}

/// Timers that start again after a new configuration.
#[derive(Debug, Clone, Copy, PartialEq, Eq, Structural)]
pub struct ReporterTimers {
    /// The regular report.
    pub report: bool,
    /// The regular basic information.
    pub basic_info: bool,
}

impl ReporterState {
    /// Whether a requested snapshot can be queued now.
    pub open spec fn snapshot_ready(self, now: Moment) -> bool {
        self.force_snapshot_pending && snapshot_due(
            self.last_forced_snapshot_at,
            now,
            self.config.report.force_snapshot_min_interval,
        )
    }

    /// Whether the first basic information is still wanted.
    pub open spec fn first_basic_info_wanted(self) -> bool {
        !self.basic_info_initial_sent && sends_basic_info_first(self.config)
    }

    /// Goes on to queue basic information where the first one is still wanted.
    pub open spec fn offer_basic_info(self) -> (ReporterState, ReporterAction) {
        if self.first_basic_info_wanted() {
            (
                ReporterState { activity: ReporterActivity::BasicInfo, ..self },
                ReporterAction::QueueBasicInfo,
            )
        } else {
            self.rest()
        }
    }

    /// Waits for the next thing to happen.
    pub open spec fn rest(self) -> (ReporterState, ReporterAction) {
        (ReporterState { activity: ReporterActivity::Idle, ..self }, ReporterAction::Wait)
    }

    /// Ends the loop.
    pub open spec fn stop(self) -> (ReporterState, ReporterAction) {
        (ReporterState { activity: ReporterActivity::Stopped, ..self }, ReporterAction::Stop)
    }

    /// Queues the requested snapshot.
    pub open spec fn force_snapshot(self) -> (ReporterState, ReporterAction) {
        (
            ReporterState { activity: ReporterActivity::Snapshot, ..self },
            ReporterAction::QueueSnapshot { reason: self.force_snapshot_reason },
        )
    }

    /// Loop before anything happened.
    pub open spec fn initial(config: AgentConfig) -> ReporterState {
        ReporterState {
            config,
            config_open: true,
            updates_open: true,
            commands_open: true,
            force_snapshot_pending: false,
            force_snapshot_reason: None,
            last_forced_snapshot_at: None,
            basic_info_initial_sent: !sends_basic_info_first(config),
            activity: ReporterActivity::Idle,
        }
    }

    /// What follows a command.
    pub open spec fn commanded(self, command: Option<ReporterCommand>, now: Moment) -> (
        ReporterState,
        ReporterAction,
    ) {
        match command {
            None => (ReporterState { commands_open: false, ..self }).rest(),
            Some(ReporterCommand::ForceSnapshot { reason }) => {
                let next = ReporterState {
                    force_snapshot_pending: true,
                    force_snapshot_reason: if reason is Some {
                        reason
                    } else {
                        self.force_snapshot_reason
                    },
                    ..self
                };
                if self.config.report.enabled && next.snapshot_ready(now) {
                    next.force_snapshot()
                } else {
                    next.rest()
                }
            },
        }
    }

    /// Loop with a new configuration.
    pub open spec fn reconfigured(self, config: AgentConfig) -> ReporterState {
        ReporterState {
            config,
            basic_info_initial_sent: if self.config.export.format != config.export.format
                || self.config.outbound.basic_info.enabled != config.outbound.basic_info.enabled
                || self.config.outbound.basic_info.send_on_start
                != config.outbound.basic_info.send_on_start {
                !sends_basic_info_first(config)
            } else {
                self.basic_info_initial_sent
            },
            ..self
        }
    }

    /// What follows a configuration, or the end of the configurations: the loop, the timers that
    /// start again, and what to do.
    pub open spec fn configured(self, config: Option<AgentConfig>) -> (
        ReporterState,
        (ReporterTimers, ReporterAction),
    ) {
        match config {
            None => {
                let (next, action) = (ReporterState { config_open: false, ..self }).rest();
                (next, (ReporterTimers { report: false, basic_info: false }, action))
            },
            Some(config) => {
                let (next, action) = self.reconfigured(config).offer_basic_info();
                (
                    next,
                    (
                        ReporterTimers {
                            report: config.report.interval != self.config.report.interval,
                            basic_info: config.outbound.basic_info.refresh_interval
                                != self.config.outbound.basic_info.refresh_interval,
                        },
                        action,
                    ),
                )
            },
        }
    }

    /// What follows the regular basic information's time.
    pub open spec fn basic_info_due(self) -> (ReporterState, ReporterAction) {
        (
            ReporterState { activity: ReporterActivity::BasicInfo, ..self },
            ReporterAction::QueueBasicInfo,
        )
    }

    /// What follows a change of the shutdown signal, or the loss of its sender.
    pub open spec fn signalled(self, sender_gone: bool, requested: bool) -> (
        ReporterState,
        ReporterAction,
    ) {
        if sender_gone || requested {
            self.stop()
        } else {
            self.rest()
        }
    }

    /// What follows the regular report's time.
    pub open spec fn report_due(self, now: Moment) -> (ReporterState, ReporterAction) {
        if self.snapshot_ready(now) {
            self.force_snapshot()
        } else {
            (
                ReporterState {
                    activity: ReporterActivity::Report { basic_info_follows: false },
                    ..self
                },
                ReporterAction::QueueReport,
            )
        }
    }

    /// What follows a look at the requested snapshot.
    pub open spec fn looked_at(self, now: Moment) -> (ReporterState, ReporterAction) {
        if self.snapshot_ready(now) {
            self.force_snapshot()
        } else {
            self.rest()
        }
    }

    /// What follows a sample, or the end of the samples.
    pub open spec fn updated(self, arrived: bool) -> (ReporterState, ReporterAction) {
        if !arrived {
            (ReporterState { updates_open: false, ..self }).rest()
        } else if !self.config.report.enabled {
            self.rest()
        } else {
            (
                ReporterState {
                    activity: ReporterActivity::Report { basic_info_follows: true },
                    ..self
                },
                ReporterAction::QueueReport,
            )
        }
    }

    /// What follows the attempt to queue a report.
    pub open spec fn report_queued(self, queued: bool) -> (ReporterState, ReporterAction) {
        if !queued {
            self.stop()
        } else if self.activity == (ReporterActivity::Report { basic_info_follows: true }) {
            self.offer_basic_info()
        } else {
            self.rest()
        }
    }

    /// What follows the attempt to queue a requested snapshot.
    pub open spec fn snapshot_queued(self, queued: bool, now: Moment) -> (
        ReporterState,
        ReporterAction,
    ) {
        (if queued {
            ReporterState {
                force_snapshot_pending: false,
                force_snapshot_reason: None,
                last_forced_snapshot_at: Some(now),
                ..self
            }
        } else {
            self
        }).rest()
    }

    /// What follows the attempt to queue basic information.
    pub open spec fn basic_info_queued(self, queued: Option<bool>) -> (
        ReporterState,
        ReporterAction,
    ) {
        match queued {
            Some(sent) => (ReporterState {
                basic_info_initial_sent: self.basic_info_initial_sent || sent,
                ..self
            }).rest(),
            None => self.stop(),
        }
    }

    fn offer(&mut self) -> (action: ReporterAction)
        ensures
            (*final(self), action) == old(self).offer_basic_info(),
    {
        if !self.basic_info_initial_sent && basic_info_should_send_on_start(&self.config) {
            self.activity = ReporterActivity::BasicInfo;
            ReporterAction::QueueBasicInfo
        } else {
            self.activity = ReporterActivity::Idle;
            ReporterAction::Wait
        }
    }

    fn wait(&mut self) -> (action: ReporterAction)
        ensures
            (*final(self), action) == old(self).rest(),
    {
        self.activity = ReporterActivity::Idle;
        ReporterAction::Wait
    }

    fn queue_snapshot(&mut self) -> (action: ReporterAction)
        ensures
            (*final(self), action) == old(self).force_snapshot(),
    {
        self.activity = ReporterActivity::Snapshot;
        ReporterAction::QueueSnapshot { reason: copied_text(&self.force_snapshot_reason) }
    }

    fn snapshot_is_ready(&self, now: Moment) -> (ready: bool)
        ensures
            ready == self.snapshot_ready(now),
    {
        self.force_snapshot_pending && force_snapshot_due(
            self.last_forced_snapshot_at,
            now,
            self.config.report.force_snapshot_min_interval,
        )
    }

    /// Begins the loop. The first action queues basic information where it is wanted at once.
    pub fn start(config: AgentConfig) -> (started: (ReporterState, ReporterAction))
        ensures
            started == ReporterState::initial(config).offer_basic_info(),
    {
        let sent = !basic_info_should_send_on_start(&config);
        let mut state = ReporterState {
            config,
            config_open: true,
            updates_open: true,
            commands_open: true,
            force_snapshot_pending: false,
            force_snapshot_reason: None,
            last_forced_snapshot_at: None,
            basic_info_initial_sent: sent,
            activity: ReporterActivity::Idle,
        };
        let action = state.offer();
        (state, action)
    }

    /// Things that the loop waits for.
    pub fn guards(&self) -> (guards: ReporterGuards)
        ensures
            guards == (ReporterGuards {
                report_tick: self.config.report.enabled,
                basic_info_tick: sends_basic_info(self.config),
                force_snapshot_tick: self.config.report.enabled && self.force_snapshot_pending,
                updates: self.updates_open,
                commands: self.commands_open,
                config: self.config_open,
            }),
    {
        ReporterGuards {
            report_tick: self.config.report.enabled,
            basic_info_tick: basic_info_enabled(&self.config),
            force_snapshot_tick: self.config.report.enabled && self.force_snapshot_pending,
            updates: self.updates_open,
            commands: self.commands_open,
            config: self.config_open,
        }
    }

    /// The regular report is due. A requested snapshot takes its place.
    pub fn on_report_tick(&mut self, now: Moment) -> (action: ReporterAction)
        requires
            old(self).config.report.enabled,
        ensures
            (*final(self), action) == old(self).report_due(now),
    {
        if self.snapshot_is_ready(now) {
            return self.queue_snapshot();
        }
        self.activity = ReporterActivity::Report { basic_info_follows: false };
        ReporterAction::QueueReport
    }

    /// The regular basic information is due.
    pub fn on_basic_info_tick(&mut self) -> (action: ReporterAction)
        requires
            sends_basic_info(old(self).config),
        ensures
            (*final(self), action) == old(self).basic_info_due(),
    {
        self.activity = ReporterActivity::BasicInfo;
        ReporterAction::QueueBasicInfo
    }

    /// A look at the requested snapshot is due.
    pub fn on_force_snapshot_tick(&mut self, now: Moment) -> (action: ReporterAction)
        requires
            old(self).config.report.enabled,
            old(self).force_snapshot_pending,
        ensures
            (*final(self), action) == old(self).looked_at(now),
    {
        if self.snapshot_is_ready(now) {
            self.queue_snapshot()
        } else {
            self.wait()
        }
    }

    /// A sample arrived and was stored, or no more samples will come. A sample is reported at
    /// once.
    pub fn on_update(&mut self, arrived: bool) -> (action: ReporterAction)
        ensures
            (*final(self), action) == old(self).updated(arrived),
    {
        if !arrived {
            self.updates_open = false;
            return self.wait();
        }
        if !self.config.report.enabled {
            return self.wait();
        }
        self.activity = ReporterActivity::Report { basic_info_follows: true };
        ReporterAction::QueueReport
    }

    /// A command arrived, or no more commands will come. A request that cannot be met now is
    /// kept.
    pub fn on_command(&mut self, command: Option<ReporterCommand>, now: Moment) -> (action:
        ReporterAction)
        ensures
            (*final(self), action) == old(self).commanded(command, now),
    {
        match command {
            None => {
                self.commands_open = false;
                self.wait()
            },
            Some(ReporterCommand::ForceSnapshot { reason }) => {
                if reason.is_some() {
                    self.force_snapshot_reason = reason;
                }
                self.force_snapshot_pending = true;
                if !self.config.report.enabled {
                    return self.wait();
                }
                if !self.snapshot_is_ready(now) {
                    return self.wait();
                }
                self.queue_snapshot()
            },
        }
    }

    /// A configuration arrived, or no more will come. Says which timers start again.
    pub fn on_config(&mut self, config: Option<AgentConfig>) -> (step: (
        ReporterTimers,
        ReporterAction,
    ))
        ensures
            (*final(self), step) == old(self).configured(config),
    {
        match config {
            None => {
                self.config_open = false;
                let action = self.wait();
                (ReporterTimers { report: false, basic_info: false }, action)
            },
            Some(config) => {
                let timers = ReporterTimers {
                    report: config.report.interval != self.config.report.interval,
                    basic_info: config.outbound.basic_info.refresh_interval
                        != self.config.outbound.basic_info.refresh_interval,
                };
                let changed = self.config.export.format != config.export.format
                    || self.config.outbound.basic_info.enabled
                    != config.outbound.basic_info.enabled
                    || self.config.outbound.basic_info.send_on_start
                    != config.outbound.basic_info.send_on_start;
                self.config = config;
                if changed {
                    self.basic_info_initial_sent = !basic_info_should_send_on_start(&self.config);
                }
                let action = self.offer();
                (timers, action)
            },
        }
    }

    /// The shutdown signal changed, or its sender is gone.
    pub fn on_shutdown(&mut self, sender_gone: bool, requested: bool) -> (action: ReporterAction)
        ensures
            (*final(self), action) == old(self).signalled(sender_gone, requested),
    {
        if sender_gone || requested {
            self.activity = ReporterActivity::Stopped;
            ReporterAction::Stop
        } else {
            self.wait()
        }
    }

    /// A report was queued or there was none to queue; or the queue is closed, which ends the
    /// loop. The first basic information may follow a sample.
    pub fn on_report_queued(&mut self, queued: bool) -> (action: ReporterAction)
        ensures
            (*final(self), action) == old(self).report_queued(queued),
    {
        if !queued {
            self.activity = ReporterActivity::Stopped;
            return ReporterAction::Stop;
        }
        match self.activity {
            ReporterActivity::Report { basic_info_follows } => {
                if basic_info_follows {
                    self.offer()
                } else {
                    self.wait()
                }
            },
            _ => self.wait(),
        }
    }

    /// A requested snapshot was queued, or could not be. It stays requested where it could not.
    pub fn on_snapshot_queued(&mut self, queued: bool, now: Moment) -> (action: ReporterAction)
        ensures
            (*final(self), action) == old(self).snapshot_queued(queued, now),
    {
        if queued {
            self.force_snapshot_pending = false;
            self.force_snapshot_reason = None;
            self.last_forced_snapshot_at = Some(now);
        }
        self.wait()
    }

    /// Basic information was queued (`Some(true)`), was not ready (`Some(false)`), or the queue
    /// is closed, which ends the loop.
    pub fn on_basic_info_queued(&mut self, queued: Option<bool>) -> (action: ReporterAction)
        ensures
            (*final(self), action) == old(self).basic_info_queued(queued),
    {
        match queued {
            Some(sent) => {
                if sent {
                    self.basic_info_initial_sent = true;
                }
                self.wait()
            },
            None => {
                self.activity = ReporterActivity::Stopped;
                ReporterAction::Stop
            },
        }
    }
}

/// Next report, where there is one.
#[derive(Debug)]
pub enum NextReport {
    /// There is one.
    Ready(OutboundReport),
    /// Nothing changed and no sign of life is due.
    Unchanged,
    /// Some metrics were never sampled.
    NotReady,
}

/// Event to queue for the next report.
pub fn next_report_event(next: NextReport) -> (event: Option<OutboundEvent>)
    ensures
        event == (match next {
            NextReport::Ready(outbound) => Some(report_event_of(outbound)),
            _ => None,
        }),
{
    match next {
        NextReport::Ready(outbound) => Some(report_event(outbound)),
        NextReport::Unchanged => None,
        NextReport::NotReady => None,
    }
}

/// Event that carries a report under the report's own number.
pub open spec fn report_event_of(outbound: OutboundReport) -> OutboundEvent {
    OutboundEvent::Report(
        ReportEnvelope { sequence: outbound.sequence, created_at: outbound.created_at, outbound },
    )
}

/// Event that carries a report.
pub fn report_event(outbound: OutboundReport) -> (event: OutboundEvent)
    ensures
        event == report_event_of(outbound),
{
    OutboundEvent::Report(ReportEnvelope::from_outbound(outbound))
}

/// Event that carries basic information.
pub fn basic_info_event(sequence: u64, created_at: u64, report: u64) -> (event: OutboundEvent)
    ensures
        event == OutboundEvent::BasicInfo(BasicInfoEnvelope { sequence, created_at, report }),
{
    OutboundEvent::BasicInfo(BasicInfoEnvelope { sequence, created_at, report })
}

/// A requested snapshot stays requested, whatever happens, until it was queued.
pub proof fn law_requested_snapshot_is_not_lost(
    state: ReporterState,
    command: Option<ReporterCommand>,
    config: AgentConfig,
    now: Moment,
)
    requires
        state.force_snapshot_pending,
    ensures
        state.commanded(command, now).0.force_snapshot_pending,
        state.reconfigured(config).offer_basic_info().0.force_snapshot_pending,
        state.force_snapshot().0.force_snapshot_pending,
        state.rest().0.force_snapshot_pending,
        state.stop().0.force_snapshot_pending,
{
}

/// Two requested snapshots keep the configured distance: while it has not passed, a request is
/// kept and nothing is queued for it.
pub proof fn law_snapshots_keep_their_distance(
    state: ReporterState,
    reason: Option<String>,
    last: Moment,
    now: Moment,
)
    requires
        state.last_forced_snapshot_at == Some(last),
        elapsed(last, now) < state.config.report.force_snapshot_min_interval.nanos,
    ensures
        !state.snapshot_ready(now),
        state.commanded(Some(ReporterCommand::ForceSnapshot { reason }), now).1
            == ReporterAction::Wait,
        state.commanded(Some(ReporterCommand::ForceSnapshot { reason }), now).0.force_snapshot_pending,
{
}

/// Servers that take no separate basic information are never sent any.
pub proof fn law_basic_info_only_where_it_is_taken(state: ReporterState)
    requires
        !state.config.export.format.takes_basic_info() || !state.config.outbound.basic_info.enabled,
    ensures
        state.offer_basic_info().1 == ReporterAction::Wait,
        !sends_basic_info(state.config),
{
}

/// A requested snapshot is queued as soon as reports are switched on and the configured distance to
/// the last one has passed, whichever occasion comes first, with the reason that was given last. It
/// takes the place of the regular report.
pub proof fn law_requested_snapshot_is_queued(
    state: ReporterState,
    reason: Option<String>,
    now: Moment,
)
    requires
        state.config.report.enabled,
        state.last_forced_snapshot_at matches Some(last) ==> last.nanos <= now.nanos && now.nanos
            - last.nanos >= state.config.report.force_snapshot_min_interval.nanos,
    ensures
        ({
            let given = if reason is Some {
                reason
            } else {
                state.force_snapshot_reason
            };
            let (next, action) = state.commanded(
                Some(ReporterCommand::ForceSnapshot { reason }),
                now,
            );
            &&& action == (ReporterAction::QueueSnapshot { reason: given })
            &&& next.activity == ReporterActivity::Snapshot
        }),
        state.force_snapshot_pending ==> state.report_due(now).1 == (
        ReporterAction::QueueSnapshot { reason: state.force_snapshot_reason }),
        state.force_snapshot_pending ==> state.looked_at(now).1 == (
        ReporterAction::QueueSnapshot { reason: state.force_snapshot_reason }),
{
}

/// Without a requested snapshot that may go out the regular report is queued; samples are reported
/// at once where reports are switched on, and not at all where they are not.
pub proof fn law_reports_are_queued(state: ReporterState, now: Moment)
    ensures
        !state.force_snapshot_pending ==> state.report_due(now).1 == ReporterAction::QueueReport,
        state.force_snapshot_pending && state.last_forced_snapshot_at is Some && elapsed(
            state.last_forced_snapshot_at->0,
            now,
        ) < state.config.report.force_snapshot_min_interval.nanos ==> state.report_due(now).1
            == ReporterAction::QueueReport && state.looked_at(now).1 == ReporterAction::Wait,
        state.config.report.enabled ==> state.updated(true).1 == ReporterAction::QueueReport,
        !state.config.report.enabled ==> state.updated(true).1 == ReporterAction::Wait,
        state.updated(false).1 == ReporterAction::Wait,
        !state.updated(false).0.updates_open,
        state.updated(true).0.updates_open == state.updates_open,
{
}

/// A snapshot that was queued is no longer requested, and its moment counts from then on; one that
/// could not be queued stays requested, with its reason.
pub proof fn law_queued_snapshot_is_done(state: ReporterState, now: Moment)
    ensures
        !state.snapshot_queued(true, now).0.force_snapshot_pending,
        state.snapshot_queued(true, now).0.force_snapshot_reason is None,
        state.snapshot_queued(true, now).0.last_forced_snapshot_at == Some(now),
        state.snapshot_queued(false, now).0.force_snapshot_pending == state.force_snapshot_pending,
        state.snapshot_queued(false, now).0.force_snapshot_reason == state.force_snapshot_reason,
        state.snapshot_queued(false, now).0.last_forced_snapshot_at
            == state.last_forced_snapshot_at,
        state.snapshot_queued(true, now).1 == ReporterAction::Wait,
        state.snapshot_queued(false, now).1 == ReporterAction::Wait,
{
}

/// The first basic information is offered at the beginning and after samples until it was queued:
/// to servers that take it, where the configuration wants it at once.
pub proof fn law_first_basic_info_is_offered(
    state: ReporterState,
    config: AgentConfig,
    sent: bool,
)
    ensures
        ({
            let wanted = config.outbound.basic_info.enabled
                && config.outbound.basic_info.send_on_start && config.export.format
                == ExportFormat::Komari;
            &&& wanted <==> ReporterState::initial(config).offer_basic_info().1
                == ReporterAction::QueueBasicInfo
            &&& !wanted <==> ReporterState::initial(config).offer_basic_info().1
                == ReporterAction::Wait
            &&& state.config == config && state.activity == (ReporterActivity::Report {
                basic_info_follows: true,
            }) ==> (state.report_queued(true).1 == ReporterAction::QueueBasicInfo <==> wanted
                && !state.basic_info_initial_sent)
            &&& state.activity != (ReporterActivity::Report { basic_info_follows: true })
                ==> state.report_queued(true).1 == ReporterAction::Wait
            &&& state.basic_info_queued(Some(true)).0.basic_info_initial_sent
            &&& state.basic_info_queued(Some(false)).0.basic_info_initial_sent
                == state.basic_info_initial_sent
            &&& state.basic_info_queued(Some(sent)).1 == ReporterAction::Wait
        }),
{
}

/// A closed queue ends the loop.
pub proof fn law_closed_queue_ends_the_loop(state: ReporterState)
    ensures
        state.report_queued(false).1 == ReporterAction::Stop,
        state.report_queued(false).0.activity == ReporterActivity::Stopped,
        state.basic_info_queued(None).1 == ReporterAction::Stop,
        state.basic_info_queued(None).0.activity == ReporterActivity::Stopped,
        state.stop().1 == ReporterAction::Stop,
        state.stop().0.activity == ReporterActivity::Stopped,
{
}

/// A new configuration is used from then on. It asks for the first basic information again exactly
/// where it changes who takes it or whether it is wanted.
pub proof fn law_new_configuration_is_used(state: ReporterState, config: AgentConfig)
    ensures
        ({
            let next = state.reconfigured(config);
            let before = state.config;
            let same = before.export.format == config.export.format
                && before.outbound.basic_info.enabled == config.outbound.basic_info.enabled
                && before.outbound.basic_info.send_on_start
                == config.outbound.basic_info.send_on_start;
            &&& next.config == config
            &&& same ==> next.basic_info_initial_sent == state.basic_info_initial_sent
            &&& !same && config.outbound.basic_info.enabled
                && config.outbound.basic_info.send_on_start && config.export.format
                == ExportFormat::Komari ==> next.offer_basic_info().1
                == ReporterAction::QueueBasicInfo
            &&& next.last_forced_snapshot_at == state.last_forced_snapshot_at
        }),
{
}

/// A timer starts again exactly where its interval changed. The loop goes on without
/// configurations once no more come.
pub proof fn law_timers_follow_their_intervals(state: ReporterState, config: AgentConfig)
    ensures
        ({
            let (next, (timers, action)) = state.configured(Some(config));
            &&& next.config == config
            &&& timers.report <==> config.report.interval.nanos
                != state.config.report.interval.nanos
            &&& timers.basic_info <==> config.outbound.basic_info.refresh_interval.nanos
                != state.config.outbound.basic_info.refresh_interval.nanos
            &&& action == ReporterAction::QueueBasicInfo || action == ReporterAction::Wait
        }),
        ({
            let (next, (timers, action)) = state.configured(None);
            &&& next.config == state.config && !next.config_open
            &&& !timers.report && !timers.basic_info
            &&& action == ReporterAction::Wait
        }),
{
}

/// The loop ends when it is told to and when nobody is left to tell it, and only then. The regular
/// basic information is queued when its time comes.
pub proof fn law_signals_and_basic_info(state: ReporterState, gone: bool, requested: bool)
    ensures
        state.signalled(gone, requested).1 == ReporterAction::Stop <==> gone || requested,
        state.signalled(gone, requested).1 == ReporterAction::Wait <==> !gone && !requested,
        state.basic_info_due().1 == ReporterAction::QueueBasicInfo,
        state.basic_info_due().0.config == state.config,
{
}

/// The loop waits for regular reports, and for the moment of a requested snapshot, only where
/// reports are switched on; for regular basic information only where the server takes it; and for
/// nothing that is closed.
pub proof fn law_what_the_loop_waits_for(state: ReporterState, guards: ReporterGuards)
    requires
        call_ensures(ReporterState::guards, (&state,), guards),
    ensures
        guards.report_tick <==> state.config.report.enabled,
        guards.force_snapshot_tick <==> state.config.report.enabled
            && state.force_snapshot_pending,
        guards.basic_info_tick <==> state.config.outbound.basic_info.enabled
            && state.config.export.format == ExportFormat::Komari,
        guards.updates <==> state.updates_open,
        guards.commands <==> state.commands_open,
        guards.config <==> state.config_open,
{
}

/// A report that is ready goes out under its own number and time; where there is none, nothing
/// goes out.
pub proof fn law_ready_reports_go_out(next: NextReport, event: Option<OutboundEvent>)
    requires
        call_ensures(next_report_event, (next,), event),
    ensures
        event is Some <==> next is Ready,
        next matches NextReport::Ready(report) ==> event matches Some(OutboundEvent::Report(sent))
            && sent.outbound == report && sent.sequence == report.sequence && sent.created_at
            == report.created_at,
{
}

} // verus!
