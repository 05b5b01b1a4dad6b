//! Sampling loop: which metric groups are sampled when, and how their samples travel.

pub mod identity;

use crate::scheduler::time::Span;
use crate::service::clock::{later, reachable, Moment};
use crate::service::config::{AgentConfig, MetricLevel};
use vstd::prelude::*;

verus! {

/// Commands that wait for the sampling loop.
pub const COLLECTOR_COMMAND_CAPACITY: usize = 16;

/// Samples that wait for the reporting loop.
pub const TELEMETRY_UPDATE_QUEUE_CAPACITY: usize = 256;

/// Seconds that the loop sleeps where no group is sampled.
pub const DISABLED_COLLECTOR_SLEEP_SECONDS: u64 = 3600;

/// Command to the sampling loop.
#[derive(Debug, Clone, Copy, PartialEq, Eq, Structural)]
pub enum CollectorCommand {
    /// Sample the processes once.
    SampleProcessesOnce {
        /// Amount of detail.
        level: MetricLevel,
        /// Largest number of listed items.
        limit: usize,
    },
    /// Sample the sockets once.
    SampleSocketsOnce {
        /// Amount of detail.
        level: MetricLevel,
        /// Largest number of listed items.
        limit: usize,
    },
}

/// Set of metric groups.
#[derive(Debug, Clone, Copy, PartialEq, Eq, Structural)]
pub struct DueMetricGroups {
    /// Core metrics.
    pub core: bool,
    /// Disk metrics.
    pub disk: bool,
    /// Network metrics.
    pub network: bool,
    /// Process metrics.
    pub processes: bool,
    /// Socket metrics.
    pub sockets: bool,
}

impl Default for DueMetricGroups {
    fn default() -> (groups: Self)
        ensures
            groups == (DueMetricGroups {
                core: false,
                disk: false,
                network: false,
                processes: false,
                sockets: false,
            }),
    {
        DueMetricGroups {
            core: false,
            disk: false,
            network: false,
            processes: false,
            sockets: false,
        }
    }
}

/// One for a member, nothing for anything else.
pub open spec fn ones(member: bool) -> nat {
    if member {
        1
    } else {
        0
    }
}

impl DueMetricGroups {
    /// Number of groups in the set.
    pub open spec fn size(self) -> nat {
        ones(self.core) + ones(self.disk) + ones(self.network) + ones(self.processes) + ones(
            self.sockets,
        )
    }

    /// Whether the set has a group.
    pub fn any(self) -> (any: bool)
        ensures
            any == (self.size() > 0),
    {
        self.core || self.disk || self.network || self.processes || self.sockets
    }

    /// Number of groups in the set.
    pub fn count(self) -> (count: usize)
        ensures
            count == self.size(),
    {
        let mut count: usize = 0;
        if self.core {
            count += 1;
        }
        if self.disk {
            count += 1;
        }
        if self.network {
            count += 1;
        }
        if self.processes {
            count += 1;
        }
        if self.sockets {
            count += 1;
        }
        count
    }
}

/// Groups that the configuration switches on.
pub open spec fn switched_on(config: AgentConfig) -> DueMetricGroups {
    DueMetricGroups {
        core: config.core.enabled,
        disk: config.disk.enabled,
        network: config.network.enabled,
        processes: config.processes.enabled,
        sockets: config.sockets.enabled,
    }
}

/// Groups that the configuration switches on.
pub fn enabled_groups(config: &AgentConfig) -> (groups: DueMetricGroups)
    ensures
        groups == switched_on(*config),
{
    DueMetricGroups {
        core: config.core.enabled,
        disk: config.disk.enabled,
        network: config.network.enabled,
        processes: config.processes.enabled,
        sockets: config.sockets.enabled,
    }
}

/// When each metric group is sampled next.
#[derive(Debug, Clone, Copy, PartialEq, Eq, Structural)]
pub struct MetricSchedule {
    /// Core metrics.
    pub core_next: Moment,
    /// Disk metrics.
    pub disk_next: Moment,
    /// Network metrics.
    pub network_next: Moment,
    /// Process metrics.
    pub processes_next: Moment,
    /// Socket metrics.
    pub sockets_next: Moment,
}

/// Whether the clock can show the end of every sampling interval that starts at `now`.
pub open spec fn sampling_reachable(config: AgentConfig, now: Moment) -> bool {
    &&& reachable(now, config.core.interval)
    &&& reachable(now, config.disk.interval)
    &&& reachable(now, config.network.interval)
    &&& reachable(now, config.processes.interval)
    &&& reachable(now, config.sockets.interval)
}

/// Whether every sampling interval that starts at `now` ends at a moment that the clock can show.
pub fn can_schedule(config: &AgentConfig, now: Moment) -> (yes: bool)
    ensures
        yes == sampling_reachable(*config, now),
{
    now.reaches(config.core.interval) && now.reaches(config.disk.interval) && now.reaches(
        config.network.interval,
    ) && now.reaches(config.processes.interval) && now.reaches(config.sockets.interval)
}

/// Whether time passes in an interval and the clock can show its end when it starts at `now`.
pub open spec fn steps_on(interval: Span, now: Moment) -> bool {
    interval.nanos > 0 && reachable(now, interval)
}

/// Whether the given groups can move on from `now`.
pub open spec fn movable(due: DueMetricGroups, config: AgentConfig, now: Moment) -> bool {
    &&& due.core ==> steps_on(config.core.interval, now)
    &&& due.disk ==> steps_on(config.disk.interval, now)
    &&& due.network ==> steps_on(config.network.interval, now)
    &&& due.processes ==> steps_on(config.processes.interval, now)
    &&& due.sockets ==> steps_on(config.sockets.interval, now)
}

fn can_step(interval: Span, now: Moment) -> (yes: bool)
    ensures
        yes == steps_on(interval, now),
{
    interval.nanos > 0 && now.reaches(interval)
}

/// Whether the given groups can move on from `now`.
pub fn can_move(due: DueMetricGroups, config: &AgentConfig, now: Moment) -> (yes: bool)
    ensures
        yes == movable(due, *config, now),
{
    (!due.core || can_step(config.core.interval, now)) && (!due.disk || can_step(
        config.disk.interval,
        now,
    )) && (!due.network || can_step(config.network.interval, now)) && (!due.processes || can_step(
        config.processes.interval,
        now,
    )) && (!due.sockets || can_step(config.sockets.interval, now))
}

/// First moment after `now` that lies a whole number of intervals after `next`; `next` itself
/// where it is still to come.
pub open spec fn advanced(next: Moment, interval: Span, now: Moment) -> Moment {
    if next.nanos > now.nanos {
        next
    } else {
        Moment {
            nanos: (next.nanos + ((now.nanos - next.nanos) / interval.nanos as int + 1)
                * interval.nanos) as u128,
        }
    }
}

proof fn lemma_advanced(next: int, interval: int, now: int)
    requires
        interval > 0,
        next <= now,
    ensures
        now < next + ((now - next) / interval + 1) * interval <= now + interval,
        (now - next) / interval >= 0,
        ((now - next) / interval) * interval <= now - next,
{
    let q = (now - next) / interval;
    let r = (now - next) % interval;
    assert(now - next == q * interval + r && 0 <= r < interval && q >= 0) by (nonlinear_arith)
        requires
            interval > 0,
            next <= now,
            q == (now - next) / interval,
            r == (now - next) % interval,
    ;
    assert((q + 1) * interval == q * interval + interval) by (nonlinear_arith);
}

/// Moves the next sample past `now`. Samples that were missed are passed over.
pub fn advance_due(next: &mut Moment, interval: Span, now: Moment)
    requires
        interval.nanos > 0,
        reachable(now, interval),
    ensures
        *final(next) == advanced(*old(next), interval, now),
        final(next).nanos > now.nanos,
{
    if next.nanos <= now.nanos {
        proof {
            lemma_advanced(next.nanos as int, interval.nanos as int, now.nanos as int);
            let q = (now.nanos - next.nanos) / interval.nanos as int;
            assert((q + 1) * interval.nanos == q * interval.nanos + interval.nanos)
                by (nonlinear_arith);
        }
        let passed: u128 = (now.nanos - next.nanos) / interval.nanos;
        let last: u128 = next.nanos + passed * interval.nanos;
        next.nanos = last + interval.nanos;
    }
}

/// Earlier of two moments where the first is known.
pub open spec fn earlier(current: Option<Moment>, enabled: bool, candidate: Moment) -> Option<
    Moment,
> {
    match current {
        _ if !enabled => current,
        Some(current) if current.nanos <= candidate.nanos => Some(current),
        _ => Some(candidate),
    }
}

/// Takes a candidate for the next wake-up into account.
pub fn push_next_due(next: &mut Option<Moment>, enabled: bool, candidate: Moment)
    ensures
        *final(next) == earlier(*old(next), enabled, candidate),
{
    if !enabled {
        return ;
    }
    *next = match *next {
        Some(current) => {
            if current.nanos <= candidate.nanos {
                Some(current)
            } else {
                Some(candidate)
            }
        },
        None => Some(candidate),
    };
}

impl MetricSchedule {
    /// Schedule whose first samples come one interval after `now`.
    pub open spec fn starting(config: AgentConfig, now: Moment) -> MetricSchedule {
        MetricSchedule {
            core_next: later(now, config.core.interval),
            disk_next: later(now, config.disk.interval),
            network_next: later(now, config.network.interval),
            processes_next: later(now, config.processes.interval),
            sockets_next: later(now, config.sockets.interval),
        }
    }

    /// Groups that are switched on and whose next sample has come.
    pub open spec fn due(self, now: Moment, config: AgentConfig) -> DueMetricGroups {
        DueMetricGroups {
            core: config.core.enabled && self.core_next.nanos <= now.nanos,
            disk: config.disk.enabled && self.disk_next.nanos <= now.nanos,
            network: config.network.enabled && self.network_next.nanos <= now.nanos,
            processes: config.processes.enabled && self.processes_next.nanos <= now.nanos,
            sockets: config.sockets.enabled && self.sockets_next.nanos <= now.nanos,
        }
    }

    /// Schedule after the given groups were sampled.
    pub open spec fn moved(
        self,
        due: DueMetricGroups,
        config: AgentConfig,
        now: Moment,
    ) -> MetricSchedule {
        MetricSchedule {
            core_next: if due.core {
                advanced(self.core_next, config.core.interval, now)
            } else {
                self.core_next
            },
            disk_next: if due.disk {
                advanced(self.disk_next, config.disk.interval, now)
            } else {
                self.disk_next
            },
            network_next: if due.network {
                advanced(self.network_next, config.network.interval, now)
            } else {
                self.network_next
            },
            processes_next: if due.processes {
                advanced(self.processes_next, config.processes.interval, now)
            } else {
                self.processes_next
            },
            sockets_next: if due.sockets {
                advanced(self.sockets_next, config.sockets.interval, now)
            } else {
                self.sockets_next
            },
        }
    }

    /// Earliest next sample of a group that is switched on.
    pub open spec fn earliest(self, config: AgentConfig) -> Option<Moment> {
        earlier(
            earlier(
                earlier(
                    earlier(
                        earlier(None, config.core.enabled, self.core_next),
                        config.disk.enabled,
                        self.disk_next,
                    ),
                    config.network.enabled,
                    self.network_next,
                ),
                config.processes.enabled,
                self.processes_next,
            ),
            config.sockets.enabled,
            self.sockets_next,
        )
    }

    /// Schedule whose first samples come one interval after `now`.
    pub fn new_at(config: &AgentConfig, now: Moment) -> (schedule: MetricSchedule)
        requires
            sampling_reachable(*config, now),
        ensures
            schedule == MetricSchedule::starting(*config, now),
    {
        MetricSchedule {
            core_next: now.after(config.core.interval),
            disk_next: now.after(config.disk.interval),
            network_next: now.after(config.network.interval),
            processes_next: now.after(config.processes.interval),
            sockets_next: now.after(config.sockets.interval),
        }
    }

    /// Whether some group is switched on.
    pub fn has_enabled_groups(&self, config: &AgentConfig) -> (some: bool)
        ensures
            some == (switched_on(*config).size() > 0),
    {
        config.core.enabled || config.disk.enabled || config.network.enabled
            || config.processes.enabled || config.sockets.enabled
    }

    /// When to wake up next: at the earliest sample, or after an hour where no group is switched
    /// on.
    pub fn next_due(&self, config: &AgentConfig, now: Moment) -> (next: Moment)
        requires
            self.earliest(*config) is None ==> now.nanos + 3_600_000_000_000 <= u128::MAX,
        ensures
            next == (match self.earliest(*config) {
                Some(next) => next,
                None => Moment { nanos: (now.nanos + 3_600_000_000_000) as u128 },
            }),
    {
        let mut next: Option<Moment> = None;
        push_next_due(&mut next, config.core.enabled, self.core_next);
        push_next_due(&mut next, config.disk.enabled, self.disk_next);
        push_next_due(&mut next, config.network.enabled, self.network_next);
        push_next_due(&mut next, config.processes.enabled, self.processes_next);
        push_next_due(&mut next, config.sockets.enabled, self.sockets_next);
        match next {
            Some(next) => next,
            None => now.after(Span::from_secs(DISABLED_COLLECTOR_SLEEP_SECONDS)),
        }
    }

    /// Groups that are switched on and whose next sample has come.
    pub fn due_groups(&self, now: Moment, config: &AgentConfig) -> (due: DueMetricGroups)
        ensures
            due == self.due(now, *config),
    {
        DueMetricGroups {
            core: config.core.enabled && self.core_next.nanos <= now.nanos,
            disk: config.disk.enabled && self.disk_next.nanos <= now.nanos,
            network: config.network.enabled && self.network_next.nanos <= now.nanos,
            processes: config.processes.enabled && self.processes_next.nanos <= now.nanos,
            sockets: config.sockets.enabled && self.sockets_next.nanos <= now.nanos,
        }
    }

    /// Moves the sampled groups on.
    pub fn reschedule(&mut self, due: DueMetricGroups, config: &AgentConfig, now: Moment)
        requires
            movable(due, *config, now),
        ensures
            *final(self) == old(self).moved(due, *config, now),
    {
        if due.core {
            advance_due(&mut self.core_next, config.core.interval, now);
        }
        if due.disk {
            advance_due(&mut self.disk_next, config.disk.interval, now);
        }
        if due.network {
            advance_due(&mut self.network_next, config.network.interval, now);
        }
        if due.processes {
            advance_due(&mut self.processes_next, config.processes.interval, now);
        }
        if due.sockets {
            advance_due(&mut self.sockets_next, config.sockets.interval, now);
        }
    }
}

/// Sample of a metric group. The measured values stay with the runtime, which finds them by
/// number.
#[derive(Debug, Clone, Copy, PartialEq, Eq, Structural)]
pub struct Sample {
    /// When the sample was taken, in Unix seconds.
    pub sampled_at: u64,
    /// Number of the measured values.
    pub value: u64,
}

/// Sample, or several of them, on the way to the reporting loop.
#[derive(Debug)]
pub enum TelemetryUpdate {
    /// Core metrics.
    Core(Sample),
    /// Disk metrics.
    Disk(Sample),
    /// Network metrics.
    Network(Sample),
    /// Process metrics.
    Processes(Sample),
    /// Socket metrics.
    Sockets(Sample),
    /// Identity of the machine.
    IdentityRefresh(Sample),
    /// Several updates of one moment.
    Batch(Vec<TelemetryUpdate>),
}

/// Sample to take.
#[derive(Debug)]
pub enum SampleRequest<'a> {
    /// Core metrics.
    Core,
    /// Disk metrics.
    Disk {
        /// Whether every device is listed.
        include_per_device: bool,
    },
    /// Network metrics.
    Network {
        /// Whether every interface is listed.
        include_per_interface: bool,
        /// Interfaces to sample.
        include_interfaces: &'a Vec<String>,
        /// Interfaces to leave out.
        exclude_interfaces: &'a Vec<String>,
    },
    /// Process metrics.
    Processes {
        /// Amount of detail.
        level: MetricLevel,
        /// Largest number of listed items.
        limit: usize,
    },
    /// Socket metrics.
    Sockets {
        /// Amount of detail.
        level: MetricLevel,
        /// Largest number of listed items.
        limit: usize,
    },
}

/// Sequence with one element where the condition holds, without elements elsewhere.
pub open spec fn optional<T>(present: bool, value: T) -> Seq<T> {
    if present {
        seq![value]
    } else {
        Seq::empty()
    }
}

/// Samples to take for the given groups, in order.
pub open spec fn requests_for<'a>(config: &'a AgentConfig, due: DueMetricGroups) -> Seq<
    SampleRequest<'a>,
> {
    optional(due.core, SampleRequest::Core) + optional(
        due.disk,
        SampleRequest::Disk { include_per_device: config.disk.include_per_device },
    ) + optional(
        due.network,
        SampleRequest::Network {
            include_per_interface: config.network.include_per_interface,
            include_interfaces: &config.network.include_interfaces,
            exclude_interfaces: &config.network.exclude_interfaces,
        },
    ) + optional(
        due.processes,
        SampleRequest::Processes {
            level: config.processes.level,
            limit: config.processes.limit,
        },
    ) + optional(
        due.sockets,
        SampleRequest::Sockets { level: config.sockets.level, limit: config.sockets.limit },
    )
}

/// Samples to take for the given groups, in order.
pub fn sample_requests<'a>(config: &'a AgentConfig, due: DueMetricGroups) -> (requests: Vec<
    SampleRequest<'a>,
>)
    ensures
        requests@ == requests_for(config, due),
        requests@.len() == due.size(),
{
    let mut requests: Vec<SampleRequest<'a>> = Vec::new();
    if due.core {
        requests.push(SampleRequest::Core);
    }
    if due.disk {
        requests.push(
            SampleRequest::Disk { include_per_device: config.disk.include_per_device },
        );
    }
    if due.network {
        requests.push(
            SampleRequest::Network {
                include_per_interface: config.network.include_per_interface,
                include_interfaces: &config.network.include_interfaces,
                exclude_interfaces: &config.network.exclude_interfaces,
            },
        );
    }
    if due.processes {
        requests.push(
            SampleRequest::Processes {
                level: config.processes.level,
                limit: config.processes.limit,
            },
        );
    }
    if due.sockets {
        requests.push(
            SampleRequest::Sockets { level: config.sockets.level, limit: config.sockets.limit },
        );
    }
    assert(requests@ =~= requests_for(config, due));
    requests
}

/// Updates that carry the samples of the given groups, in order.
pub open spec fn updates_for(due: DueMetricGroups, samples: Seq<Sample>) -> Seq<TelemetryUpdate> {
    let core = ones(due.core) as int;
    let disk = core + ones(due.disk);
    let network = disk + ones(due.network);
    let processes = network + ones(due.processes);
    optional(due.core, TelemetryUpdate::Core(samples[0])) + optional(
        due.disk,
        TelemetryUpdate::Disk(samples[core]),
    ) + optional(due.network, TelemetryUpdate::Network(samples[disk])) + optional(
        due.processes,
        TelemetryUpdate::Processes(samples[network]),
    ) + optional(due.sockets, TelemetryUpdate::Sockets(samples[processes]))
}

/// Whether one update carries exactly the given ones: nothing for none, the update itself for a
/// single one, a batch in the same order for several.
pub open spec fn compacted(updates: Seq<TelemetryUpdate>, update: Option<TelemetryUpdate>) -> bool {
    if updates.len() == 0 {
        update is None
    } else if updates.len() == 1 {
        update == Some(updates[0])
    } else {
        update matches Some(TelemetryUpdate::Batch(batch)) && batch@ == updates
    }
}

/// Puts updates together into one.
pub fn compact_updates(updates: Vec<TelemetryUpdate>) -> (update: Option<TelemetryUpdate>)
    ensures
        compacted(updates@, update),
{
    let mut updates = updates;
    if updates.len() == 0 {
        None
    } else if updates.len() == 1 {
        updates.pop()
    } else {
        Some(TelemetryUpdate::Batch(updates))
    }
}

/// Puts the samples of the given groups, taken in order, together into one update.
pub fn sample_due_groups(due: DueMetricGroups, samples: &Vec<Sample>) -> (update: Option<
    TelemetryUpdate,
>)
    requires
        samples@.len() == due.size(),
    ensures
        compacted(updates_for(due, samples@), update),
{
    let mut updates: Vec<TelemetryUpdate> = Vec::new();
    let mut place: usize = 0;
    if due.core {
        updates.push(TelemetryUpdate::Core(samples[place]));
        place += 1;
    }
    if due.disk {
        updates.push(TelemetryUpdate::Disk(samples[place]));
        place += 1;
    }
    if due.network {
        updates.push(TelemetryUpdate::Network(samples[place]));
        place += 1;
    }
    if due.processes {
        updates.push(TelemetryUpdate::Processes(samples[place]));
        place += 1;
    }
    if due.sockets {
        updates.push(TelemetryUpdate::Sockets(samples[place]));
    }
    assert(updates@ =~= updates_for(due, samples@));
    compact_updates(updates)
}

/// Update that carries the sample of a command.
pub fn command_update(command: CollectorCommand, sample: Sample) -> (update: TelemetryUpdate)
    ensures
        update == (match command {
            CollectorCommand::SampleProcessesOnce { .. } => TelemetryUpdate::Processes(sample),
            CollectorCommand::SampleSocketsOnce { .. } => TelemetryUpdate::Sockets(sample),
        }),
{
    match command {
        CollectorCommand::SampleProcessesOnce { .. } => TelemetryUpdate::Processes(sample),
        CollectorCommand::SampleSocketsOnce { .. } => TelemetryUpdate::Sockets(sample),
    }
}

/// What the runtime has to do.
#[derive(Debug, Clone, Copy, PartialEq, Eq, Structural)]
pub enum CollectorAction {
    /// Wait for the next thing to happen.
    Wait,
    /// Sample these groups, publish the update and report whether somebody took it.
    Sample(DueMetricGroups),
    /// Take the sample of a command, publish the update and report whether somebody took it.
    SampleOnce(CollectorCommand),
    /// End the loop.
    Stop,
}

/// Sampling loop.
#[derive(Debug)]
pub struct CollectorState {
    /// Configuration.
    pub config: AgentConfig,
    /// When each group is sampled next.
    pub schedule: MetricSchedule,
    /// Whether configurations can still arrive.
    pub config_open: bool,
    /// Whether commands can still arrive.
    pub commands_open: bool,
    /// Groups that are being sampled.
    pub sampling: Option<DueMetricGroups>,
}

impl CollectorState {
    /// What follows the time to wake up.
    pub open spec fn woken(self, now: Moment) -> (CollectorState, CollectorAction) {
        let due = self.schedule.due(now, self.config);
        if due.size() > 0 {
            (CollectorState { sampling: Some(due), ..self }, CollectorAction::Sample(due))
        } else {
            (self, CollectorAction::Wait)
        }
    }

    /// What follows the publication of an update.
    pub open spec fn published(self, taken: bool, now: Moment) -> (CollectorState, CollectorAction) {
        (
            CollectorState {
                schedule: match self.sampling {
                    Some(due) if taken => self.schedule.moved(due, self.config, now),
                    _ => self.schedule,
                },
                sampling: None,
                ..self
            },
            if taken {
                CollectorAction::Wait
            } else {
                CollectorAction::Stop
            },
        )
    }

    /// What follows a command, or the end of the commands.
    pub open spec fn commanded(self, command: Option<CollectorCommand>) -> (
        CollectorState,
        CollectorAction,
    ) {
        (
            CollectorState { commands_open: self.commands_open && command is Some, ..self },
            match command {
                Some(command) => CollectorAction::SampleOnce(command),
                None => CollectorAction::Wait,
            },
        )
    }

    /// Loop after a configuration, or after the end of the configurations.
    pub open spec fn reconfigured(self, config: Option<AgentConfig>, now: Moment) -> CollectorState {
        match config {
            Some(config) => CollectorState {
                schedule: MetricSchedule::starting(config, now),
                config,
                ..self
            },
            None => CollectorState { config_open: false, ..self },
        }
    }

    /// Loop that begins at `now`.
    pub fn start(config: AgentConfig, now: Moment) -> (state: CollectorState)
        requires
            sampling_reachable(config, now),
        ensures
            state == (CollectorState {
                config,
                schedule: MetricSchedule::starting(config, now),
                config_open: true,
                commands_open: true,
                sampling: None,
            }),
    {
        let schedule = MetricSchedule::new_at(&config, now);
        CollectorState { config, schedule, config_open: true, commands_open: true, sampling: None }
    }

    /// When to wake up for samples; never where no group is switched on.
    pub fn wake_at(&self, now: Moment) -> (wake: Option<Moment>)
        ensures
            wake == self.schedule.earliest(self.config),
    {
        if self.schedule.has_enabled_groups(&self.config) {
            Some(self.schedule.next_due(&self.config, now))
        } else {
            None
        }
    }

    /// The time to wake up has come.
    pub fn on_wake(&mut self, now: Moment) -> (action: CollectorAction)
        ensures
            (*final(self), action) == old(self).woken(now),
    {
        let due = self.schedule.due_groups(now, &self.config);
        if !due.any() {
            return CollectorAction::Wait;
        }
        self.sampling = Some(due);
        CollectorAction::Sample(due)
    }

    /// An update was published, or nobody takes updates any more, which ends the loop. The
    /// groups that were sampled move on.
    pub fn on_published(&mut self, taken: bool, now: Moment) -> (action: CollectorAction)
        requires
            taken ==> (old(self).sampling matches Some(due) ==> movable(
                due,
                old(self).config,
                now,
            )),
        ensures
            (*final(self), action) == old(self).published(taken, now),
    {
        let sampling = self.sampling;
        self.sampling = None;
        if !taken {
            return CollectorAction::Stop;
        }
        if let Some(due) = sampling {
            self.schedule.reschedule(due, &self.config, now);
        }
        CollectorAction::Wait
    }

    /// A command arrived, or no more commands will come.
    pub fn on_command(&mut self, command: Option<CollectorCommand>) -> (action: CollectorAction)
        ensures
            (*final(self), action) == old(self).commanded(command),
    {
        match command {
            Some(command) => CollectorAction::SampleOnce(command),
            None => {
                self.commands_open = false;
                CollectorAction::Wait
            },
        }
    }

    /// A configuration arrived, or no more will come. All groups start their intervals again.
    pub fn on_config(&mut self, config: Option<AgentConfig>, now: Moment)
        requires
            config matches Some(config) ==> sampling_reachable(config, now),
        ensures
            *final(self) == old(self).reconfigured(config, now),
    {
        match config {
            Some(config) => {
                self.schedule = MetricSchedule::new_at(&config, now);
                self.config = config;
            },
            None => {
                self.config_open = false;
            },
        }
    }
}

/// Whether a change of the shutdown signal ends a loop: its sender is gone or it was given.
pub fn shutdown_ends_loop(sender_gone: bool, requested: bool) -> (ends: bool)
    ensures
        ends == (sender_gone || requested),
{
    sender_gone || requested
}

/// A group that was sampled is due again at the first whole number of intervals that lies ahead:
/// it keeps its phase, missed samples are not made up for, and it is not due at once.
pub proof fn law_sampling_keeps_phase(next: Moment, interval: Span, now: Moment)
    requires
        interval.nanos > 0,
        reachable(now, interval),
    ensures
        advanced(next, interval, now).nanos > now.nanos,
        next.nanos <= now.nanos ==> advanced(next, interval, now).nanos <= now.nanos
            + interval.nanos,
        (advanced(next, interval, now).nanos - next.nanos) % interval.nanos as int == 0,
{
    if next.nanos <= now.nanos {
        lemma_advanced(next.nanos as int, interval.nanos as int, now.nanos as int);
        let q = (now.nanos - next.nanos) / interval.nanos as int + 1;
        assert((q * interval.nanos) % interval.nanos as int == 0) by {
            vstd::arithmetic::div_mod::lemma_mod_multiples_basic(q, interval.nanos as int);
        }
    } else {
        assert(0int % interval.nanos as int == 0) by {
            vstd::arithmetic::div_mod::lemma_small_mod(0, interval.nanos as nat);
        }
    }
}

/// After the groups that were due have been sampled, nothing is due until time passes.
pub proof fn law_sampled_groups_are_not_due(
    schedule: MetricSchedule,
    config: AgentConfig,
    now: Moment,
)
    requires
        movable(schedule.due(now, config), config, now),
    ensures
        schedule.moved(schedule.due(now, config), config, now).due(now, config).size() == 0,
{
    let due = schedule.due(now, config);
    if due.core {
        law_sampling_keeps_phase(schedule.core_next, config.core.interval, now);
    }
    if due.disk {
        law_sampling_keeps_phase(schedule.disk_next, config.disk.interval, now);
    }
    if due.network {
        law_sampling_keeps_phase(schedule.network_next, config.network.interval, now);
    }
    if due.processes {
        law_sampling_keeps_phase(schedule.processes_next, config.processes.interval, now);
    }
    if due.sockets {
        law_sampling_keeps_phase(schedule.sockets_next, config.sockets.interval, now);
    }
}

/// At the time to wake up some group is due, and before it none is.
pub proof fn law_wake_up_finds_work(schedule: MetricSchedule, config: AgentConfig, now: Moment)
    requires
        switched_on(config).size() > 0,
    ensures
        schedule.earliest(config) is Some,
        schedule.due(now, config).size() > 0 <==> now.nanos >= (schedule.earliest(
            config,
        )->0).nanos,
{
}

/// A group is sampled exactly where it is switched on and its own time has come; what the other
/// groups do has no part in it.
pub proof fn law_groups_are_due_by_their_own_clock(
    schedule: MetricSchedule,
    config: AgentConfig,
    now: Moment,
)
    ensures
        ({
            let due = schedule.due(now, config);
            &&& due.core <==> config.core.enabled && now.nanos >= schedule.core_next.nanos
            &&& due.disk <==> config.disk.enabled && now.nanos >= schedule.disk_next.nanos
            &&& due.network <==> config.network.enabled && now.nanos >= schedule.network_next.nanos
            &&& due.processes <==> config.processes.enabled && now.nanos
                >= schedule.processes_next.nanos
            &&& due.sockets <==> config.sockets.enabled && now.nanos >= schedule.sockets_next.nanos
        }),
{
}

/// The first sample of every group comes one of its intervals after the beginning.
pub proof fn law_first_samples_come_after_one_interval(config: AgentConfig, now: Moment)
    requires
        sampling_reachable(config, now),
    ensures
        ({
            let schedule = MetricSchedule::starting(config, now);
            &&& schedule.core_next.nanos - now.nanos == config.core.interval.nanos
            &&& schedule.disk_next.nanos - now.nanos == config.disk.interval.nanos
            &&& schedule.network_next.nanos - now.nanos == config.network.interval.nanos
            &&& schedule.processes_next.nanos - now.nanos == config.processes.interval.nanos
            &&& schedule.sockets_next.nanos - now.nanos == config.sockets.interval.nanos
        }),
{
}

/// Whether a sample was moved to the first whole number of intervals that lies ahead.
pub open spec fn moved_past(before: Moment, after: Moment, interval: Span, now: Moment) -> bool {
    &&& after.nanos > now.nanos
    &&& before.nanos <= now.nanos ==> after.nanos <= now.nanos + interval.nanos
    &&& before.nanos > now.nanos ==> after == before
    &&& (after.nanos - before.nanos) % interval.nanos as int == 0
}

/// The groups that were sampled move to the next whole number of their own intervals; the others
/// keep their time.
pub proof fn law_only_sampled_groups_move(
    schedule: MetricSchedule,
    due: DueMetricGroups,
    config: AgentConfig,
    now: Moment,
)
    requires
        movable(due, config, now),
    ensures
        ({
            let next = schedule.moved(due, config, now);
            &&& due.core ==> moved_past(
                schedule.core_next,
                next.core_next,
                config.core.interval,
                now,
            )
            &&& due.disk ==> moved_past(
                schedule.disk_next,
                next.disk_next,
                config.disk.interval,
                now,
            )
            &&& due.network ==> moved_past(
                schedule.network_next,
                next.network_next,
                config.network.interval,
                now,
            )
            &&& due.processes ==> moved_past(
                schedule.processes_next,
                next.processes_next,
                config.processes.interval,
                now,
            )
            &&& due.sockets ==> moved_past(
                schedule.sockets_next,
                next.sockets_next,
                config.sockets.interval,
                now,
            )
            &&& !due.core ==> next.core_next == schedule.core_next
            &&& !due.disk ==> next.disk_next == schedule.disk_next
            &&& !due.network ==> next.network_next == schedule.network_next
            &&& !due.processes ==> next.processes_next == schedule.processes_next
            &&& !due.sockets ==> next.sockets_next == schedule.sockets_next
        }),
{
    if due.core {
        law_sampling_keeps_phase(schedule.core_next, config.core.interval, now);
    }
    if due.disk {
        law_sampling_keeps_phase(schedule.disk_next, config.disk.interval, now);
    }
    if due.network {
        law_sampling_keeps_phase(schedule.network_next, config.network.interval, now);
    }
    if due.processes {
        law_sampling_keeps_phase(schedule.processes_next, config.processes.interval, now);
    }
    if due.sockets {
        law_sampling_keeps_phase(schedule.sockets_next, config.sockets.interval, now);
    }
}

/// The loop wakes up no later than the next sample of any group that is switched on, and not
/// before all of them; without such a group it does not wake up for samples.
pub proof fn law_wake_up_is_the_earliest_sample(schedule: MetricSchedule, config: AgentConfig)
    ensures
        match schedule.earliest(config) {
            Some(wake) => {
                &&& config.core.enabled ==> wake.nanos <= schedule.core_next.nanos
                &&& config.disk.enabled ==> wake.nanos <= schedule.disk_next.nanos
                &&& config.network.enabled ==> wake.nanos <= schedule.network_next.nanos
                &&& config.processes.enabled ==> wake.nanos <= schedule.processes_next.nanos
                &&& config.sockets.enabled ==> wake.nanos <= schedule.sockets_next.nanos
                &&& {
                    ||| config.core.enabled && wake == schedule.core_next
                    ||| config.disk.enabled && wake == schedule.disk_next
                    ||| config.network.enabled && wake == schedule.network_next
                    ||| config.processes.enabled && wake == schedule.processes_next
                    ||| config.sockets.enabled && wake == schedule.sockets_next
                }
            },
            None => !config.core.enabled && !config.disk.enabled && !config.network.enabled
                && !config.processes.enabled && !config.sockets.enabled,
        },
{
}

/// Every due group is asked for exactly once, with the options of the configuration, and no other
/// group is.
pub proof fn law_due_groups_are_asked_for<'a>(config: &'a AgentConfig, due: DueMetricGroups)
    ensures
        ({
            let requests = requests_for(config, due);
            &&& requests.len() == due.size()
            &&& due.core <==> requests.contains(SampleRequest::Core)
            &&& due.disk <==> requests.contains(
                SampleRequest::Disk { include_per_device: config.disk.include_per_device },
            )
            &&& due.network <==> requests.contains(
                SampleRequest::Network {
                    include_per_interface: config.network.include_per_interface,
                    include_interfaces: &config.network.include_interfaces,
                    exclude_interfaces: &config.network.exclude_interfaces,
                },
            )
            &&& due.processes <==> requests.contains(
                SampleRequest::Processes {
                    level: config.processes.level,
                    limit: config.processes.limit,
                },
            )
            &&& due.sockets <==> requests.contains(
                SampleRequest::Sockets {
                    level: config.sockets.level,
                    limit: config.sockets.limit,
                },
            )
        }),
{
    let requests = requests_for(config, due);
    let disk = ones(due.core) as int;
    let network = disk + ones(due.disk);
    let processes = network + ones(due.network);
    let sockets = processes + ones(due.processes);
    assert(due.core ==> requests[0] is Core);
    assert(due.disk ==> requests[disk] is Disk);
    assert(due.network ==> requests[network] is Network);
    assert(due.processes ==> requests[processes] is Processes);
    assert(due.sockets ==> requests[sockets] is Sockets);
}

/// The samples come back under the groups that they were taken for, in the order in which they
/// were asked for.
pub proof fn law_samples_find_their_groups<'a>(
    config: &'a AgentConfig,
    due: DueMetricGroups,
    samples: Seq<Sample>,
)
    requires
        samples.len() == due.size(),
    ensures
        ({
            let requests = requests_for(config, due);
            let updates = updates_for(due, samples);
            &&& updates.len() == requests.len()
            &&& forall|i: int|
                0 <= i < updates.len() ==> match #[trigger] requests[i] {
                    SampleRequest::Core => updates[i] == TelemetryUpdate::Core(samples[i]),
                    SampleRequest::Disk { .. } => updates[i] == TelemetryUpdate::Disk(samples[i]),
                    SampleRequest::Network { .. } => updates[i] == TelemetryUpdate::Network(
                        samples[i],
                    ),
                    SampleRequest::Processes { .. } => updates[i] == TelemetryUpdate::Processes(
                        samples[i],
                    ),
                    SampleRequest::Sockets { .. } => updates[i] == TelemetryUpdate::Sockets(
                        samples[i],
                    ),
                }
        }),
{
}

/// Waking up samples exactly the due groups, and their times move on once the update was taken;
/// an update that nobody takes ends the loop.
pub proof fn law_wake_up_samples_and_moves_on(state: CollectorState, now: Moment, then: Moment)
    ensures
        ({
            let due = state.schedule.due(now, state.config);
            let (woken, action) = state.woken(now);
            &&& due.core || due.disk || due.network || due.processes || due.sockets ==> action
                == CollectorAction::Sample(due) && woken.published(true, then).0.schedule
                == state.schedule.moved(due, state.config, then) && woken.published(true, then).1
                == CollectorAction::Wait
            &&& !(due.core || due.disk || due.network || due.processes || due.sockets) ==> action
                == CollectorAction::Wait && woken == state
            &&& woken.published(false, then).1 == CollectorAction::Stop
            &&& woken.config == state.config && woken.schedule == state.schedule
        }),
{
}

/// A command is carried out as it is and moves no group; a new configuration is used from then on,
/// with every interval started again.
pub proof fn law_commands_and_configurations(
    state: CollectorState,
    command: CollectorCommand,
    config: AgentConfig,
    now: Moment,
)
    ensures
        state.commanded(Some(command)).1 == CollectorAction::SampleOnce(command),
        state.commanded(Some(command)).0 == state,
        state.commanded(None).1 == CollectorAction::Wait,
        !state.commanded(None).0.commands_open,
        state.commanded(None).0.schedule == state.schedule,
        state.reconfigured(Some(config), now).config == config,
        state.reconfigured(Some(config), now).schedule == MetricSchedule::starting(config, now),
        state.reconfigured(None, now).config == state.config,
        state.reconfigured(None, now).schedule == state.schedule,
        !state.reconfigured(None, now).config_open,
{
}

/// The sample of a command is told under the group that the command asked for.
pub proof fn law_command_samples_find_their_group(
    command: CollectorCommand,
    sample: Sample,
    update: TelemetryUpdate,
)
    requires
        call_ensures(command_update, (command, sample), update),
    ensures
        command is SampleProcessesOnce ==> update == TelemetryUpdate::Processes(sample),
        command is SampleSocketsOnce ==> update == TelemetryUpdate::Sockets(sample),
{
}

/// Putting updates together loses none and keeps their order; a single one needs no batch.
pub proof fn law_updates_stay_together(
    updates: Vec<TelemetryUpdate>,
    update: Option<TelemetryUpdate>,
)
    requires
        call_ensures(compact_updates, (updates,), update),
    ensures
        updates@.len() == 0 <==> update is None,
        updates@.len() == 1 ==> update == Some(updates@[0]),
        updates@.len() > 1 ==> match update {
            Some(TelemetryUpdate::Batch(batch)) => {
                &&& batch@.len() == updates@.len()
                &&& forall|i: int|
                    0 <= i < updates@.len() ==> #[trigger] batch@[i] == updates@[i]
            },
            _ => false,
        },
{
}

/// A set of groups has a member exactly where its number is not zero, and the groups of a
/// configuration are those that it switches on.
pub proof fn law_sets_of_groups(
    groups: DueMetricGroups,
    any: bool,
    count: usize,
    config: AgentConfig,
    enabled: DueMetricGroups,
)
    requires
        call_ensures(DueMetricGroups::any, (groups,), any),
        call_ensures(DueMetricGroups::count, (groups,), count),
        call_ensures(enabled_groups, (&config,), enabled),
    ensures
        any <==> groups.core || groups.disk || groups.network || groups.processes
            || groups.sockets,
        any <==> count > 0,
        count == 5 <==> groups.core && groups.disk && groups.network && groups.processes
            && groups.sockets,
        enabled.core == config.core.enabled && enabled.disk == config.disk.enabled,
        enabled.network == config.network.enabled,
        enabled.processes == config.processes.enabled && enabled.sockets
            == config.sockets.enabled,
{
}

/// A loop ends when it is told to, and when nobody is left to tell it.
pub proof fn law_loops_end_on_the_signal(gone: bool, requested: bool, ends: bool)
    requires
        call_ensures(shutdown_ends_loop, (gone, requested), ends),
    ensures
        gone ==> ends,
        requested ==> ends,
        ends ==> gone || requested,
{
}

} // verus!
