//! Network probes: requests, rate limits, targets and results.

use crate::scheduler::engine::scheduling::{draw_run_id, lemma_filter_subset};
use crate::scheduler::time::{min_int, Span, NANOS_PER_MILLI};
use crate::service::clock::{elapsed, Moment};
use crate::service::config::RemoteProbeConfig;
use crate::service::outbound::{
    send_error_text, OutboundEvent, OutboundSendError, RemoteJobResultEnvelope,
};
use crate::service::protocol::{
    copied_id, probe_id_text, probe_type_name, RemoteJobResult, RemoteProbeId, RemoteProbeResult,
    RemoteProbeResultSource, RemoteProbeResultStatus, RemoteProbeType,
};
use crate::text::{
    ascii_lowercase, ascii_small, blank, decimal, decimal_text, has_scheme, hexadecimal, is_blank,
    is_endpoint, join, names_endpoint, names_scheme, trim, trimmed,
};
use vstd::prelude::*;

verus! {

/// Largest number of targets whose last probe is remembered.
pub const RATE_STATE_MAX_TARGETS: usize = 1024;

/// Probe to run.
#[derive(Debug, PartialEq, Eq)]
pub struct RemoteProbeExecutionRequest {
    /// What the probe is run for.
    pub source: RemoteProbeResultSource,
    /// Point that the server measures.
    pub point_id: Option<RemoteProbeId>,
    /// Request that asks for the run.
    pub request_id: Option<RemoteProbeId>,
    /// Job that asks for the run.
    pub job_id: Option<String>,
    /// Network protocol.
    pub probe_type: RemoteProbeType,
    /// Target: an address with a port, or a web address.
    pub target: String,
    /// Time limit; the configured one where absent.
    pub timeout: Option<Span>,
}

/// Whether an identity is given as a text without content.
pub open spec fn blank_id(id: Option<RemoteProbeId>) -> bool {
    id matches Some(RemoteProbeId::Text(text)) && blank(text@)
}

/// Whether an identity is given as a text without content.
pub fn is_blank_id(id: &Option<RemoteProbeId>) -> (yes: bool)
    ensures
        yes == blank_id(*id),
{
    match id {
        Some(RemoteProbeId::Text(text)) => is_blank(text.as_str()),
        _ => false,
    }
}

/// Text of an optional string; nothing where it is absent.
pub open spec fn text_or_empty(text: Option<String>) -> Seq<char> {
    match text {
        Some(text) => text@,
        None => Seq::empty(),
    }
}

/// What is wrong with a request, where something is.
pub open spec fn request_error(request: RemoteProbeExecutionRequest) -> Option<Seq<char>> {
    if blank_id(request.point_id) {
        Some("remote_probe.point_id cannot be empty"@)
    } else if request.source == RemoteProbeResultSource::Once && request.job_id is Some {
        Some("remote_probe.once cannot contain job_id"@)
    } else if request.source == RemoteProbeResultSource::Once && blank_id(request.request_id) {
        Some("remote_probe.request_id cannot be empty"@)
    } else if request.source == RemoteProbeResultSource::Once && request.request_id is None {
        Some("remote_probe.once requires request_id"@)
    } else if request.source == RemoteProbeResultSource::Job && request.request_id is Some {
        Some("remote_probe.job cannot contain request_id"@)
    } else if request.source == RemoteProbeResultSource::Job && blank(
        text_or_empty(request.job_id),
    ) {
        Some("remote_probe.job_id cannot be empty"@)
    } else if blank(request.target@) {
        Some("remote_probe.target cannot be empty"@)
    } else {
        None
    }
}

/// Whether a check went as it should: no error where nothing is wrong, else the error's text.
pub open spec fn checks<T>(checked: Result<T, String>, error: Option<Seq<char>>) -> bool {
    match checked {
        Ok(_) => error is None,
        Err(text) => error == Some(text@),
    }
}

/// Text of the first identity that is present.
pub open spec fn shown_id(request: RemoteProbeExecutionRequest) -> Seq<char> {
    match request.point_id {
        Some(id) => probe_id_text(id),
        None => shown_execution(request),
    }
}

/// Text of the identity of the request or the job.
pub open spec fn shown_execution(request: RemoteProbeExecutionRequest) -> Seq<char> {
    match request.request_id {
        Some(id) => probe_id_text(id),
        None => text_or_empty(request.job_id),
    }
}

/// Key by which probes of one target are counted together.
pub open spec fn target_key_of(request: RemoteProbeExecutionRequest) -> Seq<char> {
    probe_type_name(request.probe_type) + ":"@ + trimmed(request.target@).map_values(
        |c: char| ascii_small(c),
    )
}

/// Parts of a result that the run decides.
#[derive(Debug)]
pub struct RemoteProbeResultParts {
    /// Identity of the run.
    pub run_id: String,
    /// How the probe ended.
    pub status: RemoteProbeResultStatus,
    /// Latency of a success, in milliseconds.
    pub latency_ms: Option<u64>,
    /// Start of the run, in Unix seconds.
    pub started_at: u64,
    /// End of the run, in Unix seconds.
    pub finished_at: u64,
    /// Duration in milliseconds.
    pub duration_ms: u64,
    /// Why the probe failed or was refused.
    pub error: Option<String>,
}

/// Result of a request, given the parts that the run decides.
pub open spec fn result_of(
    request: RemoteProbeExecutionRequest,
    parts: RemoteProbeResultParts,
) -> RemoteProbeResult {
    RemoteProbeResult {
        run_id: parts.run_id,
        source: request.source,
        point_id: request.point_id,
        request_id: request.request_id,
        job_id: request.job_id,
        probe_type: request.probe_type,
        target: request.target,
        status: parts.status,
        latency_ms: parts.latency_ms,
        started_at: parts.started_at,
        finished_at: parts.finished_at,
        duration_ms: parts.duration_ms,
        error: parts.error,
    }
}

impl RemoteProbeExecutionRequest {
    /// Checks the request.
    pub fn validate(&self) -> (checked: Result<(), String>)
        ensures
            checks(checked, request_error(*self)),
    {
        if is_blank_id(&self.point_id) {
            return Err("remote_probe.point_id cannot be empty".to_owned());
        }
        match self.source {
            RemoteProbeResultSource::Once => {
                if self.job_id.is_some() {
                    return Err("remote_probe.once cannot contain job_id".to_owned());
                }
                if is_blank_id(&self.request_id) {
                    return Err("remote_probe.request_id cannot be empty".to_owned());
                }
                if self.request_id.is_none() {
                    return Err("remote_probe.once requires request_id".to_owned());
                }
            },
            RemoteProbeResultSource::Job => {
                if self.request_id.is_some() {
                    return Err("remote_probe.job cannot contain request_id".to_owned());
                }
                let empty = match &self.job_id {
                    Some(job_id) => is_blank(job_id.as_str()),
                    None => {
                        assert(blank(Seq::<char>::empty()));
                        true
                    },
                };
                if empty {
                    return Err("remote_probe.job_id cannot be empty".to_owned());
                }
            },
        }
        if is_blank(self.target.as_str()) {
            return Err("remote_probe.target cannot be empty".to_owned());
        }
        Ok(())
    }

    /// The request itself where nothing is wrong with it.
    pub fn validated(self) -> (checked: Result<RemoteProbeExecutionRequest, String>)
        ensures
            checks(checked, request_error(self)),
            checked matches Ok(request) ==> request == self,
    {
        match self.validate() {
            Ok(_) => Ok(self),
            Err(text) => Err(text),
        }
    }

    /// Text that shows this request.
    pub fn display_id(&self) -> (text: String)
        ensures
            text@ == shown_id(*self),
    {
        match &self.point_id {
            Some(id) => id.display(),
            None => self.execution_display_id(),
        }
    }

    /// Text that shows the measured point.
    pub fn point_display_id(&self) -> (text: String)
        ensures
            text@ == (match self.point_id {
                Some(id) => probe_id_text(id),
                None => Seq::empty(),
            }),
    {
        match &self.point_id {
            Some(id) => id.display(),
            None => String::new(),
        }
    }

    /// Text that shows the request or the job.
    pub fn execution_display_id(&self) -> (text: String)
        ensures
            text@ == shown_execution(*self),
    {
        match &self.request_id {
            Some(id) => id.display(),
            None => match &self.job_id {
                Some(job_id) => job_id.clone(),
                None => String::new(),
            },
        }
    }

    /// Key by which probes of one target are counted together.
    pub fn target_key(&self) -> (key: String)
        ensures
            key@ == target_key_of(*self),
    {
        let target = trim(self.target.as_str());
        let small = ascii_lowercase(target.as_str());
        self.probe_type.as_str().to_owned().concat(":").concat(small.as_str())
    }

    /// Result of this request.
    pub fn into_result(self, parts: RemoteProbeResultParts) -> (result: RemoteProbeResult)
        ensures
            result == result_of(self, parts),
    {
        RemoteProbeResult {
            run_id: parts.run_id,
            source: self.source,
            point_id: self.point_id,
            request_id: self.request_id,
            job_id: self.job_id,
            probe_type: self.probe_type,
            target: self.target,
            status: parts.status,
            latency_ms: parts.latency_ms,
            started_at: parts.started_at,
            finished_at: parts.finished_at,
            duration_ms: parts.duration_ms,
            error: parts.error,
        }
    }
}

/// Recurring probe.
#[derive(Debug, PartialEq, Eq)]
pub struct RemoteProbeJobSpec {
    /// Identity of the job.
    pub job_id: String,
    /// Point that the server measures.
    pub point_id: Option<RemoteProbeId>,
    /// Whether the job runs.
    pub enabled: bool,
    /// Network protocol.
    pub probe_type: RemoteProbeType,
    /// Target.
    pub target: String,
    /// Time between two runs.
    pub interval: Span,
    /// Time limit; the configured one where absent.
    pub timeout: Option<Span>,
}

impl Clone for RemoteProbeJobSpec {
    fn clone(&self) -> (copy: Self)
        ensures
            copy == *self,
    {
        RemoteProbeJobSpec {
            job_id: self.job_id.clone(),
            point_id: copied_id(&self.point_id),
            enabled: self.enabled,
            probe_type: self.probe_type,
            target: self.target.clone(),
            interval: self.interval,
            timeout: self.timeout,
        }
    }
}

/// What is wrong with a recurring probe, where something is.
pub open spec fn job_error(spec: RemoteProbeJobSpec) -> Option<Seq<char>> {
    if blank(spec.job_id@) {
        Some("remote_probe.job_id cannot be empty"@)
    } else if blank_id(spec.point_id) {
        Some("remote_probe.point_id cannot be empty"@)
    } else if blank(spec.target@) {
        Some("remote_probe.target cannot be empty"@)
    } else if spec.interval.nanos == 0 {
        Some("remote_probe.interval must be greater than zero"@)
    } else {
        None
    }
}

/// Run of a recurring probe.
pub open spec fn run_of_job(spec: RemoteProbeJobSpec) -> RemoteProbeExecutionRequest {
    RemoteProbeExecutionRequest {
        source: RemoteProbeResultSource::Job,
        point_id: spec.point_id,
        request_id: None,
        job_id: Some(spec.job_id),
        probe_type: spec.probe_type,
        target: spec.target,
        timeout: spec.timeout,
    }
}

/// Content of an optional identity.
pub open spec fn id_view(id: Option<RemoteProbeId>) -> Option<(bool, Seq<char>, u64)> {
    match id {
        Some(RemoteProbeId::Text(text)) => Some((true, text@, 0)),
        Some(RemoteProbeId::Number(number)) => Some((false, Seq::empty(), number)),
        None => None,
    }
}

/// Whether two optional identities are the same.
fn same_id(a: &Option<RemoteProbeId>, b: &Option<RemoteProbeId>) -> (same: bool)
    ensures
        same == (id_view(*a) == id_view(*b)),
{
    match (a, b) {
        (Some(RemoteProbeId::Text(a)), Some(RemoteProbeId::Text(b))) => *a == *b,
        (Some(RemoteProbeId::Number(a)), Some(RemoteProbeId::Number(b))) => *a == *b,
        (None, None) => true,
        _ => false,
    }
}

/// Whether two recurring probes are defined alike.
pub open spec fn same_job(a: RemoteProbeJobSpec, b: RemoteProbeJobSpec) -> bool {
    &&& a.job_id@ == b.job_id@
    &&& id_view(a.point_id) == id_view(b.point_id)
    &&& a.enabled == b.enabled
    &&& a.probe_type == b.probe_type
    &&& a.target@ == b.target@
    &&& a.interval == b.interval
    &&& a.timeout == b.timeout
}

impl RemoteProbeJobSpec {
    /// Checks the job.
    pub fn validate(&self) -> (checked: Result<(), String>)
        ensures
            checks(checked, job_error(*self)),
    {
        if is_blank(self.job_id.as_str()) {
            return Err("remote_probe.job_id cannot be empty".to_owned());
        }
        if is_blank_id(&self.point_id) {
            return Err("remote_probe.point_id cannot be empty".to_owned());
        }
        if is_blank(self.target.as_str()) {
            return Err("remote_probe.target cannot be empty".to_owned());
        }
        if self.interval.is_zero() {
            return Err("remote_probe.interval must be greater than zero".to_owned());
        }
        Ok(())
    }

    /// The job itself where nothing is wrong with it.
    pub fn validated(self) -> (checked: Result<RemoteProbeJobSpec, String>)
        ensures
            checks(checked, job_error(self)),
            checked matches Ok(spec) ==> spec == self,
    {
        match self.validate() {
            Ok(_) => Ok(self),
            Err(text) => Err(text),
        }
    }

    /// Run of this job.
    pub fn to_execution_request(&self) -> (request: RemoteProbeExecutionRequest)
        ensures
            request == run_of_job(*self),
    {
        RemoteProbeExecutionRequest {
            source: RemoteProbeResultSource::Job,
            point_id: copied_id(&self.point_id),
            request_id: None,
            job_id: Some(self.job_id.clone()),
            probe_type: self.probe_type,
            target: self.target.clone(),
            timeout: self.timeout,
        }
    }

    /// Whether two jobs are defined alike.
    pub fn same(&self, other: &RemoteProbeJobSpec) -> (same: bool)
        ensures
            same == same_job(*self, *other),
    {
        let timeouts = match (self.timeout, other.timeout) {
            (Some(a), Some(b)) => a == b,
            (None, None) => true,
            _ => false,
        };
        self.job_id == other.job_id && same_id(&self.point_id, &other.point_id) && self.enabled
            == other.enabled && self.probe_type == other.probe_type && self.target == other.target
            && self.interval == other.interval && timeouts
    }
}

/// Last probe of a target.
#[derive(Debug)]
pub struct TargetStart {
    /// Key of the target.
    pub key: String,
    /// When the probe started.
    pub started_at: Moment,
}

/// Last probe of a target as a mathematical value.
pub type TargetStartView = (Seq<char>, Moment);

/// Probes of the recent past.
#[derive(Debug)]
pub struct ProbeRateState {
    /// When a probe started last.
    pub last_global_started_at: Option<Moment>,
    /// When a probe of each target started last; no target occurs twice.
    pub last_target_started_at: Vec<TargetStart>,
}

/// Probes of the recent past as a mathematical value.
#[verifier::ext_equal]
pub struct RateView {
    /// When a probe started last.
    pub last_global: Option<Moment>,
    /// When a probe of each target started last.
    pub targets: Seq<TargetStartView>,
}

/// Remembered targets as mathematical values.
pub open spec fn targets_view(targets: Seq<TargetStart>) -> Seq<TargetStartView> {
    targets.map_values(|target: TargetStart| (target.key@, target.started_at))
}

impl View for ProbeRateState {
    type V = RateView;

    open spec fn view(&self) -> RateView {
        RateView {
            last_global: self.last_global_started_at,
            targets: targets_view(self.last_target_started_at@),
        }
    }
}

/// Place of a target; the place after the last where it is not remembered.
pub open spec fn target_place(targets: Seq<TargetStartView>, key: Seq<char>) -> int
    decreases targets.len(),
{
    if targets.len() == 0 || targets[0].0 == key {
        0
    } else {
        1 + target_place(targets.drop_first(), key)
    }
}

proof fn lemma_target_place(targets: Seq<TargetStartView>, key: Seq<char>, place: int)
    requires
        0 <= place <= targets.len(),
        forall|i: int| 0 <= i < place ==> targets[i].0 != key,
        place < targets.len() ==> targets[place].0 == key,
    ensures
        target_place(targets, key) == place,
    decreases targets.len(),
{
    if place > 0 {
        let rest = targets.drop_first();
        assert forall|i: int| 0 <= i < place - 1 implies rest[i].0 != key by {
            assert(rest[i] == targets[i + 1]);
        }
        lemma_target_place(rest, key, place - 1);
    }
}

/// The place of a target lies among the targets, or behind them where it is not remembered.
pub proof fn lemma_target_place_range(targets: Seq<TargetStartView>, key: Seq<char>)
    ensures
        0 <= target_place(targets, key) <= targets.len(),
        target_place(targets, key) < targets.len() ==> targets[target_place(targets, key)].0
            == key,
        forall|i: int| 0 <= i < target_place(targets, key) ==> targets[i].0 != key,
    decreases targets.len(),
{
    if targets.len() > 0 && targets[0].0 != key {
        let rest = targets.drop_first();
        lemma_target_place_range(rest, key);
        assert forall|i: int| 0 <= i < target_place(targets, key) implies targets[i].0 != key by {
            if i > 0 {
                assert(targets[i] == rest[i - 1]);
            }
        }
    }
}

/// Whether no target is remembered twice.
pub open spec fn distinct_targets(targets: Seq<TargetStartView>) -> bool {
    forall|i: int, j: int|
        0 <= i < j < targets.len() ==> (#[trigger] targets[i]).0 != (#[trigger] targets[j]).0
}

impl RateView {
    /// No target is remembered twice, and there are no more of them than there is room for.
    pub open spec fn wf(self) -> bool {
        distinct_targets(self.targets) && self.targets.len() <= RATE_STATE_MAX_TARGETS
    }
}

proof fn lemma_pruned_wf(targets: Seq<TargetStartView>, keep: spec_fn(TargetStartView) -> bool)
    requires
        distinct_targets(targets),
    ensures
        distinct_targets(targets.filter(keep)),
        targets.filter(keep).len() <= targets.len(),
    decreases targets.len(),
{
    reveal(Seq::filter);
    if targets.len() > 0 {
        let front = targets.drop_last();
        assert(distinct_targets(front)) by {
            assert forall|i: int, j: int| 0 <= i < j < front.len() implies (
            #[trigger] front[i]).0 != (#[trigger] front[j]).0 by {
                assert(targets[i].0 != targets[j].0);
            }
        }
        lemma_pruned_wf(front, keep);
        lemma_filter_subset(front, keep);
        let kept = front.filter(keep);
        assert forall|k: int| 0 <= k < kept.len() implies (#[trigger] kept[k]).0
            != targets.last().0 by {
            let j = choose|j: int| 0 <= j < front.len() && front[j] == kept[k];
            assert(front.contains(kept[k]));
            assert(targets[j].0 != targets[targets.len() - 1].0);
        }
    }
}

/// Place of the longest unprobed target, the first one of several.
pub open spec fn oldest_place(targets: Seq<TargetStartView>) -> int
    decreases targets.len(),
{
    if targets.len() <= 1 {
        0
    } else {
        let rest = oldest_place(targets.drop_last());
        if targets.last().1.nanos < targets[rest].1.nanos {
            targets.len() - 1
        } else {
            rest
        }
    }
}

/// Remembered targets after a probe of `key` started. A new target takes the place of the
/// longest unprobed one where there is no room left.
pub open spec fn with_target(
    targets: Seq<TargetStartView>,
    key: Seq<char>,
    started_at: Moment,
) -> Seq<TargetStartView> {
    let place = target_place(targets, key);
    if place < targets.len() {
        targets.update(place, (key, started_at))
    } else if targets.len() >= RATE_STATE_MAX_TARGETS {
        targets.remove(oldest_place(targets)).push((key, started_at))
    } else {
        targets.push((key, started_at))
    }
}

/// Whether a target still counts.
pub open spec fn recent(now: Moment, min_interval: Span) -> spec_fn(TargetStartView) -> bool {
    |target: TargetStartView| elapsed(target.1, now) < min_interval.nanos
}

/// Remembered targets that still count.
pub open spec fn pruned(
    targets: Seq<TargetStartView>,
    now: Moment,
    min_interval: Span,
) -> Seq<TargetStartView> {
    targets.filter(recent(now, min_interval))
}

/// Why a probe may not start now, where it may not.
pub open spec fn limit_reached(
    state: RateView,
    key: Seq<char>,
    config: RemoteProbeConfig,
    now: Moment,
) -> Option<Seq<char>> {
    let targets = pruned(state.targets, now, config.target_min_interval);
    let place = target_place(targets, key);
    if state.last_global matches Some(started) && elapsed(started, now)
        < config.global_min_interval.nanos {
        Some("remote probe global rate limit reached"@)
    } else if place < targets.len() && elapsed(targets[place].1, now)
        < config.target_min_interval.nanos {
        Some("remote probe target rate limit reached"@)
    } else {
        None
    }
}

impl ProbeRateState {
    /// No probes.
    pub fn new() -> (state: ProbeRateState)
        ensures
            state@ == (RateView { last_global: None, targets: Seq::empty() }),
            state@.wf(),
    {
        let state = ProbeRateState {
            last_global_started_at: None,
            last_target_started_at: Vec::new(),
        };
        assert(state@.targets =~= Seq::empty());
        state
    }

    fn find_target(&self, key: &String) -> (place: usize)
        ensures
            place == target_place(self@.targets, key@),
            place <= self.last_target_started_at@.len(),
    {
        let mut i: usize = 0;
        while i < self.last_target_started_at.len() && self.last_target_started_at[i].key != *key
            invariant
                i <= self.last_target_started_at@.len(),
                forall|j: int| 0 <= j < i ==> self@.targets[j].0 != key@,
            decreases self.last_target_started_at@.len() - i,
        {
            i += 1;
        }
        proof {
            lemma_target_place(self@.targets, key@, i as int);
        }
        i
    }

    fn find_oldest(&self) -> (place: usize)
        requires
            self.last_target_started_at@.len() > 0,
        ensures
            place == oldest_place(self@.targets),
            place < self.last_target_started_at@.len(),
    {
        let mut oldest: usize = 0;
        let mut i: usize = 1;
        assert(oldest_place(self@.targets.take(1)) == 0);
        while i < self.last_target_started_at.len()
            invariant
                1 <= i <= self.last_target_started_at@.len(),
                oldest < i,
                oldest == oldest_place(self@.targets.take(i as int)),
            decreases self.last_target_started_at@.len() - i,
        {
            proof {
                let next = self@.targets.take(i + 1);
                assert(next.drop_last() =~= self@.targets.take(i as int));
                assert(next[oldest as int] == self@.targets[oldest as int]);
                assert(next.last() == self@.targets[i as int]);
            }
            if self.last_target_started_at[i].started_at.nanos
                < self.last_target_started_at[oldest].started_at.nanos {
                oldest = i;
            }
            i += 1;
        }
        assert(self@.targets.take(i as int) =~= self@.targets);
        oldest
    }

    /// Remembers that a probe of a target started. A new target takes the place of the longest
    /// unprobed one where there is no room left.
    pub fn insert_target(&mut self, key: String, started_at: Moment)
        ensures
            final(self)@ == (RateView {
                targets: with_target(old(self)@.targets, key@, started_at),
                ..old(self)@
            }),
            old(self)@.wf() ==> final(self)@.wf(),
    {
        let ghost before = self@.targets;
        proof {
            if self@.wf() {
                law_rate_memory_is_bounded(before, key@, started_at);
            }
        }
        let place = self.find_target(&key);
        if place < self.last_target_started_at.len() {
            self.last_target_started_at[place] = TargetStart { key, started_at };
            assert(self@.targets =~= before.update(place as int, (key@, started_at)));
        } else {
            if self.last_target_started_at.len() >= RATE_STATE_MAX_TARGETS {
                let oldest = self.find_oldest();
                self.last_target_started_at.remove(oldest);
                assert(self@.targets =~= before.remove(oldest as int));
            }
            let ghost room = self@.targets;
            self.last_target_started_at.push(TargetStart { key, started_at });
            assert(self@.targets =~= room.push((key@, started_at)));
        }
    }

    /// Forgets the targets that no longer count.
    pub fn prune(&mut self, now: Moment, target_min_interval: Span)
        ensures
            final(self)@ == (RateView {
                targets: pruned(old(self)@.targets, now, target_min_interval),
                ..old(self)@
            }),
            old(self)@.wf() ==> final(self)@.wf(),
    {
        let ghost before = self@.targets;
        proof {
            if self@.wf() {
                lemma_pruned_wf(before, recent(now, target_min_interval));
            }
        }
        let ghost counts = recent(now, target_min_interval);
        let ghost mut seen: int = 0;
        let mut i: usize = 0;
        assert(before.take(0).filter(counts) =~= Seq::empty()) by {
            reveal(Seq::filter);
        }
        assert(self@.targets.take(0) =~= Seq::empty());
        while i < self.last_target_started_at.len()
            invariant
                counts == recent(now, target_min_interval),
                i <= self@.targets.len(),
                0 <= seen <= before.len(),
                self@.targets.len() - i == before.len() - seen,
                self@.targets.take(i as int) == before.take(seen).filter(counts),
                self@.targets.skip(i as int) == before.skip(seen),
                self.last_global_started_at == old(self).last_global_started_at,
            decreases self@.targets.len() - i,
        {
            let ghost prior = self@.targets;
            proof {
                assert(prior.skip(i as int)[0] == before.skip(seen)[0]);
                assert(prior[i as int] == before[seen]);
                assert(before.take(seen + 1).drop_last() =~= before.take(seen));
                assert(before.skip(seen + 1) =~= before.skip(seen).drop_first());
                reveal(Seq::filter);
            }
            if now.since(self.last_target_started_at[i].started_at).nanos
                < target_min_interval.nanos {
                assert(prior.take(i + 1) =~= prior.take(i as int).push(prior[i as int]));
                assert(prior.skip(i + 1) =~= prior.skip(i as int).drop_first());
                i += 1;
            } else {
                self.last_target_started_at.remove(i);
                assert(self@.targets =~= prior.remove(i as int));
                assert(self@.targets.take(i as int) =~= prior.take(i as int));
                assert(self@.targets.skip(i as int) =~= prior.skip(i as int).drop_first());
            }
            proof {
                seen = seen + 1;
            }
        }
        assert(before.take(seen) =~= before);
        assert(self@.targets.take(i as int) =~= self@.targets);
    }

    /// Asks for the start of a probe. The reason comes back where it may not start now; else its
    /// start is remembered.
    pub fn try_mark_started(
        &mut self,
        request: &RemoteProbeExecutionRequest,
        config: &RemoteProbeConfig,
        now: Moment,
    ) -> (refused: Option<String>)
        ensures
            match refused {
                Some(reason) => {
                    &&& limit_reached(old(self)@, target_key_of(*request), *config, now) == Some(
                        reason@,
                    )
                    &&& final(self)@ == (RateView {
                        targets: pruned(old(self)@.targets, now, config.target_min_interval),
                        ..old(self)@
                    })
                },
                None => {
                    &&& limit_reached(old(self)@, target_key_of(*request), *config, now) is None
                    &&& final(self)@ == (RateView {
                        last_global: Some(now),
                        targets: with_target(
                            pruned(old(self)@.targets, now, config.target_min_interval),
                            target_key_of(*request),
                            now,
                        ),
                    })
                },
            },
            old(self)@.wf() ==> final(self)@.wf(),
    {
        let key = request.target_key();
        self.prune(now, config.target_min_interval);
        if let Some(started) = self.last_global_started_at {
            if now.since(started).nanos < config.global_min_interval.nanos {
                return Some("remote probe global rate limit reached".to_owned());
            }
        }
        let place = self.find_target(&key);
        if place < self.last_target_started_at.len() {
            if now.since(self.last_target_started_at[place].started_at).nanos
                < config.target_min_interval.nanos {
                return Some("remote probe target rate limit reached".to_owned());
            }
        }
        self.last_global_started_at = Some(now);
        self.insert_target(key, now);
        None
    }
}

/// What follows the request for a probe.
#[derive(Debug)]
pub enum ProbeStart {
    /// The probe runs.
    Run {
        /// Time limit.
        timeout: Span,
    },
    /// The probe does not run.
    Refuse(String),
}

/// Time limit of a probe: the requested one, but no more than the configured one.
pub open spec fn effective_timeout(requested: Option<Span>, configured: Span) -> Span {
    match requested {
        Some(requested) => Span {
            nanos: min_int(requested.nanos as int, configured.nanos as int) as u128,
        },
        None => configured,
    }
}

/// Time limit of a probe or a task: the requested one, but no more than the configured one.
pub fn limited_timeout(requested: Option<Span>, configured: Span) -> (timeout: Span)
    ensures
        timeout == effective_timeout(requested, configured),
{
    match requested {
        Some(requested) => requested.min(configured),
        None => configured,
    }
}

/// Why a probe does not run, where it does not.
pub open spec fn refusal(
    state: RateView,
    request: RemoteProbeExecutionRequest,
    config: RemoteProbeConfig,
    now: Moment,
) -> Option<Seq<char>> {
    if !config.enabled {
        Some("remote probe is disabled"@)
    } else {
        limit_reached(state, target_key_of(request), config, now)
    }
}

/// Probes of the recent past after one was asked for.
pub open spec fn after_request(
    state: RateView,
    request: RemoteProbeExecutionRequest,
    config: RemoteProbeConfig,
    now: Moment,
) -> RateView {
    let targets = pruned(state.targets, now, config.target_min_interval);
    if !config.enabled {
        state
    } else if limit_reached(state, target_key_of(request), config, now) is Some {
        RateView { targets, ..state }
    } else {
        RateView {
            last_global: Some(now),
            targets: with_target(targets, target_key_of(request), now),
        }
    }
}

/// Whether a request for a single probe was answered: what happens to it, and the probes of the
/// recent past afterwards.
pub open spec fn probe_started(
    before: RateView,
    request: RemoteProbeExecutionRequest,
    config: RemoteProbeConfig,
    now: Moment,
    after: RateView,
    start: Result<ProbeStart, String>,
) -> bool {
    &&& checks(start, request_error(request))
    &&& match start {
        Err(_) => after == before,
        Ok(ProbeStart::Run { timeout }) => {
            &&& refusal(before, request, config, now) is None
            &&& timeout == effective_timeout(request.timeout, config.timeout)
            &&& after == after_request(before, request, config, now)
        },
        Ok(ProbeStart::Refuse(reason)) => {
            &&& refusal(before, request, config, now) == Some(reason@)
            &&& after == after_request(before, request, config, now)
        },
    }
}

/// Run of a recurring probe and its time limit, where the probe is not refused.
pub open spec fn recurring_run(
    state: RateView,
    spec: RemoteProbeJobSpec,
    config: RemoteProbeConfig,
    now: Moment,
) -> Option<(RemoteProbeExecutionRequest, Span)> {
    if refusal(state, run_of_job(spec), config, now) is Some {
        None
    } else {
        Some((run_of_job(spec), effective_timeout(spec.timeout, config.timeout)))
    }
}

impl ProbeRateState {
    /// Decides about a probe.
    fn decide(
        &mut self,
        request: &RemoteProbeExecutionRequest,
        config: &RemoteProbeConfig,
        now: Moment,
    ) -> (start: ProbeStart)
        ensures
            final(self)@ == after_request(old(self)@, *request, *config, now),
            old(self)@.wf() ==> final(self)@.wf(),
            match start {
                ProbeStart::Run { timeout } => {
                    &&& refusal(old(self)@, *request, *config, now) is None
                    &&& timeout == effective_timeout(request.timeout, config.timeout)
                },
                ProbeStart::Refuse(reason) => refusal(old(self)@, *request, *config, now) == Some(
                    reason@,
                ),
            },
    {
        if !config.enabled {
            return ProbeStart::Refuse("remote probe is disabled".to_owned());
        }
        match self.try_mark_started(request, config, now) {
            Some(reason) => ProbeStart::Refuse(reason),
            None => ProbeStart::Run { timeout: limited_timeout(request.timeout, config.timeout) },
        }
    }

    /// Decides about a single probe. An error comes back where something is wrong with the
    /// request; a refusal is reported to the server.
    pub fn start_once(
        &mut self,
        request: &RemoteProbeExecutionRequest,
        config: &RemoteProbeConfig,
        now: Moment,
    ) -> (start: Result<ProbeStart, String>)
        ensures
            probe_started(old(self)@, *request, *config, now, final(self)@, start),
            old(self)@.wf() ==> final(self)@.wf(),
    {
        match request.validate() {
            Ok(_) => Ok(self.decide(request, config, now)),
            Err(text) => Err(text),
        }
    }

    /// Decides about a run of a recurring probe. A refusal is passed over in silence.
    pub fn start_job(
        &mut self,
        spec: &RemoteProbeJobSpec,
        config: &RemoteProbeConfig,
        now: Moment,
    ) -> (run: Option<(RemoteProbeExecutionRequest, Span)>)
        ensures
            final(self)@ == after_request(old(self)@, run_of_job(*spec), *config, now),
            old(self)@.wf() ==> final(self)@.wf(),
            run == recurring_run(old(self)@, *spec, *config, now),
    {
        let request = spec.to_execution_request();
        match self.decide(&request, config, now) {
            ProbeStart::Run { timeout } => Some((request, timeout)),
            ProbeStart::Refuse(_) => None,
        }
    }
}

/// Text of an identifier: its hexadecimal digits in groups.
pub open spec fn hyphenated(id: u128) -> Seq<char> {
    let digits = hexadecimal(id as nat, 32);
    digits.subrange(0, 8) + "-"@ + digits.subrange(8, 12) + "-"@ + digits.subrange(12, 16) + "-"@
        + digits.subrange(16, 20) + "-"@ + digits.subrange(20, 32)
}

/// `uuid::Uuid::from_u128` and `uuid::Uuid::to_string`: the identifier as 32 small hexadecimal
/// digits in groups of 8, 4, 4, 4 and 12.
#[verifier::external_body]
fn uuid_text(id: u128) -> (text: String)
    ensures
        text@ == hyphenated(id),
{
    uuid::Uuid::from_u128(id).to_string()
}

/// Identity for a run of a probe. The identifier is random; its text has the usual form.
pub fn new_run_id() -> (run_id: String)
    ensures
        exists|id: u128| run_id@ == hyphenated(id),
{
    let id: u128 = draw_run_id();
    uuid_text(id)
}

/// Parts of the result of a probe that does not run.
pub open spec fn rejected_parts(run_id: String, at: u64, reason: String) -> RemoteProbeResultParts {
    RemoteProbeResultParts {
        run_id,
        status: RemoteProbeResultStatus::Rejected,
        latency_ms: None,
        started_at: at,
        finished_at: at,
        duration_ms: 0,
        error: Some(reason),
    }
}

/// Result of a probe that does not run.
pub fn rejected_result(
    request: RemoteProbeExecutionRequest,
    run_id: String,
    at: u64,
    reason: String,
) -> (result: RemoteProbeResult)
    ensures
        result == result_of(request, rejected_parts(run_id, at, reason)),
{
    request.into_result(
        RemoteProbeResultParts {
            run_id,
            status: RemoteProbeResultStatus::Rejected,
            latency_ms: None,
            started_at: at,
            finished_at: at,
            duration_ms: 0,
            error: Some(reason),
        },
    )
}

/// Whole milliseconds of a duration, cut to what a result can hold.
pub open spec fn result_millis(duration: Span) -> u64 {
    min_int(duration.nanos as int / NANOS_PER_MILLI as int, u64::MAX as int) as u64
}

/// Parts of the result of a probe that ran.
pub open spec fn executed_parts(
    run_id: String,
    started_at: u64,
    finished_at: u64,
    duration: Span,
    outcome: Result<(), String>,
) -> RemoteProbeResultParts {
    RemoteProbeResultParts {
        run_id,
        status: if outcome is Ok {
            RemoteProbeResultStatus::Success
        } else {
            RemoteProbeResultStatus::Failed
        },
        latency_ms: if outcome is Ok {
            Some(result_millis(duration))
        } else {
            None
        },
        started_at,
        finished_at,
        duration_ms: result_millis(duration),
        error: match outcome {
            Ok(_) => None,
            Err(error) => Some(error),
        },
    }
}

/// Result of a probe that ran. Only a success has a latency: the time that it took.
pub fn executed_result(
    request: RemoteProbeExecutionRequest,
    run_id: String,
    started_at: u64,
    finished_at: u64,
    duration: Span,
    outcome: Result<(), String>,
) -> (result: RemoteProbeResult)
    ensures
        result == result_of(
            request,
            executed_parts(run_id, started_at, finished_at, duration, outcome),
        ),
{
    let duration_ms: u64 = duration.saturating_millis();
    let (status, latency_ms, error) = match outcome {
        Ok(_) => (RemoteProbeResultStatus::Success, Some(duration_ms), None),
        Err(error) => (RemoteProbeResultStatus::Failed, None, Some(error)),
    };
    request.into_result(
        RemoteProbeResultParts {
            run_id,
            status,
            latency_ms,
            started_at,
            finished_at,
            duration_ms,
            error,
        },
    )
}

/// Event that carries the result of a probe.
pub fn result_event(
    agent_id: String,
    sequence: u64,
    created_at: u64,
    result: RemoteProbeResult,
) -> (event: OutboundEvent)
    ensures
        event == OutboundEvent::RemoteJobResult(
            RemoteJobResultEnvelope {
                agent_id,
                sequence,
                created_at,
                result: RemoteJobResult::Probe(result),
            },
        ),
{
    OutboundEvent::RemoteJobResult(
        RemoteJobResultEnvelope {
            agent_id,
            sequence,
            created_at,
            result: RemoteJobResult::probe(result),
        },
    )
}

/// Outcome of handing over the result of a probe that does not run.
pub fn refused_result_sent(sent: Result<(), OutboundSendError>) -> (outcome: Result<(), String>)
    ensures
        match sent {
            Ok(_) => outcome is Ok,
            Err(error) => outcome is Err && outcome->Err_0@ == "outbound event send failed: "@
                + send_error_text(error.kind),
        },
{
    match sent {
        Ok(_) => Ok(()),
        Err(error) => Err(join("outbound event send failed: ", error.message().as_str())),
    }
}

/// What `reqwest::Url::parse` makes of a text: scheme, host, port and the text of the address; or
/// the text of the error.
pub uninterp spec fn parsed_url(text: Seq<char>) -> Result<
    (Seq<char>, Option<Seq<char>>, Option<u16>, Seq<char>),
    Seq<char>,
>;

/// Address on the web.
#[derive(Debug)]
pub struct WebAddress {
    /// Scheme, in small letters.
    pub scheme: String,
    /// Host, where there is one.
    pub host: Option<String>,
    /// Port, where it is given and not the scheme's usual one.
    pub port: Option<u16>,
    /// Text of the address.
    pub text: String,
}

/// Outcome of reading an address as a mathematical value.
pub open spec fn address_view(address: Result<WebAddress, String>) -> Result<
    (Seq<char>, Option<Seq<char>>, Option<u16>, Seq<char>),
    Seq<char>,
> {
    match address {
        Ok(address) => Ok(
            (
                address.scheme@,
                match address.host {
                    Some(host) => Some(host@),
                    None => None,
                },
                address.port,
                address.text@,
            ),
        ),
        Err(text) => Err(text@),
    }
}

/// `reqwest::Url::parse`, with `scheme`, `host_str`, `port` and `as_str` of what it returns, or
/// the text of its error.
#[verifier::external_body]
fn parse_url(text: &str) -> (address: Result<WebAddress, String>)
    ensures
        address_view(address) == parsed_url(text@),
{
    match reqwest::Url::parse(text) {
        Ok(url) => Ok(
            WebAddress {
                scheme: url.scheme().to_owned(),
                host: url.host_str().map(|host| host.to_owned()),
                port: url.port(),
                text: url.as_str().to_owned(),
            },
        ),
        Err(error) => Err(error.to_string()),
    }
}

/// Whether reading a target went as it should.
pub open spec fn reads(
    read: Result<String, String>,
    expected: Result<Seq<char>, Seq<char>>,
) -> bool {
    match read {
        Ok(text) => expected == Ok::<Seq<char>, Seq<char>>(text@),
        Err(text) => expected == Err::<Seq<char>, Seq<char>>(text@),
    }
}

/// Address to connect to, given the target without surrounding white space and what it is as an
/// address on the web. `host:port` is taken as it stands, and so is what is no such address.
pub open spec fn connection_address(
    target: Seq<char>,
    url: Result<(Seq<char>, Option<Seq<char>>, Option<u16>, Seq<char>), Seq<char>>,
) -> Result<Seq<char>, Seq<char>> {
    if names_endpoint(target) {
        Ok(target)
    } else {
        match url {
            Err(_) => Ok(target),
            Ok((scheme, host, port, _)) => if scheme != "tcp"@ {
                Err("tcp probe target must use tcp:// or host:port"@)
            } else {
                match (host, port) {
                    (None, _) => Err("tcp probe target host is missing"@),
                    (Some(_), None) => Err("tcp probe target port is missing"@),
                    (Some(host), Some(port)) => Ok(host + ":"@ + decimal(port as nat)),
                }
            },
        }
    }
}

/// Address to connect to, given the target without surrounding white space and what it is as an
/// address on the web.
pub fn tcp_address(target: String, url: Result<WebAddress, String>) -> (address: Result<
    String,
    String,
>)
    ensures
        reads(address, connection_address(target@, address_view(url))),
{
    if is_endpoint(target.as_str()) {
        return Ok(target);
    }
    match url {
        Err(_) => Ok(target),
        Ok(url) => {
            let tcp = "tcp".to_owned();
            if url.scheme != tcp {
                return Err("tcp probe target must use tcp:// or host:port".to_owned());
            }
            match (url.host, url.port) {
                (None, _) => Err("tcp probe target host is missing".to_owned()),
                (Some(_), None) => Err("tcp probe target port is missing".to_owned()),
                (Some(host), Some(port)) => {
                    let number = decimal_text(port as u64);
                    Ok(host.concat(":").concat(number.as_str()))
                },
            }
        },
    }
}

/// Address to connect to: `host:port` or `tcp://host:port`.
pub fn tcp_target_address(target: &str) -> (address: Result<String, String>)
    ensures
        reads(address, connection_address(trimmed(target@), parsed_url(trimmed(target@)))),
{
    let target = trim(target);
    let url = parse_url(target.as_str());
    tcp_address(target, url)
}

/// Text that is read as an address on the web: without a scheme it gets the usual one.
pub open spec fn web_target(target: Seq<char>) -> Seq<char> {
    if names_scheme(trimmed(target)) {
        trimmed(target)
    } else {
        "http://"@ + trimmed(target)
    }
}

/// Address to ask for, given what the target is as an address on the web.
pub open spec fn request_address(
    url: Result<(Seq<char>, Option<Seq<char>>, Option<u16>, Seq<char>), Seq<char>>,
) -> Result<Seq<char>, Seq<char>> {
    match url {
        Err(error) => Err(error),
        Ok((scheme, _, _, text)) => if scheme == "http"@ || scheme == "https"@ {
            Ok(text)
        } else {
            Err("http probe target must use http or https"@)
        },
    }
}

/// Address to ask for, given what the target is as an address on the web.
pub fn http_address(url: Result<WebAddress, String>) -> (address: Result<String, String>)
    ensures
        reads(address, request_address(address_view(url))),
{
    match url {
        Err(error) => Err(error),
        Ok(url) => {
            let http = "http".to_owned();
            let https = "https".to_owned();
            if url.scheme == http || url.scheme == https {
                Ok(url.text)
            } else {
                Err("http probe target must use http or https".to_owned())
            }
        },
    }
}

/// Address to ask for. A target without a scheme gets `http://`.
pub fn http_target_url(target: &str) -> (address: Result<String, String>)
    ensures
        reads(address, request_address(parsed_url(web_target(target@)))),
{
    let target = trim(target);
    let full = if has_scheme(target.as_str()) {
        target
    } else {
        join("http://", target.as_str())
    };
    http_address(parse_url(full.as_str()))
}

/// What a probe does on the network.
#[derive(Debug)]
pub enum ProbePlan {
    /// Connects to an address.
    Connect(String),
    /// Asks for a web address.
    Request(String),
    /// Nothing: it fails.
    Fail(String),
}

/// What a probe does on the network.
pub fn probe_plan(request: &RemoteProbeExecutionRequest) -> (plan: ProbePlan)
    ensures
        match request.probe_type {
            RemoteProbeType::Tcp => ({
                let address = connection_address(
                    trimmed(request.target@),
                    parsed_url(trimmed(request.target@)),
                );
                match plan {
                    ProbePlan::Connect(text) => address == Ok::<Seq<char>, Seq<char>>(text@),
                    ProbePlan::Fail(text) => address == Err::<Seq<char>, Seq<char>>(text@),
                    _ => false,
                }
            }),
            RemoteProbeType::Http => ({
                let address = request_address(parsed_url(web_target(request.target@)));
                match plan {
                    ProbePlan::Request(text) => address == Ok::<Seq<char>, Seq<char>>(text@),
                    ProbePlan::Fail(text) => address == Err::<Seq<char>, Seq<char>>(text@),
                    _ => false,
                }
            }),
            RemoteProbeType::Icmp => plan matches ProbePlan::Fail(text) && text@
                == "icmp probe is not implemented"@,
        },
{
    match request.probe_type {
        RemoteProbeType::Tcp => match tcp_target_address(request.target.as_str()) {
            Ok(address) => ProbePlan::Connect(address),
            Err(error) => ProbePlan::Fail(error),
        },
        RemoteProbeType::Http => match http_target_url(request.target.as_str()) {
            Ok(address) => ProbePlan::Request(address),
            Err(error) => ProbePlan::Fail(error),
        },
        RemoteProbeType::Icmp => ProbePlan::Fail("icmp probe is not implemented".to_owned()),
    }
}

/// The place of the longest unprobed target lies among the targets.
pub proof fn lemma_oldest_place_range(targets: Seq<TargetStartView>)
    requires
        targets.len() > 0,
    ensures
        0 <= oldest_place(targets) < targets.len(),
        forall|i: int|
            0 <= i < targets.len() ==> targets[oldest_place(targets)].1.nanos <= (
            #[trigger] targets[i]).1.nanos,
    decreases targets.len(),
{
    if targets.len() > 1 {
        let front = targets.drop_last();
        lemma_oldest_place_range(front);
        assert forall|i: int| 0 <= i < targets.len() implies targets[oldest_place(
            targets,
        )].1.nanos <= (#[trigger] targets[i]).1.nanos by {
            if i < front.len() {
                assert(front[i] == targets[i]);
            }
        }
    }
}

/// The memory of targets never grows beyond its limit and never holds a target twice, and a new
/// target is always remembered.
pub proof fn law_rate_memory_is_bounded(
    targets: Seq<TargetStartView>,
    key: Seq<char>,
    started_at: Moment,
)
    requires
        targets.len() <= RATE_STATE_MAX_TARGETS,
        distinct_targets(targets),
    ensures
        with_target(targets, key, started_at).len() <= RATE_STATE_MAX_TARGETS,
        distinct_targets(with_target(targets, key, started_at)),
        with_target(targets, key, started_at).contains((key, started_at)),
{
    let next = with_target(targets, key, started_at);
    let place = target_place(targets, key);
    lemma_target_place_range(targets, key);
    if place < targets.len() {
        assert(next[place] == (key, started_at));
        assert forall|i: int, j: int| 0 <= i < j < next.len() implies (#[trigger] next[i]).0 != (
        #[trigger] next[j]).0 by {
            assert(targets[i].0 != targets[j].0);
        }
    } else {
        assert(next[next.len() - 1] == (key, started_at));
        if targets.len() >= RATE_STATE_MAX_TARGETS {
            lemma_oldest_place_range(targets);
            let oldest = oldest_place(targets);
            assert forall|i: int, j: int| 0 <= i < j < next.len() implies (#[trigger] next[i]).0
                != (#[trigger] next[j]).0 by {
                let from = if i < oldest {
                    i
                } else {
                    i + 1
                };
                assert(next[i] == targets[from]);
                if j < next.len() - 1 {
                    let to = if j < oldest {
                        j
                    } else {
                        j + 1
                    };
                    assert(next[j] == targets[to]);
                    assert(targets[from].0 != targets[to].0);
                }
            }
        } else {
            assert forall|i: int, j: int| 0 <= i < j < next.len() implies (#[trigger] next[i]).0
                != (#[trigger] next[j]).0 by {
                assert(next[i] == targets[i]);
                if j < next.len() - 1 {
                    assert(next[j] == targets[j]);
                }
            }
        }
    }
}

/// Where a target has to be forgotten, no other one was probed longer ago.
pub proof fn law_longest_unprobed_target_is_forgotten(targets: Seq<TargetStartView>, i: int)
    requires
        0 <= i < targets.len(),
    ensures
        0 <= oldest_place(targets) < targets.len(),
        targets[oldest_place(targets)].1.nanos <= targets[i].1.nanos,
{
    lemma_oldest_place_range(targets);
}

/// Two probes keep the configured distance: right after one has started, no probe may start
/// until the time has passed.
pub proof fn law_probes_keep_their_distance(
    state: RateView,
    first: RemoteProbeExecutionRequest,
    second: RemoteProbeExecutionRequest,
    config: RemoteProbeConfig,
    start: Moment,
    now: Moment,
)
    requires
        refusal(state, first, config, start) is None,
        elapsed(start, now) < config.global_min_interval.nanos,
    ensures
        refusal(after_request(state, first, config, start), second, config, now) == Some(
            "remote probe global rate limit reached"@,
        ),
{
}

proof fn lemma_pruned_without_key(
    targets: Seq<TargetStartView>,
    key: Seq<char>,
    now: Moment,
    min_interval: Span,
)
    requires
        forall|i: int| 0 <= i < targets.len() ==> (#[trigger] targets[i]).0 != key,
    ensures
        forall|i: int|
            0 <= i < pruned(targets, now, min_interval).len() ==> (#[trigger] pruned(
                targets,
                now,
                min_interval,
            )[i]).0 != key,
    decreases targets.len(),
{
    reveal(Seq::filter);
    if targets.len() > 0 {
        let front = targets.drop_last();
        assert forall|i: int| 0 <= i < front.len() implies (#[trigger] front[i]).0 != key by {
            assert(front[i] == targets[i]);
        }
        lemma_pruned_without_key(front, key, now, min_interval);
        assert(targets.last().0 != key);
        let kept = pruned(front, now, min_interval);
        let rest = pruned(targets, now, min_interval);
        assert(rest == kept || rest == kept.push(targets.last()));
        assert forall|i: int| 0 <= i < rest.len() implies (#[trigger] rest[i]).0 != key by {
            if i < kept.len() {
                assert(rest[i] == kept[i]);
            }
        }
    }
}

proof fn lemma_pruned_place(
    targets: Seq<TargetStartView>,
    key: Seq<char>,
    now: Moment,
    min_interval: Span,
)
    requires
        target_place(targets, key) < targets.len(),
        elapsed(targets[target_place(targets, key)].1, now) < min_interval.nanos,
    ensures
        ({
            let rest = pruned(targets, now, min_interval);
            let place = target_place(rest, key);
            place < rest.len() && rest[place] == targets[target_place(targets, key)]
        }),
    decreases targets.len(),
{
    reveal(Seq::filter);
    lemma_target_place_range(targets, key);
    let place = target_place(targets, key);
    let front = targets.drop_last();
    let kept = pruned(front, now, min_interval);
    let rest = pruned(targets, now, min_interval);
    if place < targets.len() - 1 {
        assert forall|i: int| 0 <= i < place implies front[i].0 != key by {
            assert(front[i] == targets[i]);
        }
        lemma_target_place(front, key, place);
        lemma_pruned_place(front, key, now, min_interval);
        lemma_target_place_range(kept, key);
        let found = target_place(kept, key);
        assert forall|i: int| 0 <= i < found implies rest[i].0 != key by {
            assert(rest[i] == kept[i]);
        }
        assert(rest[found] == kept[found]);
        lemma_target_place(rest, key, found);
    } else {
        assert forall|i: int| 0 <= i < front.len() implies (#[trigger] front[i]).0 != key by {
            assert(front[i] == targets[i]);
        }
        lemma_pruned_without_key(front, key, now, min_interval);
        assert(rest =~= kept.push(targets.last()));
        assert forall|i: int| 0 <= i < kept.len() implies rest[i].0 != key by {
            assert(rest[i] == kept[i]);
        }
        lemma_target_place(rest, key, kept.len() as int);
    }
}

proof fn lemma_with_target_place(
    targets: Seq<TargetStartView>,
    key: Seq<char>,
    started_at: Moment,
)
    ensures
        ({
            let next = with_target(targets, key, started_at);
            let place = target_place(next, key);
            place < next.len() && next[place] == (key, started_at)
        }),
{
    lemma_target_place_range(targets, key);
    let place = target_place(targets, key);
    let next = with_target(targets, key, started_at);
    if place < targets.len() {
        assert forall|i: int| 0 <= i < place implies next[i].0 != key by {
            assert(next[i] == targets[i]);
        }
        lemma_target_place(next, key, place);
    } else {
        if targets.len() >= RATE_STATE_MAX_TARGETS {
            lemma_oldest_place_range(targets);
            let oldest = oldest_place(targets);
            assert forall|i: int| 0 <= i < next.len() - 1 implies next[i].0 != key by {
                if i < oldest {
                    assert(next[i] == targets[i]);
                } else {
                    assert(next[i] == targets[i + 1]);
                }
            }
        } else {
            assert forall|i: int| 0 <= i < next.len() - 1 implies next[i].0 != key by {
                assert(next[i] == targets[i]);
            }
        }
        lemma_target_place(next, key, next.len() - 1);
    }
}

/// Two probes of one target keep the configured distance: right after one has started, no probe
/// of that target may start until the time has passed.
pub proof fn law_probes_of_one_target_keep_their_distance(
    state: RateView,
    first: RemoteProbeExecutionRequest,
    second: RemoteProbeExecutionRequest,
    config: RemoteProbeConfig,
    start: Moment,
    now: Moment,
)
    requires
        refusal(state, first, config, start) is None,
        target_key_of(first) == target_key_of(second),
        elapsed(start, now) < config.target_min_interval.nanos,
    ensures
        refusal(after_request(state, first, config, start), second, config, now) is Some,
{
    let key = target_key_of(first);
    let targets = pruned(state.targets, start, config.target_min_interval);
    lemma_with_target_place(targets, key, start);
    lemma_pruned_place(with_target(targets, key, start), key, now, config.target_min_interval);
}

} // verus!
