//! Tasks that the agent can run for the server.

use crate::service::options::AGENT_VERSION;
use vstd::prelude::*;

verus! {

/// Task that the agent can run.
#[derive(Debug, Clone, Copy, PartialEq, Eq, Structural)]
pub enum Task {
    /// Sample the processor.
    Cpu,
    /// Sample the disks.
    Disk,
    /// Sample the memory.
    Memory,
    /// Sample the network.
    Network,
    /// Sample the processes.
    Processes,
    /// Look up the public address.
    PublicIp,
    /// Sample the sockets.
    Sockets,
    /// Probe a web address.
    HttpProbe,
    /// Probe a host by echo requests.
    EchoProbe,
    /// Probe a port by opening a connection.
    TcpProbe,
    /// Probe a port by a datagram.
    UdpProbe,
    /// Run a program.
    Command,
}

/// Description of a task.
#[derive(Debug, Clone, Copy, PartialEq, Eq, Structural)]
pub struct TaskDefinition {
    /// The task, where the agent knows it.
    pub task: Option<Task>,
}

/// Where a task comes from.
#[derive(Debug, Clone, Copy, PartialEq, Eq, Structural)]
pub enum TaskSource {
    /// The agent itself.
    Builtin,
}

/// Sort of task that the agent can run.
#[derive(Debug, Clone, Copy)]
pub struct TaskCapability {
    /// Stable name.
    pub kind: &'static str,
    /// Where the task comes from.
    pub source: TaskSource,
}

/// Network protocol of a probe.
#[derive(Debug, Clone, Copy, PartialEq, Eq, Structural)]
pub enum ProbeProtocol {
    /// Echo requests.
    IcmpEcho,
    /// Connections.
    TcpConnect,
    /// Web requests.
    Http,
    /// Datagrams.
    UdpRequest,
}

/// What the agent tells the server about itself.
#[derive(Debug)]
pub struct AgentCapabilitySnapshot {
    /// Revision of this description.
    pub revision: u64,
    /// Version of the agent.
    pub agent_version: &'static str,
    /// Names of the tasks, in order.
    pub task_kinds: Vec<&'static str>,
    /// Network protocols of the probes.
    pub probe_protocols: Vec<ProbeProtocol>,
}

/// Stable name of a task.
pub open spec fn kind_of(task: Task) -> Seq<char> {
    match task {
        Task::Cpu => "smalux.collect.cpu.v1"@,
        Task::Disk => "smalux.collect.disk.v1"@,
        Task::Memory => "smalux.collect.memory.v1"@,
        Task::Network => "smalux.collect.network.v1"@,
        Task::Processes => "smalux.collect.processes.v1"@,
        Task::PublicIp => "smalux.collect.public_ip.v1"@,
        Task::Sockets => "smalux.collect.sockets.v1"@,
        Task::HttpProbe => "smalux.probe.http.v1"@,
        Task::EchoProbe => "smalux.probe.icmp.v1"@,
        Task::TcpProbe => "smalux.probe.tcp.v1"@,
        Task::UdpProbe => "smalux.probe.udp.v1"@,
        Task::Command => "smalux.task.command.v1"@,
    }
}

/// All tasks, in the order of their names.
pub open spec fn all_tasks() -> Seq<Task> {
    seq![
        Task::Cpu,
        Task::Disk,
        Task::Memory,
        Task::Network,
        Task::Processes,
        Task::PublicIp,
        Task::Sockets,
        Task::HttpProbe,
        Task::EchoProbe,
        Task::TcpProbe,
        Task::UdpProbe,
        Task::Command,
    ]
}

/// Stable name of a task.
pub fn builtin_kind(task: Task) -> (kind: &'static str)
    ensures
        kind@ == kind_of(task),
{
    match task {
        Task::Cpu => "smalux.collect.cpu.v1",
        Task::Disk => "smalux.collect.disk.v1",
        Task::Memory => "smalux.collect.memory.v1",
        Task::Network => "smalux.collect.network.v1",
        Task::Processes => "smalux.collect.processes.v1",
        Task::PublicIp => "smalux.collect.public_ip.v1",
        Task::Sockets => "smalux.collect.sockets.v1",
        Task::HttpProbe => "smalux.probe.http.v1",
        Task::EchoProbe => "smalux.probe.icmp.v1",
        Task::TcpProbe => "smalux.probe.tcp.v1",
        Task::UdpProbe => "smalux.probe.udp.v1",
        Task::Command => "smalux.task.command.v1",
    }
}

/// Stable name of a described task.
pub fn task_kind(definition: &TaskDefinition) -> (kind: Option<&'static str>)
    ensures
        match definition.task {
            Some(task) => kind matches Some(kind) && kind@ == kind_of(task),
            None => kind is None,
        },
{
    match definition.task {
        Some(task) => Some(builtin_kind(task)),
        None => None,
    }
}

/// Whether capabilities describe tasks, one for one.
pub open spec fn describe(capabilities: Seq<TaskCapability>, tasks: Seq<Task>) -> bool {
    &&& capabilities.len() == tasks.len()
    &&& forall|i: int|
        0 <= i < tasks.len() ==> (#[trigger] capabilities[i]).kind@ == kind_of(tasks[i])
            && capabilities[i].source == TaskSource::Builtin
}

/// All tasks that the agent can run, in the order of their names.
pub fn builtin_task_capabilities() -> (capabilities: Vec<TaskCapability>)
    ensures
        describe(capabilities@, all_tasks()),
{
    let tasks: Vec<Task> = vec![
        Task::Cpu,
        Task::Disk,
        Task::Memory,
        Task::Network,
        Task::Processes,
        Task::PublicIp,
        Task::Sockets,
        Task::HttpProbe,
        Task::EchoProbe,
        Task::TcpProbe,
        Task::UdpProbe,
        Task::Command,
    ];
    let mut capabilities: Vec<TaskCapability> = Vec::new();
    for i in 0..tasks.len()
        invariant
            tasks@ == all_tasks(),
            describe(capabilities@, tasks@.take(i as int)),
    {
        capabilities.push(
            TaskCapability { kind: builtin_kind(tasks[i]), source: TaskSource::Builtin },
        );
        assert(tasks@.take(i + 1) == tasks@.take(i as int).push(tasks@[i as int]));
    }
    assert(tasks@.take(tasks@.len() as int) == tasks@);
    capabilities
}

/// Capability with the given name, where there is one.
pub fn find_task_capability(kind: &str) -> (found: Option<TaskCapability>)
    ensures
        match found {
            Some(capability) => capability.kind@ == kind@ && capability.source
                == TaskSource::Builtin && exists|task: Task| #[trigger] kind_of(task) == kind@,
            None => forall|task: Task| #[trigger] kind_of(task) != kind@,
        },
{
    let capabilities = builtin_task_capabilities();
    let wanted = kind.to_owned();
    for i in 0..capabilities.len()
        invariant
            wanted@ == kind@,
            describe(capabilities@, all_tasks()),
            forall|j: int| 0 <= j < i ==> kind_of(#[trigger] all_tasks()[j]) != kind@,
    {
        if capabilities[i].kind.to_owned() == wanted {
            assert(kind_of(all_tasks()[i as int]) == kind@);
            return Some(capabilities[i]);
        }
    }
    proof {
        assert forall|task: Task| #[trigger] kind_of(task) != kind@ by {
            lemma_task_is_listed(task);
        }
    }
    None
}

proof fn lemma_task_is_listed(task: Task)
    ensures
        exists|i: int| 0 <= i < all_tasks().len() && #[trigger] all_tasks()[i] == task,
{
    let tasks = all_tasks();
    assert(tasks[0] == Task::Cpu && tasks[1] == Task::Disk && tasks[2] == Task::Memory);
    assert(tasks[3] == Task::Network && tasks[4] == Task::Processes && tasks[5]
        == Task::PublicIp);
    assert(tasks[6] == Task::Sockets && tasks[7] == Task::HttpProbe && tasks[8]
        == Task::EchoProbe);
    assert(tasks[9] == Task::TcpProbe && tasks[10] == Task::UdpProbe && tasks[11]
        == Task::Command);
}

/// What the agent tells the server about itself.
pub fn agent_capability_snapshot() -> (snapshot: AgentCapabilitySnapshot)
    ensures
        snapshot.revision == 1,
        snapshot.agent_version@ == AGENT_VERSION@,
        snapshot.task_kinds@.len() == all_tasks().len(),
        forall|i: int|
            0 <= i < all_tasks().len() ==> (#[trigger] snapshot.task_kinds@[i])@ == kind_of(
                all_tasks()[i],
            ),
        snapshot.probe_protocols@ == seq![
            ProbeProtocol::IcmpEcho,
            ProbeProtocol::TcpConnect,
            ProbeProtocol::Http,
            ProbeProtocol::UdpRequest,
        ],
{
    let capabilities = builtin_task_capabilities();
    let mut task_kinds: Vec<&'static str> = Vec::new();
    for i in 0..capabilities.len()
        invariant
            describe(capabilities@, all_tasks()),
            task_kinds@.len() == i,
            forall|j: int|
                0 <= j < i ==> (#[trigger] task_kinds@[j])@ == kind_of(all_tasks()[j]),
    {
        task_kinds.push(capabilities[i].kind);
    }
    let probe_protocols: Vec<ProbeProtocol> = vec![
        ProbeProtocol::IcmpEcho,
        ProbeProtocol::TcpConnect,
        ProbeProtocol::Http,
        ProbeProtocol::UdpRequest,
    ];
    AgentCapabilitySnapshot {
        revision: 1,
        agent_version: AGENT_VERSION,
        task_kinds,
        probe_protocols,
    }
}

/// Whether a text comes before another because of the character at a place.
pub open spec fn differs_at(a: Seq<char>, b: Seq<char>, place: int) -> bool {
    &&& 0 <= place < a.len() && place < b.len()
    &&& (a[place] as int) < (b[place] as int)
    &&& forall|i: int| 0 <= i < place ==> #[trigger] a[i] == b[i]
}

/// Whether a text comes before another that it is no beginning of.
pub open spec fn comes_before(a: Seq<char>, b: Seq<char>) -> bool {
    exists|place: int| differs_at(a, b, place)
}

proof fn lemma_order_is_transitive(a: Seq<char>, b: Seq<char>, c: Seq<char>)
    requires
        comes_before(a, b),
        comes_before(b, c),
    ensures
        comes_before(a, c),
{
    let first = choose|place: int| differs_at(a, b, place);
    let second = choose|place: int| differs_at(b, c, place);
    let place = if first < second {
        first
    } else {
        second
    };
    assert forall|i: int| 0 <= i < place implies #[trigger] a[i] == c[i] by {
        assert(a[i] == b[i] && b[i] == c[i]);
    }
    if first < second {
        assert(b[first] == c[first]);
    } else if second < first {
        assert(a[second] == b[second]);
    }
    assert(differs_at(a, c, place));
}

proof fn lemma_neighbours_are_in_order(i: int)
    requires
        0 <= i < all_tasks().len() - 1,
    ensures
        comes_before(kind_of(all_tasks()[i]), kind_of(all_tasks()[i + 1])),
{
    reveal_strlit("smalux.collect.cpu.v1");
    reveal_strlit("smalux.collect.disk.v1");
    reveal_strlit("smalux.collect.memory.v1");
    reveal_strlit("smalux.collect.network.v1");
    reveal_strlit("smalux.collect.processes.v1");
    reveal_strlit("smalux.collect.public_ip.v1");
    reveal_strlit("smalux.collect.sockets.v1");
    reveal_strlit("smalux.probe.http.v1");
    reveal_strlit("smalux.probe.icmp.v1");
    reveal_strlit("smalux.probe.tcp.v1");
    reveal_strlit("smalux.probe.udp.v1");
    reveal_strlit("smalux.task.command.v1");
    let a = kind_of(all_tasks()[i]);
    let b = kind_of(all_tasks()[i + 1]);
    if i == 4 {
        assert(differs_at(a, b, 16));
    } else if i == 6 {
        assert(differs_at(a, b, 7));
    } else if i < 6 {
        assert(differs_at(a, b, 15));
    } else if i < 10 {
        assert(differs_at(a, b, 13));
    } else {
        assert(differs_at(a, b, 7));
    }
}

/// The names of the tasks are listed in order.
pub proof fn law_kinds_are_in_order(i: int, j: int)
    requires
        0 <= i < j < all_tasks().len(),
    ensures
        comes_before(kind_of(all_tasks()[i]), kind_of(all_tasks()[j])),
    decreases j - i,
{
    lemma_neighbours_are_in_order(j - 1);
    if i < j - 1 {
        law_kinds_are_in_order(i, j - 1);
        lemma_order_is_transitive(
            kind_of(all_tasks()[i]),
            kind_of(all_tasks()[j - 1]),
            kind_of(all_tasks()[j]),
        );
    }
}

/// No two tasks have the same name.
pub proof fn law_kinds_are_distinct(a: Task, b: Task)
    requires
        a != b,
    ensures
        kind_of(a) != kind_of(b),
{
    lemma_task_is_listed(a);
    lemma_task_is_listed(b);
    let i = choose|i: int| 0 <= i < all_tasks().len() && #[trigger] all_tasks()[i] == a;
    let j = choose|j: int| 0 <= j < all_tasks().len() && #[trigger] all_tasks()[j] == b;
    if i < j {
        law_kinds_are_in_order(i, j);
    } else {
        law_kinds_are_in_order(j, i);
    }
}

/// A name is known exactly where a task has it, and what is found bears that name.
pub proof fn law_names_lead_to_their_task(kind: &str, found: Option<TaskCapability>, task: Task)
    requires
        call_ensures(find_task_capability, (kind,), found),
    ensures
        kind@ == kind_of(task) ==> found is Some,
        found matches Some(capability) ==> capability.kind@ == kind@,
        found is None ==> kind@ != kind_of(task),
{
}

/// The agent tells the server of every task that it can run, once, and of no other.
pub proof fn law_every_task_is_told(snapshot: AgentCapabilitySnapshot, task: Task)
    requires
        call_ensures(agent_capability_snapshot, (), snapshot),
    ensures
        exists|i: int|
            0 <= i < snapshot.task_kinds@.len() && (#[trigger] snapshot.task_kinds@[i])@
                == kind_of(task),
        forall|i: int, j: int|
            0 <= i < j < snapshot.task_kinds@.len() ==> (#[trigger] snapshot.task_kinds@[i])@ != (
            #[trigger] snapshot.task_kinds@[j])@,
        forall|i: int|
            0 <= i < snapshot.task_kinds@.len() ==> exists|known: Task|
                (#[trigger] snapshot.task_kinds@[i])@ == #[trigger] kind_of(known),
        forall|protocol: ProbeProtocol| #[trigger] snapshot.probe_protocols@.contains(protocol),
{
    lemma_task_is_listed(task);
    let place = choose|i: int| 0 <= i < all_tasks().len() && #[trigger] all_tasks()[i] == task;
    assert(snapshot.task_kinds@[place]@ == kind_of(task));
    assert forall|i: int, j: int| 0 <= i < j < snapshot.task_kinds@.len() implies (
    #[trigger] snapshot.task_kinds@[i])@ != (#[trigger] snapshot.task_kinds@[j])@ by {
        law_kinds_are_in_order(i, j);
    }
    assert forall|i: int| 0 <= i < snapshot.task_kinds@.len() implies exists|known: Task|
        (#[trigger] snapshot.task_kinds@[i])@ == #[trigger] kind_of(known) by {
        assert(snapshot.task_kinds@[i]@ == kind_of(all_tasks()[i]));
    }
    let protocols = snapshot.probe_protocols@;
    assert(protocols[0] == ProbeProtocol::IcmpEcho && protocols[1] == ProbeProtocol::TcpConnect);
    assert(protocols[2] == ProbeProtocol::Http && protocols[3] == ProbeProtocol::UdpRequest);
}

} // verus!
