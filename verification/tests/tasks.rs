//! Tasks that the agent can run, and the texts it builds.

use smalux_agent::tasks::{
    agent_capability_snapshot, builtin_task_capabilities, find_task_capability, task_kind,
    ProbeProtocol, Task, TaskDefinition, TaskSource,
};
use smalux_agent::text::{
    ascii_lowercase, decimal_text, has_scheme, integer_text, is_blank, is_endpoint, is_white_space,
    join, trim,
};

#[test]
fn capability_registry_resolves_proto_task_to_listed_stable_kind() {
    let definition = TaskDefinition { task: Some(Task::Cpu) };
    let kind = task_kind(&definition).expect("CPU task kind");

    assert_eq!(kind, "smalux.collect.cpu.v1");
    assert!(builtin_task_capabilities().iter().any(|capability| capability.kind == kind));
    assert!(task_kind(&TaskDefinition { task: None }).is_none());
}

#[test]
fn capability_registry_contains_unique_stable_kinds_for_every_builtin_branch() {
    let capabilities = builtin_task_capabilities();
    assert_eq!(capabilities.len(), 12);
    let unique = capabilities
        .iter()
        .map(|capability| capability.kind)
        .collect::<std::collections::HashSet<_>>();
    assert_eq!(unique.len(), capabilities.len());
    assert!(capabilities.iter().all(|capability| {
        capability.kind.starts_with("smalux.") && capability.kind.ends_with(".v1")
    }));
}

#[test]
fn protocol_capability_snapshot_is_stable_sorted_and_complete() {
    let snapshot = agent_capability_snapshot();
    assert_eq!(snapshot.revision, 1);
    assert_eq!(snapshot.agent_version, "0.1.0");
    assert_eq!(snapshot.task_kinds.len(), builtin_task_capabilities().len());
    assert!(snapshot.task_kinds.windows(2).all(|pair| pair[0] < pair[1]));
    assert_eq!(
        snapshot.probe_protocols,
        vec![
            ProbeProtocol::IcmpEcho,
            ProbeProtocol::TcpConnect,
            ProbeProtocol::Http,
            ProbeProtocol::UdpRequest,
        ]
    );
}

#[test]
fn capabilities_are_found_by_name() {
    let found = find_task_capability("smalux.probe.tcp.v1").unwrap();
    assert_eq!(found.kind, "smalux.probe.tcp.v1");
    assert_eq!(found.source, TaskSource::Builtin);
    assert!(find_task_capability("smalux.probe.tcp.v2").is_none());
}

#[test]
fn numbers_and_texts_are_written() {
    assert_eq!(decimal_text(0), "0");
    assert_eq!(decimal_text(u64::MAX), "18446744073709551615");
    assert_eq!(integer_text(-7), "-7");
    assert_eq!(integer_text(i32::MIN), "-2147483648");
    assert_eq!(join("a", "b"), "ab");
    assert!(is_blank(" \t\n\u{3000}"));
    assert!(!is_blank(" x "));
    assert!(has_scheme("tcp://h"));
    assert!(!has_scheme("h:80"));
    assert!(is_endpoint("h:80"));
    assert!(is_endpoint("my-host.example.com:65535"));
    assert!(is_endpoint("10.0.0.1:0"));
    assert!(!is_endpoint("h:65536"));
    assert!(!is_endpoint("h:99999999999999999999999999"));
    assert!(!is_endpoint("h:"));
    assert!(!is_endpoint(":80"));
    assert!(!is_endpoint("h"));
    assert!(!is_endpoint("h:8a"));
    assert!(!is_endpoint("h:-1"));
    assert!(!is_endpoint("a:b:80"));
    assert!(!is_endpoint("a/b:80"));
    assert!(!is_endpoint(""));
}

#[test]
fn texts_are_trimmed_and_made_small() {
    assert_eq!(trim("  a b\t\n"), "a b");
    assert_eq!(trim("\u{3000}x\u{a0}"), "x");
    assert_eq!(trim(" \u{2003} "), "");
    assert_eq!(trim(""), "");
    for code in 0..0x11_0000u32 {
        if let Some(c) = char::from_u32(code) {
            assert_eq!(is_white_space(c), c.is_whitespace());
        }
    }
    assert_eq!(ascii_lowercase("AbZ-\u{c4}1[@"), "abz-\u{c4}1[@");
    assert_eq!(
        ascii_lowercase("ABCDEFGHIJKLMNOPQRSTUVWXYZ"),
        "abcdefghijklmnopqrstuvwxyz"
    );
}
