//! Interactive sessions.

use smalux_agent::scheduler::time::Span;
use smalux_agent::service::config::{ExportConfig, RemoteShellConfig};
use smalux_agent::service::remote::shell::manager::RemoteShellManager;
use smalux_agent::service::remote::shell::message::{
    decode_input_bytes, encode_stream_event, open_request_initial_size, output_event,
    validate_open_request, RemoteShellDataEncoding, RemoteShellOpenRequest,
    RemoteShellStreamCommand, RemoteShellStreamEvent, DEFAULT_PTY_COLS, DEFAULT_PTY_ROWS,
};
use smalux_agent::service::remote::shell::options::RemoteShellOptions;
use smalux_agent::service::remote::shell::session::{
    after_shell_operation, closing_event, opening_event, shell_step, ShellEvent, ShellStep,
};
use smalux_agent::service::remote::shell::stream::{
    command_to_shell_input, shell_stream_config, FrameNumbers, OutgoingFrame, RemoteShellContent,
    RemoteShellFrame, RemoteShellInput, RemoteShellMessage, RemoteShellStreamCodec,
    SmaluxShellCodec, WebSocketConfig,
};

struct RawTestCodec;

impl RemoteShellStreamCodec for RawTestCodec {
    fn name(&self) -> &'static str {
        "raw_test"
    }

    fn configure_websocket(&self, config: WebSocketConfig) -> WebSocketConfig {
        config.with_raw_binary_frames(true)
    }

    fn decode_inbound(
        &self,
        message: RemoteShellMessage,
    ) -> Result<Option<RemoteShellInput>, String> {
        match message.content {
            RemoteShellContent::Text(text) => Ok(Some(RemoteShellInput::Input(text.into_bytes()))),
            RemoteShellContent::Binary(bytes) => Ok(Some(RemoteShellInput::Input(bytes))),
        }
    }

    fn encode_event(
        &self,
        event: RemoteShellStreamEvent,
    ) -> Result<Option<RemoteShellFrame>, String> {
        match event {
            RemoteShellStreamEvent::Output { data, encoding, .. } => {
                let bytes = decode_input_bytes(RemoteShellStreamCommand::Input {
                    data,
                    encoding: Some(encoding),
                })?;
                Ok(Some(RemoteShellFrame::RawBinary(bytes)))
            }
            RemoteShellStreamEvent::Error { message, .. } => {
                Ok(Some(RemoteShellFrame::Text(message)))
            }
            RemoteShellStreamEvent::Opened { .. } | RemoteShellStreamEvent::Exit { .. } => Ok(None),
        }
    }
}

fn open_request() -> RemoteShellOpenRequest {
    RemoteShellOpenRequest {
        session_id: "shell-1".to_string(),
        stream_url: "ws://127.0.0.1:1/shell".to_string(),
        cols: None,
        rows: None,
    }
}

#[test]
fn manager_rejects_open_when_disabled() {
    let mut manager = RemoteShellManager::new(RemoteShellOptions::default());
    let error = manager
        .open(
            open_request(),
            &ExportConfig::default(),
            &RemoteShellConfig::default(),
            &SmaluxShellCodec,
        )
        .unwrap_err();

    assert!(error.contains("disabled"));
}

#[test]
fn manager_rejects_open_when_session_limit_is_reached() {
    let mut manager = RemoteShellManager::new(RemoteShellOptions { enabled: true });
    let permit = manager.acquire_session_permit(1).unwrap();

    let error = manager
        .open(
            open_request(),
            &ExportConfig::default(),
            &RemoteShellConfig::default(),
            &SmaluxShellCodec,
        )
        .unwrap_err();

    assert!(error.contains("limit"));
    manager.release(permit);
    assert_eq!(manager.active_sessions, 0);
}

#[test]
fn manager_opens_a_session() {
    let mut manager = RemoteShellManager::new(RemoteShellOptions { enabled: true });
    let session = manager
        .open(
            open_request(),
            &ExportConfig::default(),
            &RemoteShellConfig { max_sessions: 2, ..RemoteShellConfig::default() },
            &RawTestCodec,
        )
        .unwrap();
    assert_eq!(session.request.session_id, "shell-1");
    assert_eq!(session.shell_config.max_sessions, 2);
    assert_eq!(session.stream_config.url, "ws://127.0.0.1:1/shell");
    assert!(session.stream_config.raw_binary_frames);
    assert_eq!(manager.active_sessions, 1);
}

#[test]
fn shell_stream_config_reuses_export_options() {
    let export = ExportConfig {
        base_url: "http://127.0.0.1".to_string(),
        unsafe_cert: true,
        heartbeat: Span::from_secs(9),
        ..ExportConfig::default()
    };

    let codec = SmaluxShellCodec;
    let config = shell_stream_config(&export, "ws://127.0.0.1/shell", &codec).unwrap();

    assert_eq!(config.url, "ws://127.0.0.1/shell");
    assert!(config.unsafe_cert);
    assert_eq!(config.heartbeat, Span::from_secs(9));
    assert!(!config.raw_binary_frames);
}

#[test]
fn shell_stream_config_enables_raw_binary_for_raw_codec() {
    let export = ExportConfig::default();
    let codec = RawTestCodec;
    let config = shell_stream_config(&export, "ws://127.0.0.1/shell", &codec).unwrap();

    assert!(config.raw_binary_frames);
}

#[test]
fn message_decode_input_bytes_accepts_base64() {
    let command = RemoteShellStreamCommand::Input {
        data: "AAEC".to_string(),
        encoding: Some(RemoteShellDataEncoding::Base64),
    };

    assert_eq!(decode_input_bytes(command).unwrap(), vec![0, 1, 2]);
}

#[test]
fn input_bytes_are_read_as_text_or_refused() {
    let text = RemoteShellStreamCommand::Input { data: "\u{e9}\n".to_string(), encoding: None };
    assert_eq!(decode_input_bytes(text).unwrap(), vec![0xc3, 0xa9, 0x0a]);
    let broken = RemoteShellStreamCommand::Input {
        data: "A".to_string(),
        encoding: Some(RemoteShellDataEncoding::Base64),
    };
    assert!(decode_input_bytes(broken).is_err());
    assert_eq!(
        decode_input_bytes(RemoteShellStreamCommand::Close).unwrap_err(),
        "remote shell command does not carry input bytes"
    );
}

#[test]
fn output_can_be_read_back() {
    let bytes: Vec<u8> = (0..=255).collect();
    let RemoteShellStreamEvent::Output { data, encoding, .. } =
        output_event("s".to_string(), &bytes)
    else {
        panic!("expected output");
    };
    let command = RemoteShellStreamCommand::Input { data, encoding: Some(encoding) };
    assert_eq!(decode_input_bytes(command).unwrap(), bytes);
}

#[test]
fn message_open_request_rejects_blank_fields() {
    let request = RemoteShellOpenRequest {
        session_id: " ".to_string(),
        stream_url: "ws://127.0.0.1/shell".to_string(),
        cols: None,
        rows: None,
    };
    let error = validate_open_request(&request).unwrap_err();

    assert!(error.contains("session_id"));
    let request = RemoteShellOpenRequest { stream_url: "\t".to_string(), ..open_request() };
    assert!(request.validate().unwrap_err().contains("stream_url"));
}

#[test]
fn message_open_request_uses_default_pty_size() {
    let request = RemoteShellOpenRequest {
        session_id: "shell-1".to_string(),
        stream_url: "ws://127.0.0.1/shell".to_string(),
        cols: None,
        rows: None,
    };

    assert_eq!(open_request_initial_size(&request), (DEFAULT_PTY_COLS, DEFAULT_PTY_ROWS));
    assert_eq!(request.initial_size(), (80, 24));
    let request = RemoteShellOpenRequest { cols: Some(100), rows: Some(30), ..open_request() };
    assert_eq!(request.initial_size(), (100, 30));
}

#[test]
fn message_open_request_rejects_zero_pty_size() {
    let cols_request = RemoteShellOpenRequest {
        session_id: "shell-1".to_string(),
        stream_url: "ws://127.0.0.1/shell".to_string(),
        cols: Some(0),
        rows: Some(24),
    };
    let cols_error = validate_open_request(&cols_request).unwrap_err();
    let rows_request = RemoteShellOpenRequest {
        session_id: "shell-1".to_string(),
        stream_url: "ws://127.0.0.1/shell".to_string(),
        cols: Some(80),
        rows: Some(0),
    };
    let rows_error = validate_open_request(&rows_request).unwrap_err();

    assert!(cols_error.contains("cols"));
    assert!(rows_error.contains("rows"));
}

#[test]
fn message_stream_event_encodes_snake_case_type() {
    let event = output_event("s1".to_string(), b"ok");
    let json = encode_stream_event(&event).unwrap();

    assert!(json.contains(r#""type":"output""#));
    assert!(json.contains(r#""encoding":"base64""#));
    assert!(json.contains(r#""session_id":"s1""#));
}

#[test]
fn stream_events_are_json() {
    let exit = RemoteShellStreamEvent::Exit { session_id: "a".to_string(), code: Some(-7) };
    assert_eq!(
        encode_stream_event(&exit).unwrap(),
        r#"{"type":"exit","session_id":"a","code":-7}"#
    );
    let exit = RemoteShellStreamEvent::Exit { session_id: "a".to_string(), code: None };
    assert_eq!(
        encode_stream_event(&exit).unwrap(),
        r#"{"type":"exit","session_id":"a","code":null}"#
    );
    let message = "quote \" slash \\ tab\t line\n bell\u{7} \u{8}\u{c}\r \u{e9}\u{7f}";
    let error = RemoteShellStreamEvent::Error {
        session_id: "a".to_string(),
        message: message.to_string(),
    };
    let json = encode_stream_event(&error).unwrap();
    assert_eq!(
        json,
        "{\"type\":\"error\",\"session_id\":\"a\",\"message\":\"quote \\\" slash \\\\ tab\\t \
         line\\n bell\\u0007 \\b\\f\\r \u{e9}\u{7f}\"}"
    );
    let value: serde_json::Value = serde_json::from_str(&json).unwrap();
    assert_eq!(value["message"], message);
}

#[test]
fn smalux_codec_encodes_event_as_wire_payload() {
    let codec = SmaluxShellCodec;
    assert_eq!(codec.name(), "smalux_shell");
    let frame = codec
        .encode_event(RemoteShellStreamEvent::Opened { session_id: "shell-1".to_string() })
        .unwrap()
        .unwrap();

    let RemoteShellFrame::SmaluxWire(payload) = frame else {
        panic!("expected smalux wire frame");
    };
    let text = String::from_utf8(payload).unwrap();

    assert!(text.contains(r#""type":"opened""#));
}

#[test]
fn command_to_shell_input_ignores_heartbeat() {
    let input = command_to_shell_input(RemoteShellStreamCommand::Heartbeat).unwrap();

    assert!(input.is_none());
}

#[test]
fn commands_become_input() {
    let input = |command| command_to_shell_input(command).unwrap().unwrap();
    assert_eq!(input(RemoteShellStreamCommand::Close), RemoteShellInput::Close);
    assert_eq!(
        input(RemoteShellStreamCommand::Resize { cols: 3, rows: 4 }),
        RemoteShellInput::Resize { cols: 3, rows: 4 }
    );
    assert_eq!(
        input(RemoteShellStreamCommand::Input { data: "ls".to_string(), encoding: None }),
        RemoteShellInput::Input(b"ls".to_vec())
    );
}

#[test]
fn payloads_are_numbered() {
    let mut numbers = FrameNumbers::new();
    let wire = |body: &[u8]| RemoteShellFrame::SmaluxWire(body.to_vec());
    assert_eq!(
        numbers.prepare(wire(b"a")),
        OutgoingFrame::Wire { sequence: 1, body: b"a".to_vec() }
    );
    assert_eq!(
        numbers.prepare(RemoteShellFrame::Text("t".to_string())),
        OutgoingFrame::Text("t".to_string())
    );
    assert_eq!(
        numbers.prepare(RemoteShellFrame::RawBinary(vec![1])),
        OutgoingFrame::RawBinary(vec![1])
    );
    assert_eq!(
        numbers.prepare(wire(b"b")),
        OutgoingFrame::Wire { sequence: 2, body: b"b".to_vec() }
    );
}

#[test]
fn sessions_follow_their_events() {
    let id = "s".to_string();
    assert!(matches!(
        shell_step(&id, ShellEvent::Input(Some(RemoteShellInput::Input(vec![1])))),
        ShellStep::Write(data) if data == vec![1]
    ));
    assert!(matches!(
        shell_step(&id, ShellEvent::Input(Some(RemoteShellInput::Resize { cols: 1, rows: 2 }))),
        ShellStep::Resize { cols: 1, rows: 2 }
    ));
    for event in [
        ShellEvent::Input(Some(RemoteShellInput::Close)),
        ShellEvent::Input(None),
        ShellEvent::IdleTimeout,
        ShellEvent::SessionTimeout,
    ] {
        assert!(matches!(
            shell_step(&id, event),
            ShellStep::Finish { stop_program: true, result: Ok(None) }
        ));
    }
    assert!(matches!(shell_step(&id, ShellEvent::Output(None)), ShellStep::Wait));
    assert!(matches!(
        shell_step(&id, ShellEvent::Output(Some(b"ok".to_vec()))),
        ShellStep::Send(RemoteShellStreamEvent::Output { data, .. }) if data == "b2s="
    ));
    assert!(matches!(
        shell_step(&id, ShellEvent::Exited(Ok(Some(3)))),
        ShellStep::Finish { stop_program: false, result: Ok(Some(3)) }
    ));
    assert!(matches!(
        shell_step(&id, ShellEvent::WaiterGone),
        ShellStep::Finish { stop_program: false, result: Err(text) }
            if text == "remote shell child waiter stopped"
    ));
    assert!(matches!(after_shell_operation(Ok(())), ShellStep::RestartIdle));
    assert!(matches!(
        after_shell_operation(Err("broken".to_string())),
        ShellStep::Finish { stop_program: false, result: Err(text) } if text == "broken"
    ));
    assert_eq!(
        closing_event(id.clone(), Ok(Some(0))),
        RemoteShellStreamEvent::Exit { session_id: "s".to_string(), code: Some(0) }
    );
    assert_eq!(
        closing_event(id.clone(), Err("broken".to_string())),
        RemoteShellStreamEvent::Error {
            session_id: "s".to_string(),
            message: "broken".to_string()
        }
    );
    assert_eq!(
        opening_event(id),
        RemoteShellStreamEvent::Opened { session_id: "s".to_string() }
    );
}

#[test]
fn remote_shell_is_disabled_by_default() {
    let options = RemoteShellOptions::default();

    assert!(!options.enabled);
    options.validate().unwrap();
}

#[test]
fn codecs_read_the_messages_of_the_server() {
    let message = |command| RemoteShellMessage {
        content: RemoteShellContent::Text("ls".to_string()),
        command,
    };
    let resize = RemoteShellStreamCommand::Resize { cols: 3, rows: 4 };
    assert_eq!(
        SmaluxShellCodec.decode_inbound(message(Ok(resize))),
        Ok(Some(RemoteShellInput::Resize { cols: 3, rows: 4 }))
    );
    assert_eq!(
        SmaluxShellCodec.decode_inbound(message(Ok(RemoteShellStreamCommand::Heartbeat))),
        Ok(None)
    );
    assert_eq!(
        SmaluxShellCodec.decode_inbound(message(Err("expected value".to_string()))),
        Err("expected value".to_string())
    );
    assert_eq!(
        RawTestCodec.decode_inbound(message(Err("expected value".to_string()))),
        Ok(Some(RemoteShellInput::Input(b"ls".to_vec())))
    );
}

#[test]
fn places_of_ended_sessions_are_free_again() {
    let mut manager = RemoteShellManager::new(RemoteShellOptions { enabled: true });
    let first = manager.acquire_session_permit(2).unwrap();
    let second = manager.acquire_session_permit(2).unwrap();
    assert!(manager.acquire_session_permit(2).unwrap_err().contains("limit"));
    assert_eq!(manager.active_sessions, 2);
    manager.release(first);
    assert!(manager.acquire_session_permit(2).is_ok());
    manager.release(second);
    assert_eq!(manager.active_sessions, 1);
}
