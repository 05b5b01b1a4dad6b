//! Conversion between a session and the messages of its connection.

use crate::scheduler::time::Span;
use crate::service::config::{optional_view, ExportConfig};
use crate::service::protocol::copied_text;
use crate::service::remote::shell::message::{
    decode_input_bytes, encode_stream_event, event_json, input_bytes, RemoteShellStreamCommand,
    RemoteShellStreamEvent,
};
use vstd::prelude::*;
use vstd::utf8::encode_utf8;

verus! {

/// What the server wants of a session.
#[derive(Debug, PartialEq, Eq)]
pub enum RemoteShellInput {
    /// Write to the terminal.
    Input(Vec<u8>),
    /// Change the size of the terminal.
    Resize {
        /// Columns.
        cols: u16,
        /// Rows.
        rows: u16,
    },
    /// Close the session.
    Close,
}

/// Message on the connection of a session.
#[derive(Debug, PartialEq, Eq)]
pub enum RemoteShellFrame {
    /// Payload of the agent's own wire format.
    SmaluxWire(Vec<u8>),
    /// Text.
    Text(String),
    /// Bytes without further format.
    RawBinary(Vec<u8>),
}

/// Content of a message of the server.
#[derive(Debug, PartialEq, Eq)]
pub enum RemoteShellContent {
    /// Text.
    Text(String),
    /// Bytes.
    Binary(Vec<u8>),
}

/// Message of the server on the connection of a session.
#[derive(Debug)]
pub struct RemoteShellMessage {
    /// The message as it came.
    pub content: RemoteShellContent,
    /// The command that the content is in the agent's own format, or why it is none.
    pub command: Result<RemoteShellStreamCommand, String>,
}

/// Connection of a session.
#[derive(Debug, Clone)]
pub struct WebSocketConfig {
    /// Address.
    pub url: String,
    /// Access token.
    pub token: Option<String>,
    /// Whether certificates that cannot be verified are accepted.
    pub unsafe_cert: bool,
    /// Time between two keep-alive messages.
    pub heartbeat: Span,
    /// Whether binary messages carry bytes without further format.
    pub raw_binary_frames: bool,
}

/// Whether a connection takes its settings from the main connection, but for the address.
pub open spec fn follows_export(
    config: WebSocketConfig,
    export: ExportConfig,
    url: Seq<char>,
) -> bool {
    &&& config.url@ == url
    &&& optional_view(config.token) == optional_view(export.token)
    &&& config.unsafe_cert == export.unsafe_cert
    &&& config.heartbeat == export.heartbeat
    &&& !config.raw_binary_frames
}

impl WebSocketConfig {
    /// Connection with the settings of the main connection and an address of its own.
    pub fn from_export_endpoint(export: &ExportConfig, url: String) -> (config: WebSocketConfig)
        ensures
            follows_export(config, *export, url@),
    {
        WebSocketConfig {
            url,
            token: copied_text(&export.token),
            unsafe_cert: export.unsafe_cert,
            heartbeat: export.heartbeat,
            raw_binary_frames: false,
        }
    }

    /// The same connection with binary messages of the given sort.
    pub fn with_raw_binary_frames(self, raw: bool) -> (config: WebSocketConfig)
        ensures
            config == (WebSocketConfig { raw_binary_frames: raw, ..self }),
    {
        WebSocketConfig { raw_binary_frames: raw, ..self }
    }
}

/// Conversion of messages. Every protocol has its own.
pub trait RemoteShellStreamCodec {
    /// Name of the conversion.
    fn name(&self) -> &'static str;

    /// Adapts the connection to the protocol.
    fn configure_websocket(&self, config: WebSocketConfig) -> (adapted: WebSocketConfig)
        default_ensures
            adapted == config,
    {
        config
    }

    /// What a message of the server wants of the session, where it wants something.
    fn decode_inbound(&self, message: RemoteShellMessage) -> Result<
        Option<RemoteShellInput>,
        String,
    >;

    /// Message for an event of the session, where the protocol has one.
    fn encode_event(&self, event: RemoteShellStreamEvent) -> Result<
        Option<RemoteShellFrame>,
        String,
    >;
}

/// Conversion of the agent's own protocol.
#[derive(Debug, Clone, Copy, PartialEq, Eq, Structural)]
pub struct SmaluxShellCodec;

impl RemoteShellStreamCodec for SmaluxShellCodec {
    fn name(&self) -> (name: &'static str)
        ensures
            name@ == "smalux_shell"@,
    {
        "smalux_shell"
    }

    fn decode_inbound(&self, message: RemoteShellMessage) -> (input: Result<
        Option<RemoteShellInput>,
        String,
    >)
        ensures
            match message.command {
                Ok(command) => wanted_by(command, input),
                Err(text) => input == Err::<Option<RemoteShellInput>, String>(text),
            },
    {
        match message.command {
            Ok(command) => command_to_shell_input(command),
            Err(text) => Err(text),
        }
    }

    fn encode_event(&self, event: RemoteShellStreamEvent) -> (frame: Result<
        Option<RemoteShellFrame>,
        String,
    >)
        ensures
            frame matches Ok(Some(RemoteShellFrame::SmaluxWire(payload))) && payload@
                == encode_utf8(event_json(event)),
    {
        match encode_stream_event(&event) {
            Ok(text) => Ok(Some(RemoteShellFrame::SmaluxWire(text.as_str().as_bytes_vec()))),
            Err(text) => Err(text),
        }
    }
}

/// Whether this is what a command wants of the session. A sign of life wants nothing.
pub open spec fn wanted_by(
    command: RemoteShellStreamCommand,
    input: Result<Option<RemoteShellInput>, String>,
) -> bool {
    match command {
        RemoteShellStreamCommand::Resize { cols, rows } => input == Ok::<
            Option<RemoteShellInput>,
            String,
        >(Some(RemoteShellInput::Resize { cols, rows })),
        RemoteShellStreamCommand::Close => input == Ok::<Option<RemoteShellInput>, String>(
            Some(RemoteShellInput::Close),
        ),
        RemoteShellStreamCommand::Heartbeat => input == Ok::<Option<RemoteShellInput>, String>(
            None,
        ),
        RemoteShellStreamCommand::Input { .. } => match input {
            Ok(Some(RemoteShellInput::Input(bytes))) => input_bytes(command) == Ok::<
                Seq<u8>,
                Seq<char>,
            >(bytes@),
            Err(text) => input_bytes(command) == Err::<Seq<u8>, Seq<char>>(text@),
            _ => false,
        },
    }
}

/// What a command wants of the session. A sign of life wants nothing.
pub fn command_to_shell_input(command: RemoteShellStreamCommand) -> (input: Result<
    Option<RemoteShellInput>,
    String,
>)
    ensures
        wanted_by(command, input),
{
    match command {
        RemoteShellStreamCommand::Resize { cols, rows } => Ok(
            Some(RemoteShellInput::Resize { cols, rows }),
        ),
        RemoteShellStreamCommand::Close => Ok(Some(RemoteShellInput::Close)),
        RemoteShellStreamCommand::Heartbeat => Ok(None),
        command => match decode_input_bytes(command) {
            Ok(bytes) => Ok(Some(RemoteShellInput::Input(bytes))),
            Err(text) => Err(text),
        },
    }
}

/// Whether a connection has the settings of the main connection, adapted to the protocol.
pub open spec fn adapted_by<C: RemoteShellStreamCodec>(
    codec: C,
    export: ExportConfig,
    url: Seq<char>,
    config: WebSocketConfig,
) -> bool {
    exists|base: WebSocketConfig|
        #![trigger follows_export(base, export, url)]
        follows_export(base, export, url) && call_ensures(
            C::configure_websocket,
            (&codec, base),
            config,
        )
}

/// Connection of a session: the settings of the main connection, adapted to the protocol.
pub fn shell_stream_config<C: RemoteShellStreamCodec>(
    export_config: &ExportConfig,
    stream_url: &str,
    codec: &C,
) -> (config: Result<WebSocketConfig, String>)
    ensures
        config matches Ok(config) && adapted_by(*codec, *export_config, stream_url@, config),
{
    let base = WebSocketConfig::from_export_endpoint(export_config, stream_url.to_owned());
    let config = codec.configure_websocket(base);
    assert(follows_export(base, *export_config, stream_url@));
    Ok(config)
}

/// Message on its way to the connection.
#[derive(Debug, PartialEq, Eq)]
pub enum OutgoingFrame {
    /// Text.
    Text(String),
    /// Bytes without further format.
    RawBinary(Vec<u8>),
    /// Payload of the agent's own wire format.
    Wire {
        /// Number of the payload.
        sequence: u64,
        /// The payload.
        body: Vec<u8>,
    },
}

/// Numbers for the payloads of one connection.
#[derive(Debug, PartialEq, Eq, Structural)]
pub struct FrameNumbers {
    /// Next number.
    pub next_sequence: u64,
}

impl FrameNumbers {
    /// A message as it goes to the connection.
    pub open spec fn prepared(self, frame: RemoteShellFrame) -> OutgoingFrame {
        match frame {
            RemoteShellFrame::Text(text) => OutgoingFrame::Text(text),
            RemoteShellFrame::RawBinary(bytes) => OutgoingFrame::RawBinary(bytes),
            RemoteShellFrame::SmaluxWire(body) => OutgoingFrame::Wire {
                sequence: self.next_sequence,
                body,
            },
        }
    }

    /// The numbers after a message.
    pub open spec fn after(self, frame: RemoteShellFrame) -> FrameNumbers {
        if !(frame is SmaluxWire) {
            self
        } else if self.next_sequence == u64::MAX {
            FrameNumbers { next_sequence: 0 }
        } else {
            FrameNumbers { next_sequence: (self.next_sequence + 1) as u64 }
        }
    }

    /// Numbers from one on.
    pub fn new() -> (numbers: FrameNumbers)
        ensures
            numbers.next_sequence == 1,
    {
        FrameNumbers { next_sequence: 1 }
    }

    /// Prepares a message for the connection. Payloads of the agent's own wire format are
    /// numbered one after the other; other messages have no number.
    pub fn prepare(&mut self, frame: RemoteShellFrame) -> (outgoing: OutgoingFrame)
        ensures
            outgoing == old(self).prepared(frame),
            *final(self) == old(self).after(frame),
    {
        match frame {
            RemoteShellFrame::Text(text) => OutgoingFrame::Text(text),
            RemoteShellFrame::RawBinary(bytes) => OutgoingFrame::RawBinary(bytes),
            RemoteShellFrame::SmaluxWire(body) => {
                let sequence: u64 = self.next_sequence;
                self.next_sequence = sequence.wrapping_add(1);
                OutgoingFrame::Wire { sequence, body }
            },
        }
    }
}

} // verus!
