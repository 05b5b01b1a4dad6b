//! Messages of interactive sessions.

use crate::service::remote::probe::checks;
use crate::text::{blank, hexadecimal, integer, integer_text, is_blank};
use vstd::prelude::*;
use vstd::utf8::encode_utf8;

verus! {

/// Columns of a terminal whose size is not given.
pub const DEFAULT_PTY_COLS: u16 = 80;

/// Rows of a terminal whose size is not given.
pub const DEFAULT_PTY_ROWS: u16 = 24;

/// Request to open a session.
#[derive(Debug, PartialEq, Eq)]
pub struct RemoteShellOpenRequest {
    /// Identity of the session.
    pub session_id: String,
    /// Address of the session's own connection.
    pub stream_url: String,
    /// Columns of the terminal.
    pub cols: Option<u16>,
    /// Rows of the terminal.
    pub rows: Option<u16>,
}

/// What is wrong with a request, where something is.
pub open spec fn open_error(request: RemoteShellOpenRequest) -> Option<Seq<char>> {
    if blank(request.session_id@) {
        Some("remote_shell.session_id cannot be empty"@)
    } else if blank(request.stream_url@) {
        Some("remote_shell.stream_url cannot be empty"@)
    } else if request.cols == Some(0u16) {
        Some("remote_shell.cols must be greater than 0"@)
    } else if request.rows == Some(0u16) {
        Some("remote_shell.rows must be greater than 0"@)
    } else {
        None
    }
}

/// Checks a request to open a session.
pub fn validate_open_request(request: &RemoteShellOpenRequest) -> (checked: Result<(), String>)
    ensures
        checks(checked, open_error(*request)),
{
    if is_blank(request.session_id.as_str()) {
        return Err("remote_shell.session_id cannot be empty".to_owned());
    }
    if is_blank(request.stream_url.as_str()) {
        return Err("remote_shell.stream_url cannot be empty".to_owned());
    }
    if let Some(cols) = request.cols {
        if cols == 0 {
            return Err("remote_shell.cols must be greater than 0".to_owned());
        }
    }
    if let Some(rows) = request.rows {
        if rows == 0 {
            return Err("remote_shell.rows must be greater than 0".to_owned());
        }
    }
    Ok(())
}

/// Columns and rows of the terminal at the start of a session.
pub open spec fn size_at_start(request: RemoteShellOpenRequest) -> (u16, u16) {
    (
        match request.cols {
            Some(cols) => cols,
            None => DEFAULT_PTY_COLS,
        },
        match request.rows {
            Some(rows) => rows,
            None => DEFAULT_PTY_ROWS,
        },
    )
}

/// Columns and rows of the terminal at the start of a session.
pub fn open_request_initial_size(request: &RemoteShellOpenRequest) -> (size: (u16, u16))
    ensures
        size == size_at_start(*request),
{
    let cols: u16 = match request.cols {
        Some(cols) => cols,
        None => DEFAULT_PTY_COLS,
    };
    let rows: u16 = match request.rows {
        Some(rows) => rows,
        None => DEFAULT_PTY_ROWS,
    };
    (cols, rows)
}

impl RemoteShellOpenRequest {
    /// Checks the request.
    pub fn validate(&self) -> (checked: Result<(), String>)
        ensures
            checks(checked, open_error(*self)),
    {
        validate_open_request(self)
    }

    /// Columns and rows of the terminal at the start of the session.
    pub fn initial_size(&self) -> (size: (u16, u16))
        ensures
            size == size_at_start(*self),
    {
        open_request_initial_size(self)
    }
}

/// How bytes travel in a message.
#[derive(Debug, Clone, Copy, PartialEq, Eq, Structural)]
pub enum RemoteShellDataEncoding {
    /// As text.
    Utf8,
    /// As base64.
    Base64,
}

/// Message from the server to a session.
#[derive(Debug, PartialEq, Eq)]
pub enum RemoteShellStreamCommand {
    /// Input for the terminal.
    Input {
        /// The input.
        data: String,
        /// How its bytes travel; as text where absent.
        encoding: Option<RemoteShellDataEncoding>,
    },
    /// New size of the terminal.
    Resize {
        /// Columns.
        cols: u16,
        /// Rows.
        rows: u16,
    },
    /// Request to close the session.
    Close,
    /// Sign of life.
    Heartbeat,
}

/// Message from a session to the server.
#[derive(Debug, PartialEq, Eq)]
pub enum RemoteShellStreamEvent {
    /// The session is open.
    Opened {
        /// Identity of the session.
        session_id: String,
    },
    /// Output of the terminal.
    Output {
        /// Identity of the session.
        session_id: String,
        /// The output.
        data: String,
        /// How its bytes travel.
        encoding: RemoteShellDataEncoding,
    },
    /// The program of the session ended.
    Exit {
        /// Identity of the session.
        session_id: String,
        /// Exit code, where there is one.
        code: Option<i32>,
    },
    /// The session failed.
    Error {
        /// Identity of the session.
        session_id: String,
        /// Why.
        message: String,
    },
}

/// Text that the standard base64 engine makes of bytes.
pub uninterp spec fn base64_text(bytes: Seq<u8>) -> Seq<char>;

/// Bytes that the standard base64 engine reads from a text, or the text of its error.
pub uninterp spec fn base64_bytes(text: Seq<char>) -> Result<Seq<u8>, Seq<char>>;

/// Whether the standard base64 engine reads exactly these bytes from a text.
pub open spec fn carries(text: Seq<char>, bytes: Seq<u8>) -> bool {
    base64_bytes(text) == Ok::<Seq<u8>, Seq<char>>(bytes)
}

/// `base64::Engine::encode` with `base64::engine::general_purpose::STANDARD`. The same engine
/// reads the bytes back from the text.
#[verifier::external_body]
fn encode_base64(bytes: &[u8]) -> (text: String)
    ensures
        text@ == base64_text(bytes@),
        carries(text@, bytes@),
{
    base64::Engine::encode(&base64::engine::general_purpose::STANDARD, bytes)
}

/// Outcome of reading bytes as a mathematical value.
pub open spec fn bytes_view(bytes: Result<Vec<u8>, String>) -> Result<Seq<u8>, Seq<char>> {
    match bytes {
        Ok(bytes) => Ok(bytes@),
        Err(text) => Err(text@),
    }
}

/// `base64::Engine::decode` with `base64::engine::general_purpose::STANDARD`, with the text of
/// its error.
#[verifier::external_body]
fn decode_base64(text: &str) -> (bytes: Result<Vec<u8>, String>)
    ensures
        bytes_view(bytes) == base64_bytes(text@),
{
    match base64::Engine::decode(&base64::engine::general_purpose::STANDARD, text) {
        Ok(bytes) => Ok(bytes),
        Err(error) => Err(error.to_string()),
    }
}

/// Bytes of terminal input, or why there are none.
pub open spec fn input_bytes(command: RemoteShellStreamCommand) -> Result<Seq<u8>, Seq<char>> {
    match command {
        RemoteShellStreamCommand::Input { data, encoding } => match encoding {
            Some(RemoteShellDataEncoding::Base64) => base64_bytes(data@),
            _ => Ok(encode_utf8(data@)),
        },
        _ => Err("remote shell command does not carry input bytes"@),
    }
}

/// Bytes of terminal input.
pub fn decode_input_bytes(command: RemoteShellStreamCommand) -> (bytes: Result<Vec<u8>, String>)
    ensures
        bytes_view(bytes) == input_bytes(command),
{
    match command {
        RemoteShellStreamCommand::Input { data, encoding } => match encoding {
            Some(RemoteShellDataEncoding::Base64) => decode_base64(data.as_str()),
            Some(RemoteShellDataEncoding::Utf8) => Ok(data.as_str().as_bytes_vec()),
            None => Ok(data.as_str().as_bytes_vec()),
        },
        RemoteShellStreamCommand::Resize { .. }
        | RemoteShellStreamCommand::Close
        | RemoteShellStreamCommand::Heartbeat => Err(
            "remote shell command does not carry input bytes".to_owned(),
        ),
    }
}

/// Message that carries terminal output. The bytes travel as base64 and can be read back.
pub fn output_event(session_id: String, data: &[u8]) -> (event: RemoteShellStreamEvent)
    ensures
        event matches RemoteShellStreamEvent::Output { session_id: id, data: text, encoding }
            && id == session_id && text@ == base64_text(data@) && encoding
            == RemoteShellDataEncoding::Base64 && carries(text@, data@),
{
    let text = encode_base64(data);
    RemoteShellStreamEvent::Output {
        session_id,
        data: text,
        encoding: RemoteShellDataEncoding::Base64,
    }
}

/// Character inside a JSON string.
pub open spec fn json_char(c: char) -> Seq<char> {
    if c == '"' {
        seq!['\\', '"']
    } else if c == '\\' {
        seq!['\\', '\\']
    } else if c as int == 0x08 {
        seq!['\\', 'b']
    } else if c as int == 0x09 {
        seq!['\\', 't']
    } else if c as int == 0x0A {
        seq!['\\', 'n']
    } else if c as int == 0x0C {
        seq!['\\', 'f']
    } else if c as int == 0x0D {
        seq!['\\', 'r']
    } else if (c as int) < 0x20 {
        seq!['\\', 'u', '0', '0'] + hexadecimal(c as nat, 2)
    } else {
        seq![c]
    }
}

/// Text inside a JSON string.
pub open spec fn json_chars(text: Seq<char>) -> Seq<char>
    decreases text.len(),
{
    if text.len() == 0 {
        Seq::empty()
    } else {
        json_chars(text.drop_last()) + json_char(text.last())
    }
}

/// JSON string.
pub open spec fn json_string(text: Seq<char>) -> Seq<char> {
    seq!['"'] + json_chars(text) + seq!['"']
}

/// `serde_json::to_string` of a text: the text in quotation marks, with control characters,
/// quotation marks and backslashes escaped and everything else as it is.
#[verifier::external_body]
fn quote_json(text: &str) -> (quoted: String)
    ensures
        quoted@ == json_string(text@),
{
    serde_json::to_string(text).unwrap_or_default()
}

/// JSON value of an optional number.
pub open spec fn json_number(number: Option<i32>) -> Seq<char> {
    match number {
        Some(number) => integer(number as int),
        None => "null"@,
    }
}

/// JSON name of an encoding.
pub open spec fn encoding_name(encoding: RemoteShellDataEncoding) -> Seq<char> {
    match encoding {
        RemoteShellDataEncoding::Utf8 => "\"utf8\""@,
        RemoteShellDataEncoding::Base64 => "\"base64\""@,
    }
}

/// JSON text of a message.
pub open spec fn event_json(event: RemoteShellStreamEvent) -> Seq<char> {
    match event {
        RemoteShellStreamEvent::Opened { session_id } => {
            "{\"type\":\"opened\",\"session_id\":"@ + json_string(session_id@) + "}"@
        },
        RemoteShellStreamEvent::Output { session_id, data, encoding } => {
            "{\"type\":\"output\",\"session_id\":"@ + json_string(session_id@) + ",\"data\":"@
                + json_string(data@) + ",\"encoding\":"@ + encoding_name(encoding) + "}"@
        },
        RemoteShellStreamEvent::Exit { session_id, code } => {
            "{\"type\":\"exit\",\"session_id\":"@ + json_string(session_id@) + ",\"code\":"@
                + json_number(code) + "}"@
        },
        RemoteShellStreamEvent::Error { session_id, message } => {
            "{\"type\":\"error\",\"session_id\":"@ + json_string(session_id@) + ",\"message\":"@
                + json_string(message@) + "}"@
        },
    }
}

/// JSON text of a message.
pub fn encode_stream_event(event: &RemoteShellStreamEvent) -> (text: Result<String, String>)
    ensures
        text matches Ok(text) && text@ == event_json(*event),
{
    let text = match event {
        RemoteShellStreamEvent::Opened { session_id } => {
            let id = quote_json(session_id.as_str());
            "{\"type\":\"opened\",\"session_id\":".to_owned().concat(id.as_str()).concat("}")
        },
        RemoteShellStreamEvent::Output { session_id, data, encoding } => {
            let id = quote_json(session_id.as_str());
            let data = quote_json(data.as_str());
            let encoding = match encoding {
                RemoteShellDataEncoding::Utf8 => "\"utf8\"",
                RemoteShellDataEncoding::Base64 => "\"base64\"",
            };
            "{\"type\":\"output\",\"session_id\":".to_owned().concat(id.as_str()).concat(
                ",\"data\":",
            ).concat(data.as_str()).concat(",\"encoding\":").concat(encoding).concat("}")
        },
        RemoteShellStreamEvent::Exit { session_id, code } => {
            let id = quote_json(session_id.as_str());
            let code = match code {
                Some(code) => integer_text(*code),
                None => "null".to_owned(),
            };
            "{\"type\":\"exit\",\"session_id\":".to_owned().concat(id.as_str()).concat(
                ",\"code\":",
            ).concat(code.as_str()).concat("}")
        },
        RemoteShellStreamEvent::Error { session_id, message } => {
            let id = quote_json(session_id.as_str());
            let message = quote_json(message.as_str());
            "{\"type\":\"error\",\"session_id\":".to_owned().concat(id.as_str()).concat(
                ",\"message\":",
            ).concat(message.as_str()).concat("}")
        },
    };
    Ok(text)
}

} // verus!
