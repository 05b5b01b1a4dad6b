//! What holds of interactive sessions as a whole.

use crate::service::config::{ExportConfig, RemoteShellConfig};
use crate::service::remote::shell::manager::{opened_by, RemoteShellManager};
use crate::service::remote::shell::message::{
    carries, decode_input_bytes, json_chars, json_string, open_error, size_at_start,
    RemoteShellDataEncoding, RemoteShellOpenRequest, RemoteShellStreamCommand,
    RemoteShellStreamEvent,
};
use crate::service::remote::shell::session::{
    after_shell_operation, closing_event, opening_event, shell_step, RemoteShellSession, ShellEvent,
    ShellStep,
};
use crate::service::remote::shell::stream::{
    adapted_by, wanted_by, FrameNumbers, OutgoingFrame, RemoteShellFrame, RemoteShellInput,
    RemoteShellStreamCodec, SmaluxShellCodec, WebSocketConfig,
};
use crate::text::{law_blank_texts, white_space};
use vstd::prelude::*;
use vstd::utf8::encode_utf8;

verus! {

/// What ends of itself needs no stopping; what the server or the clock ends is stopped. Nothing
/// else ends a session.
pub proof fn law_sessions_end_for_a_reason(session_id: String, event: ShellEvent, step: ShellStep)
    requires
        call_ensures(shell_step, (&session_id, event), step),
    ensures
        step is Finish <==> match event {
            ShellEvent::Exited(_) => true,
            ShellEvent::WaiterGone => true,
            ShellEvent::Input(None) => true,
            ShellEvent::Input(Some(input)) => input is Close,
            ShellEvent::Output(_) => false,
            ShellEvent::IdleTimeout => true,
            ShellEvent::SessionTimeout => true,
        },
        step matches ShellStep::Finish { stop_program, result } ==> {
            &&& stop_program <==> !(event is Exited || event is WaiterGone)
            &&& stop_program ==> result == Ok::<Option<i32>, String>(None)
            &&& event is Exited ==> result == event->Exited_0
            &&& event is WaiterGone ==> result is Err
        },
{
}

/// What the server types reaches the terminal as it is, and so does a new size. What the terminal
/// shows goes to the server under the session's identity, and can be read back there.
pub proof fn law_terminal_and_server_are_joined(
    session_id: String,
    event: ShellEvent,
    step: ShellStep,
)
    requires
        call_ensures(shell_step, (&session_id, event), step),
    ensures
        match event {
            ShellEvent::Input(Some(RemoteShellInput::Input(data))) => step == ShellStep::Write(
                data,
            ),
            ShellEvent::Input(Some(RemoteShellInput::Resize { cols, rows })) => step is Resize
                && step->Resize_cols == cols && step->Resize_rows == rows,
            ShellEvent::Output(Some(output)) => step matches ShellStep::Send(
                RemoteShellStreamEvent::Output { session_id: id, data, encoding },
            ) && id == session_id && encoding is Base64 && carries(data@, output@),
            ShellEvent::Output(None) => step is Wait,
            _ => step is Finish,
        },
{
}

/// Whatever was done for a session is a sign of life; what failed ends the session and says why.
pub proof fn law_operations_are_signs_of_life(outcome: Result<(), String>, step: ShellStep)
    requires
        call_ensures(after_shell_operation, (outcome,), step),
    ensures
        outcome is Ok ==> step is RestartIdle,
        outcome matches Err(error) ==> step is Finish && !step->stop_program && step->result
            == Err::<Option<i32>, String>(error),
{
}

/// A session opens with its identity and closes with the exit code or the reason, always under
/// the same identity.
pub proof fn law_first_and_last_message(
    session_id: String,
    result: Result<Option<i32>, String>,
    opening: RemoteShellStreamEvent,
    closing: RemoteShellStreamEvent,
)
    requires
        call_ensures(opening_event, (session_id,), opening),
        call_ensures(closing_event, (session_id, result), closing),
    ensures
        opening == (RemoteShellStreamEvent::Opened { session_id }),
        closing is Exit <==> result is Ok,
        closing is Error <==> result is Err,
        closing matches RemoteShellStreamEvent::Exit { session_id: id, code } ==> id == session_id
            && result == Ok::<Option<i32>, String>(code),
        closing matches RemoteShellStreamEvent::Error { session_id: id, message } ==> id
            == session_id && result == Err::<Option<i32>, String>(message),
{
}

/// Whether a text holds something besides white space.
pub open spec fn says_something(text: Seq<char>) -> bool {
    exists|i: int| 0 <= i < text.len() && !#[trigger] white_space(text[i])
}

/// A request to open a session is in order exactly where it names a session and an address and
/// gives the terminal no empty side.
pub proof fn law_open_requests_are_checked(request: RemoteShellOpenRequest)
    ensures
        open_error(request) is None <==> {
            &&& says_something(request.session_id@)
            &&& says_something(request.stream_url@)
            &&& request.cols matches Some(cols) ==> cols > 0
            &&& request.rows matches Some(rows) ==> rows > 0
        },
        !says_something(request.session_id@) ==> open_error(request) == Some(
            "remote_shell.session_id cannot be empty"@,
        ),
{
    law_blank_texts(request.session_id@);
    law_blank_texts(request.stream_url@);
}

/// A terminal has the size that was asked for. A side that was left open is eighty columns wide
/// or twenty-four rows high.
pub proof fn law_terminal_size(request: RemoteShellOpenRequest)
    ensures
        request.cols == Some(size_at_start(request).0) || (request.cols is None && size_at_start(
            request,
        ).0 == 80),
        request.rows == Some(size_at_start(request).1) || (request.rows is None && size_at_start(
            request,
        ).1 == 24),
{
}

/// A session is opened exactly where sessions are switched on, the request is in order and a place
/// is free. It takes one place and keeps the request and the limits of that moment. A refusal
/// takes none.
pub proof fn law_sessions_are_opened<C: RemoteShellStreamCodec>(
    before: RemoteShellManager,
    request: RemoteShellOpenRequest,
    export: ExportConfig,
    limits: RemoteShellConfig,
    codec: C,
    after: RemoteShellManager,
    opened: Result<RemoteShellSession, String>,
)
    requires
        opened_by(before, request, export, limits, codec, after, opened),
    ensures
        opened is Ok <==> {
            &&& before.options.enabled
            &&& open_error(request) is None
            &&& before.active_sessions < limits.max_sessions
        },
        after.options == before.options,
        opened is Ok ==> after.active_sessions == before.active_sessions + 1,
        opened is Err ==> after.active_sessions == before.active_sessions,
        opened matches Ok(session) ==> session.request == request && session.shell_config
            == limits,
        opened matches Err(text) ==> (open_error(request) is Some && before.options.enabled ==> Some(
            text@,
        ) == open_error(request)),
{
}

/// The session's own connection goes to the address of the request, with the token, the trust in
/// certificates and the keep-alive time of the main connection.
pub proof fn law_session_connection(
    codec: SmaluxShellCodec,
    export: ExportConfig,
    url: Seq<char>,
    config: WebSocketConfig,
)
    requires
        adapted_by(codec, export, url, config),
    ensures
        config.url@ == url,
        config.token is Some <==> export.token is Some,
        export.token matches Some(token) ==> config.token->0@ == token@,
        config.unsafe_cert == export.unsafe_cert,
        config.heartbeat == export.heartbeat,
        !config.raw_binary_frames,
{
}

/// Whether bytes are to be written to the terminal.
pub open spec fn types(input: Result<Option<RemoteShellInput>, String>, bytes: Seq<u8>) -> bool {
    input matches Ok(Some(RemoteShellInput::Input(typed))) && typed@ == bytes
}

/// A command asks the session for what it says: its bytes for the terminal, its size, the end. A
/// sign of life asks for nothing, and only bytes that cannot be read are refused.
pub proof fn law_commands_ask_for_what_they_say(
    command: RemoteShellStreamCommand,
    input: Result<Option<RemoteShellInput>, String>,
)
    requires
        wanted_by(command, input),
    ensures
        match command {
            RemoteShellStreamCommand::Resize { cols, rows } => input matches Ok(
                Some(RemoteShellInput::Resize { cols: wide, rows: high }),
            ) && wide == cols && high == rows,
            RemoteShellStreamCommand::Close => input is Ok && input->Ok_0 == Some(
                RemoteShellInput::Close,
            ),
            RemoteShellStreamCommand::Heartbeat => input is Ok && input->Ok_0 is None,
            RemoteShellStreamCommand::Input { data, encoding } => {
                &&& encoding != Some(RemoteShellDataEncoding::Base64) ==> types(
                    input,
                    encode_utf8(data@),
                )
                &&& forall|bytes: Seq<u8>|
                    encoding == Some(RemoteShellDataEncoding::Base64) && #[trigger] carries(
                        data@,
                        bytes,
                    ) ==> types(input, bytes)
            },
        },
{
}

/// Only input carries bytes; where they travel as base64 the text decides whether they can be
/// read.
pub proof fn law_only_input_carries_bytes(
    command: RemoteShellStreamCommand,
    bytes: Result<Vec<u8>, String>,
)
    requires
        call_ensures(decode_input_bytes, (command,), bytes),
    ensures
        !(command is Input) ==> bytes is Err,
        command matches RemoteShellStreamCommand::Input { data, encoding } ==> match encoding {
            Some(RemoteShellDataEncoding::Base64) => forall|expected: Seq<u8>|
                #[trigger] carries(data@, expected) ==> bytes is Ok && bytes->Ok_0@ == expected,
            _ => bytes is Ok && bytes->Ok_0@ == encode_utf8(data@),
        },
{
}

/// Payloads of the agent's own wire format go out unchanged under numbers that follow each other.
/// Other messages go out unchanged, without a number, and use none up.
pub proof fn law_payloads_are_numbered(numbers: FrameNumbers, frame: RemoteShellFrame)
    ensures
        match frame {
            RemoteShellFrame::SmaluxWire(body) => {
                &&& numbers.prepared(frame) == (OutgoingFrame::Wire {
                    sequence: numbers.next_sequence,
                    body,
                })
                &&& numbers.next_sequence < u64::MAX ==> numbers.after(frame).next_sequence
                    == numbers.next_sequence + 1
                &&& numbers.next_sequence == u64::MAX ==> numbers.after(frame).next_sequence == 0
            },
            RemoteShellFrame::Text(text) => {
                &&& numbers.prepared(frame) == OutgoingFrame::Text(text)
                &&& numbers.after(frame) == numbers
            },
            RemoteShellFrame::RawBinary(bytes) => {
                &&& numbers.prepared(frame) == OutgoingFrame::RawBinary(bytes)
                &&& numbers.after(frame) == numbers
            },
        },
{
}

/// Whether a character stands for itself inside a JSON string.
pub open spec fn plain(c: char) -> bool {
    c != '"' && c != '\\' && c as int >= 0x20
}

/// A text of plain characters is quoted as it is.
pub proof fn law_plain_texts_are_quoted_as_they_are(text: Seq<char>)
    requires
        forall|i: int| 0 <= i < text.len() ==> plain(#[trigger] text[i]),
    ensures
        json_chars(text) == text,
        json_string(text) == seq!['"'] + text + seq!['"'],
    decreases text.len(),
{
    if text.len() > 0 {
        let front = text.drop_last();
        assert forall|i: int| 0 <= i < front.len() implies plain(#[trigger] front[i]) by {
            assert(front[i] == text[i]);
        }
        law_plain_texts_are_quoted_as_they_are(front);
        assert(plain(text[text.len() - 1]));
        assert(json_chars(text) =~= text);
    }
}

/// A quotation mark or a backslash follows a backslash, a line break and a tabulator have their own
/// signs, and the text between two such characters is quoted on its own.
pub proof fn law_special_characters_are_escaped(text: Seq<char>, c: char)
    ensures
        ({
            let quoted = json_chars(text.push(c));
            let before = json_chars(text);
            &&& c == '"' ==> quoted == before + seq!['\\', '"']
            &&& c == '\\' ==> quoted == before + seq!['\\', '\\']
            &&& c == '\n' ==> quoted == before + seq!['\\', 'n']
            &&& c == '\r' ==> quoted == before + seq!['\\', 'r']
            &&& c == '\t' ==> quoted == before + seq!['\\', 't']
            &&& (c as int) < 0x20 ==> quoted.len() >= before.len() + 2 && quoted[before.len() as int]
                == '\\'
            &&& plain(c) ==> quoted == before.push(c)
        }),
{
    assert(text.push(c).drop_last() =~= text);
    assert(text.push(c).last() == c);
}

} // verus!
