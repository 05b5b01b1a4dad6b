//! One interactive session: what follows input, output, silence and the end of its program.

use crate::service::config::{ExportConfig, RemoteShellConfig};
use crate::service::remote::shell::message::{
    base64_text, carries, output_event, RemoteShellDataEncoding, RemoteShellOpenRequest,
    RemoteShellStreamEvent,
};
use crate::service::remote::shell::stream::{
    adapted_by, shell_stream_config, RemoteShellInput, RemoteShellStreamCodec, WebSocketConfig,
};
use vstd::prelude::*;

verus! {

/// Place among the sessions. It is given back when the session ends.
#[derive(Debug)]
pub struct RemoteShellSessionPermit {
    place: usize,
}

impl RemoteShellSessionPermit {
    /// Number of sessions that there were when the place was given out.
    pub closed spec fn number(self) -> usize {
        self.place
    }

    pub(crate) fn new(place: usize) -> (permit: RemoteShellSessionPermit)
        ensures
            permit.number() == place,
    {
        RemoteShellSessionPermit { place }
    }
}

/// Session that has not begun.
#[derive(Debug)]
pub struct RemoteShellSession {
    /// Request that opened it.
    pub request: RemoteShellOpenRequest,
    /// Limits at the time of the request.
    pub shell_config: RemoteShellConfig,
    /// Its own connection.
    pub stream_config: WebSocketConfig,
    /// Its place among the sessions.
    pub permit: RemoteShellSessionPermit,
}

impl RemoteShellSession {
    /// Session for a request. Later changes of the limits do not touch it.
    pub fn new<C: RemoteShellStreamCodec>(
        request: RemoteShellOpenRequest,
        export_config: &ExportConfig,
        shell_config: &RemoteShellConfig,
        codec: &C,
        permit: RemoteShellSessionPermit,
    ) -> (session: Result<RemoteShellSession, String>)
        ensures
            session matches Ok(session) && {
                &&& session.request == request
                &&& session.shell_config == *shell_config
                &&& session.permit == permit
                &&& adapted_by(
                    *codec,
                    *export_config,
                    request.stream_url@,
                    session.stream_config,
                )
            },
    {
        match shell_stream_config(export_config, request.stream_url.as_str(), codec) {
            Ok(stream_config) => Ok(
                RemoteShellSession {
                    request,
                    shell_config: shell_config.clone(),
                    stream_config,
                    permit,
                },
            ),
            Err(text) => Err(text),
        }
    }
}

/// Something that happened to a session.
#[derive(Debug)]
pub enum ShellEvent {
    /// The program ended: its exit code, or why waiting for it failed.
    Exited(Result<Option<i32>, String>),
    /// Nobody waits for the program any more.
    WaiterGone,
    /// The server wants something, or is gone.
    Input(Option<RemoteShellInput>),
    /// The terminal has output, or no more will come.
    Output(Option<Vec<u8>>),
    /// Nothing was read or written for too long.
    IdleTimeout,
    /// The session lasted too long.
    SessionTimeout,
}

/// What the runtime has to do.
#[derive(Debug)]
pub enum ShellStep {
    /// Wait for the next thing to happen.
    Wait,
    /// Write to the terminal and report what became of it.
    Write(Vec<u8>),
    /// Change the size of the terminal and report what became of it.
    Resize {
        /// Columns.
        cols: u16,
        /// Rows.
        rows: u16,
    },
    /// Send a message and report what became of it.
    Send(RemoteShellStreamEvent),
    /// Start the time without input and output again, and wait.
    RestartIdle,
    /// End the session.
    Finish {
        /// Whether the program has to be stopped.
        stop_program: bool,
        /// Exit code, or why the session failed.
        result: Result<Option<i32>, String>,
    },
}

/// Whether a step ends the session and stops the program, without an exit code.
pub open spec fn stops(step: ShellStep) -> bool {
    step matches ShellStep::Finish { stop_program, result } && stop_program && result == Ok::<
        Option<i32>,
        String,
    >(None)
}

/// What follows an event of a session.
pub fn shell_step(session_id: &String, event: ShellEvent) -> (step: ShellStep)
    ensures
        match event {
            ShellEvent::Exited(result) => step == (ShellStep::Finish {
                stop_program: false,
                result,
            }),
            ShellEvent::WaiterGone => step matches ShellStep::Finish { stop_program, result }
                && !stop_program && result is Err && result->Err_0@
                == "remote shell child waiter stopped"@,
            ShellEvent::Input(Some(RemoteShellInput::Input(data))) => step == ShellStep::Write(
                data,
            ),
            ShellEvent::Input(Some(RemoteShellInput::Resize { cols, rows })) => step == (
            ShellStep::Resize { cols, rows }),
            ShellEvent::Input(_) => stops(step),
            ShellEvent::Output(None) => step == ShellStep::Wait,
            ShellEvent::Output(Some(output)) => step matches ShellStep::Send(
                RemoteShellStreamEvent::Output { session_id: id, data, encoding },
            ) && id == *session_id && encoding == RemoteShellDataEncoding::Base64 && data@
                == base64_text(output@) && carries(data@, output@),
            ShellEvent::IdleTimeout => stops(step),
            ShellEvent::SessionTimeout => stops(step),
        },
{
    match event {
        ShellEvent::Exited(result) => ShellStep::Finish { stop_program: false, result },
        ShellEvent::WaiterGone => ShellStep::Finish {
            stop_program: false,
            result: Err("remote shell child waiter stopped".to_owned()),
        },
        ShellEvent::Input(Some(RemoteShellInput::Input(data))) => ShellStep::Write(data),
        ShellEvent::Input(Some(RemoteShellInput::Resize { cols, rows })) => ShellStep::Resize {
            cols,
            rows,
        },
        ShellEvent::Input(Some(RemoteShellInput::Close)) => ShellStep::Finish {
            stop_program: true,
            result: Ok(None),
        },
        ShellEvent::Input(None) => ShellStep::Finish { stop_program: true, result: Ok(None) },
        ShellEvent::Output(Some(output)) => ShellStep::Send(
            output_event(session_id.clone(), output.as_slice()),
        ),
        ShellEvent::Output(None) => ShellStep::Wait,
        ShellEvent::IdleTimeout => ShellStep::Finish { stop_program: true, result: Ok(None) },
        ShellEvent::SessionTimeout => ShellStep::Finish { stop_program: true, result: Ok(None) },
    }
}

/// What follows a write, a change of size or a message. Each of them is a sign of life; a failure
/// ends the session.
pub fn after_shell_operation(outcome: Result<(), String>) -> (step: ShellStep)
    ensures
        step == (match outcome {
            Ok(_) => ShellStep::RestartIdle,
            Err(error) => ShellStep::Finish { stop_program: false, result: Err(error) },
        }),
{
    match outcome {
        Ok(_) => ShellStep::RestartIdle,
        Err(error) => ShellStep::Finish { stop_program: false, result: Err(error) },
    }
}

/// Last message of a session: its exit code, or why it failed.
pub fn closing_event(session_id: String, result: Result<Option<i32>, String>) -> (event:
    RemoteShellStreamEvent)
    ensures
        event == (match result {
            Ok(code) => RemoteShellStreamEvent::Exit { session_id, code },
            Err(message) => RemoteShellStreamEvent::Error { session_id, message },
        }),
{
    match result {
        Ok(code) => RemoteShellStreamEvent::Exit { session_id, code },
        Err(message) => RemoteShellStreamEvent::Error { session_id, message },
    }
}

/// First message of a session.
pub fn opening_event(session_id: String) -> (event: RemoteShellStreamEvent)
    ensures
        event == (RemoteShellStreamEvent::Opened { session_id }),
{
    RemoteShellStreamEvent::Opened { session_id }
}

} // verus!
