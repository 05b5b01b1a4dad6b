//! Setting up the connection to the server.

use crate::scheduler::time::Span;
use crate::service::config::ExportFormat;
use vstd::prelude::*;

verus! {

/// What follows an attempt to connect.
#[derive(Debug, Clone, Copy, PartialEq, Eq, Structural)]
pub enum ConnectStep {
    /// The connection is ready.
    Ready,
    /// Close what was opened and try again after a pause.
    RetryAfter {
        /// The pause.
        pause: Span,
    },
}

/// What follows an attempt to connect. Attempts never run out.
pub fn after_connect_attempt(connected: bool, reconnect_interval: Span) -> (step: ConnectStep)
    ensures
        step == (if connected {
            ConnectStep::Ready
        } else {
            ConnectStep::RetryAfter { pause: reconnect_interval }
        }),
{
    if connected {
        ConnectStep::Ready
    } else {
        ConnectStep::RetryAfter { pause: reconnect_interval }
    }
}

/// Interpreter of the messages that the server sends.
#[derive(Debug, Clone, Copy, PartialEq, Eq, Structural)]
pub enum InboundHandler {
    /// Frames of the agent's own protocol.
    Smalux,
    /// Messages of Komari servers.
    Komari,
}

/// Interpreter that goes with a message format.
pub fn inbound_handler(format: ExportFormat) -> (handler: InboundHandler)
    ensures
        handler == (match format {
            ExportFormat::SmaluxJson => InboundHandler::Smalux,
            ExportFormat::Komari => InboundHandler::Komari,
        }),
{
    match format {
        ExportFormat::SmaluxJson => InboundHandler::Smalux,
        ExportFormat::Komari => InboundHandler::Komari,
    }
}

/// An attempt that failed is followed by another after exactly the configured pause, however many
/// failed before.
pub proof fn law_attempts_never_run_out(connected: bool, pause: Span, step: ConnectStep)
    requires
        call_ensures(after_connect_attempt, (connected, pause), step),
    ensures
        step is Ready <==> connected,
        step matches ConnectStep::RetryAfter { pause: waited } ==> waited.nanos == pause.nanos,
{
}

/// Messages are read by the rules of the format that they are written in.
pub proof fn law_formats_have_their_own_interpreters(
    format: ExportFormat,
    handler: InboundHandler,
)
    requires
        call_ensures(inbound_handler, (format,), handler),
    ensures
        handler is Komari <==> format is Komari,
        handler is Smalux <==> format is SmaluxJson,
{
}

} // verus!
