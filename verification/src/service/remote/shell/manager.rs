//! Opening of interactive sessions.

use crate::service::config::{ExportConfig, RemoteShellConfig};
use crate::service::remote::shell::message::{
    open_error, validate_open_request, RemoteShellOpenRequest,
};
use crate::service::remote::shell::options::RemoteShellOptions;
use crate::service::remote::shell::session::{RemoteShellSession, RemoteShellSessionPermit};
use crate::service::remote::shell::stream::{adapted_by, RemoteShellStreamCodec};
use vstd::prelude::*;

verus! {

/// Interactive sessions.
#[derive(Debug, PartialEq, Eq, Structural)]
pub struct RemoteShellManager {
    /// Switch.
    pub options: RemoteShellOptions,
    /// Number of sessions.
    pub active_sessions: usize,
}

/// One more session.
pub open spec fn with_session(manager: RemoteShellManager) -> RemoteShellManager {
    RemoteShellManager { active_sessions: (manager.active_sessions + 1) as usize, ..manager }
}

/// One session less.
pub open spec fn without_session(manager: RemoteShellManager) -> RemoteShellManager {
    RemoteShellManager { active_sessions: (manager.active_sessions - 1) as usize, ..manager }
}

/// Why a session is not opened, where it is not.
pub open spec fn open_refusal(
    manager: RemoteShellManager,
    request: RemoteShellOpenRequest,
    max_sessions: usize,
) -> Option<Seq<char>> {
    if !manager.options.enabled {
        Some("remote shell is disabled"@)
    } else if open_error(request) is Some {
        open_error(request)
    } else if manager.active_sessions >= max_sessions {
        Some("remote shell session limit reached"@)
    } else {
        None
    }
}

/// Whether a request to open a session was answered: the session or the reason, and the sessions
/// afterwards.
pub open spec fn opened_by<C: RemoteShellStreamCodec>(
    before: RemoteShellManager,
    request: RemoteShellOpenRequest,
    export: ExportConfig,
    limits: RemoteShellConfig,
    codec: C,
    after: RemoteShellManager,
    opened: Result<RemoteShellSession, String>,
) -> bool {
    match opened {
        Ok(session) => {
            &&& open_refusal(before, request, limits.max_sessions) is None
            &&& after == with_session(before)
            &&& session.request == request
            &&& session.shell_config == limits
            &&& session.permit.number() == before.active_sessions
            &&& adapted_by(codec, export, request.stream_url@, session.stream_config)
        },
        Err(text) => {
            &&& open_refusal(before, request, limits.max_sessions) == Some(text@)
            &&& after == before
        },
    }
}

impl RemoteShellManager {
    /// No sessions.
    pub fn new(options: RemoteShellOptions) -> (manager: RemoteShellManager)
        ensures
            manager == (RemoteShellManager { options, active_sessions: 0 }),
    {
        RemoteShellManager { options, active_sessions: 0 }
    }

    /// Takes a place among the sessions, where one is free.
    pub fn acquire_session_permit(&mut self, max_sessions: usize) -> (permit: Result<
        RemoteShellSessionPermit,
        String,
    >)
        ensures
            match permit {
                Ok(permit) => {
                    &&& old(self).active_sessions < max_sessions
                    &&& permit.number() == old(self).active_sessions
                    &&& *final(self) == with_session(*old(self))
                },
                Err(text) => {
                    &&& old(self).active_sessions >= max_sessions
                    &&& text@ == "remote shell session limit reached"@
                    &&& *final(self) == *old(self)
                },
            },
    {
        if self.active_sessions >= max_sessions {
            return Err("remote shell session limit reached".to_owned());
        }
        let place: usize = self.active_sessions;
        self.active_sessions += 1;
        Ok(RemoteShellSessionPermit::new(place))
    }

    /// Gives the place of a session that ended back.
    pub fn release(&mut self, permit: RemoteShellSessionPermit)
        requires
            old(self).active_sessions > 0,
        ensures
            *final(self) == without_session(*old(self)),
    {
        self.active_sessions -= 1;
    }

    /// Opens a session, or says why not.
    pub fn open<C: RemoteShellStreamCodec>(
        &mut self,
        request: RemoteShellOpenRequest,
        export_config: &ExportConfig,
        shell_config: &RemoteShellConfig,
        codec: &C,
    ) -> (opened: Result<RemoteShellSession, String>)
        ensures
            opened_by(
                *old(self),
                request,
                *export_config,
                *shell_config,
                *codec,
                *final(self),
                opened,
            ),
    {
        if !self.options.enabled {
            return Err("remote shell is disabled".to_owned());
        }
        if let Err(text) = validate_open_request(&request) {
            return Err(text);
        }
        match self.acquire_session_permit(shell_config.max_sessions) {
            Ok(permit) => RemoteShellSession::new(
                request,
                export_config,
                shell_config,
                codec,
                permit,
            ),
            Err(text) => Err(text),
        }
    }
}

/// A place counts from the moment it is taken until it is given back, and the manager is then as
/// it was before.
pub proof fn law_places_come_back(manager: RemoteShellManager, max_sessions: usize)
    requires
        manager.active_sessions < max_sessions,
    ensures
        with_session(manager).active_sessions == manager.active_sessions + 1,
        without_session(with_session(manager)) == manager,
{
}

/// No session is opened beyond the limit, and none where sessions are switched off.
pub proof fn law_sessions_are_limited(
    manager: RemoteShellManager,
    request: RemoteShellOpenRequest,
    max_sessions: usize,
)
    requires
        manager.active_sessions >= max_sessions || !manager.options.enabled,
    ensures
        open_refusal(manager, request, max_sessions) is Some,
{
}

} // verus!
