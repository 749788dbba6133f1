//! The decisions of a session's host process. The host owns one
//! pseudo-terminal, serves attach connections, and winds the session up
//! when its child ends. It waits for events; this module says what each
//! event does to the session's record and what the host does next.

use crate::session::{rank, SessionInfo, SessionStatus};
use vstd::prelude::*;

verus! {

/// What the host waits for.
#[derive(Clone, Copy, Debug, PartialEq, Eq)]
pub enum HostEvent {
    /// A client has connected to the socket.
    Connection,
    /// Accepting a connection failed.
    AcceptFailed,
    /// The child has ended: with the exit code that its watcher reported,
    /// or without a report.
    ChildExited { code: Option<u32> },
}

/// What the host does.
#[derive(Clone, Copy, Debug, PartialEq, Eq)]
pub enum HostAction {
    /// Subscribe the new connection to the output and forward its input.
    Serve,
    /// Write the session's record.
    WriteSession,
    /// Move the session to the history and prune the history.
    MoveToHistory,
    /// Delete the socket file, in the session's active directory and,
    /// where that directory has just been moved, in the history.
    RemoveSocket,
    /// Stop accepting connections and end in good order.
    Stop,
    /// End with the error of the failed accept.
    Fail,
}

/// What the host does on an event, in order.
pub open spec fn actions_on(event: HostEvent) -> Seq<HostAction> {
    match event {
        HostEvent::Connection => seq![HostAction::Serve],
        HostEvent::AcceptFailed => seq![HostAction::Fail],
        HostEvent::ChildExited { code: Some(_) } => seq![
            HostAction::WriteSession,
            HostAction::MoveToHistory,
            HostAction::RemoveSocket,
            HostAction::Stop,
        ],
        HostEvent::ChildExited { code: None } => seq![HostAction::RemoveSocket, HostAction::Stop],
    }
}

/// The session's record after an event at time `now`: a reported exit
/// makes it exited with that code and stamps the end time; nothing else
/// touches it.
pub open spec fn record_after(info: SessionInfo, event: HostEvent, now: u64) -> SessionInfo {
    match event {
        HostEvent::ChildExited { code: Some(code) } => SessionInfo {
            status: SessionStatus::Exited,
            ended_at: Some(now),
            exit_code: Some(code),
            ..info
        },
        _ => info,
    }
}

/// Whether the host goes on waiting after an event.
pub open spec fn host_goes_on(event: HostEvent) -> bool {
    event == HostEvent::Connection
}

/// Takes an event that arrived at time `now`: updates the session's record
/// and says what the host does next, in order. The host goes on waiting
/// exactly when the list holds neither `Stop` nor `Fail`, which is after a
/// connection.
pub fn host_step(info: &mut SessionInfo, event: HostEvent, now: u64) -> (actions: Vec<HostAction>)
    ensures
        *final(info) == record_after(*old(info), event, now),
        rank(final(info).status) >= rank(old(info).status),
        actions@ == actions_on(event),
        host_goes_on(event) <==> !actions@.contains(HostAction::Stop) && !actions@.contains(
            HostAction::Fail,
        ),
{
    let mut actions: Vec<HostAction> = Vec::new();
    match event {
        HostEvent::Connection => {
            actions.push(HostAction::Serve);
        },
        HostEvent::AcceptFailed => {
            actions.push(HostAction::Fail);
        },
        HostEvent::ChildExited { code } => {
            match code {
                Some(c) => {
                    info.mark_exited(now, c);
                    actions.push(HostAction::WriteSession);
                    actions.push(HostAction::MoveToHistory);
                },
                None => {},
            }
            actions.push(HostAction::RemoveSocket);
            actions.push(HostAction::Stop);
        },
    }
    proof {
        assert(actions@ =~= actions_on(event));
        let a = actions_on(event);
        match event {
            HostEvent::Connection => {},
            HostEvent::AcceptFailed => {
                assert(a[0] == HostAction::Fail);
            },
            HostEvent::ChildExited { code: Some(_) } => {},
            HostEvent::ChildExited { code: None } => {},
        }
    }
    actions
}

} // verus!
