use cmdhub::host::{host_step, HostAction, HostEvent};
use cmdhub::ids::SessionId;
use cmdhub::session::{SessionInfo, SessionStatus};

fn running() -> SessionInfo {
    let mut info = SessionInfo::pending(
        SessionId { bits: 1 },
        10,
        "tui".to_string(),
        "CmdHub".to_string(),
        None,
        "tui".to_string(),
        None,
        None,
        false,
    );
    info.mark_running(100, "/sock".to_string());
    info
}

#[test]
fn connection_is_served_and_the_host_goes_on() {
    let mut info = running();
    assert_eq!(host_step(&mut info, HostEvent::Connection, 50), vec![HostAction::Serve]);
    assert_eq!(info.status, SessionStatus::Running);
    assert_eq!(info.ended_at, None);
}

#[test]
fn reported_exit_winds_the_session_up() {
    let mut info = running();
    let actions = host_step(&mut info, HostEvent::ChildExited { code: Some(3) }, 77);
    assert_eq!(
        actions,
        vec![
            HostAction::WriteSession,
            HostAction::MoveToHistory,
            HostAction::RemoveSocket,
            HostAction::Stop,
        ]
    );
    assert_eq!(info.status, SessionStatus::Exited);
    assert_eq!(info.ended_at, Some(77));
    assert_eq!(info.exit_code, Some(3));
    assert_eq!(info.runner_pid, Some(100));
}

#[test]
fn exit_without_report_only_cleans_up() {
    let mut info = running();
    let actions = host_step(&mut info, HostEvent::ChildExited { code: None }, 77);
    assert_eq!(actions, vec![HostAction::RemoveSocket, HostAction::Stop]);
    assert_eq!(info.status, SessionStatus::Running);
    assert_eq!(info.ended_at, None);
    assert_eq!(info.exit_code, None);
}

#[test]
fn failed_accept_ends_the_host_with_the_error() {
    let mut info = running();
    assert_eq!(host_step(&mut info, HostEvent::AcceptFailed, 1), vec![HostAction::Fail]);
    assert_eq!(info.status, SessionStatus::Running);
}
