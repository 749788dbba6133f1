use cmdhub::attach::{
    attach_socket, display_name, find_latest_named, load_history_limit, log_tail, needs_refresh, on_input,
    opening_bytes, resolve_parsed, resolve_session_id, tail_start, InputDecision, AttachError,
    ATTACH_LOG_TAIL_BYTES, DEFAULT_HISTORY_LIMIT, DETACH_BYTE, REDRAW_BYTE,
};
use cmdhub::ids::SessionId;
use cmdhub::models::AppConfig;
use cmdhub::session::SessionInfo;

fn rec(n: u128, started_at: u64, name: Option<&str>, task_id: &str, command: &str) -> SessionInfo {
    SessionInfo::pending(
        SessionId { bits: n },
        started_at,
        task_id.to_string(),
        "Task".to_string(),
        name.map(|s| s.to_string()),
        command.to_string(),
        None,
        None,
        false,
    )
}

#[test]
fn protocol_constants() {
    assert_eq!(ATTACH_LOG_TAIL_BYTES, 64 * 1024);
    assert_eq!(DETACH_BYTE, 0x02);
    assert_eq!(REDRAW_BYTE, 0x0c);
    assert_eq!(DEFAULT_HISTORY_LIMIT, 10);
}

#[test]
fn input_without_detach_is_forwarded_whole() {
    assert_eq!(on_input(b"ls -l\r"), InputDecision { forward: b"ls -l\r".to_vec(), stop: false });
    assert_eq!(on_input(&[0x0c]), InputDecision { forward: vec![0x0c], stop: false });
}

#[test]
fn detach_byte_stops_and_is_not_forwarded() {
    assert_eq!(on_input(&[0x02]), InputDecision { forward: vec![], stop: true });
    assert_eq!(on_input(b"ab\x02cd\x02"), InputDecision { forward: b"ab".to_vec(), stop: true });
    assert_eq!(on_input(b"abc\x02"), InputDecision { forward: b"abc".to_vec(), stop: true });
}

#[test]
fn empty_read_stops_the_relay() {
    assert_eq!(on_input(b""), InputDecision { forward: vec![], stop: true });
}

#[test]
fn tail_start_bounds_the_replay() {
    assert_eq!(tail_start(0, 65536), 0);
    assert_eq!(tail_start(100, 65536), 0);
    assert_eq!(tail_start(65536, 65536), 0);
    assert_eq!(tail_start(65537, 65536), 1);
    assert_eq!(tail_start(1_000_000, 65536), 934_464);
    assert_eq!(tail_start(u64::MAX, 0), u64::MAX);
}

#[test]
fn log_tail_is_the_end_of_the_log() {
    assert_eq!(log_tail(b"0123456789", 4), b"6789".to_vec());
    assert_eq!(log_tail(b"0123456789", 10), b"0123456789".to_vec());
    assert_eq!(log_tail(b"0123456789", 11), b"0123456789".to_vec());
    assert_eq!(log_tail(b"0123456789", 0), Vec::<u8>::new());
    assert_eq!(log_tail(b"", 4), Vec::<u8>::new());
}

#[test]
fn replay_then_live_is_one_unbroken_stretch() {
    let log = b"the log as it stood when the client attached".to_vec();
    let live = b" and what came after".to_vec();
    for limit in 0..60usize {
        let mut seen = log_tail(&log, limit);
        seen.extend_from_slice(&live);
        let mut all = log.clone();
        all.extend_from_slice(&live);
        let start = tail_start(log.len() as u64, limit as u64) as usize;
        assert_eq!(seen, all[start..].to_vec());
    }
}

#[test]
fn opening_bytes_ask_for_a_redraw() {
    assert_eq!(opening_bytes(true), vec![0x0c]);
    assert_eq!(opening_bytes(false), Vec::<u8>::new());
}

#[test]
fn interface_sessions_redraw_themselves() {
    assert!(needs_refresh(&rec(1, 1, None, "tui", "x")));
    assert!(needs_refresh(&rec(1, 1, None, "x", "tui")));
    assert!(!needs_refresh(&rec(1, 1, None, "build", "make")));
    assert!(!needs_refresh(&rec(1, 1, None, "TUI", "tui ")));
}

#[test]
fn display_name_prefers_the_session_name() {
    assert_eq!(display_name(&rec(1, 1, Some("work"), "t", "c")), "work");
    assert_eq!(display_name(&rec(1, 1, None, "t", "c")), "Task");
}

#[test]
fn resolve_by_identifier() {
    let sessions = vec![rec(1, 1, Some("work"), "t", "c")];
    let text = "550e8400-e29b-41d4-a716-446655440000";
    assert_eq!(
        resolve_session_id(&sessions, text),
        Ok(SessionId { bits: 0x550e8400e29b41d4a716446655440000 })
    );
    assert_eq!(
        resolve_session_id(&Vec::new(), text),
        Ok(SessionId { bits: 0x550e8400e29b41d4a716446655440000 })
    );
}

#[test]
fn resolve_by_name_takes_the_latest() {
    let sessions = vec![
        rec(1, 10, Some("work"), "t", "c"),
        rec(2, 30, Some("work"), "t", "c"),
        rec(3, 50, Some("play"), "t", "c"),
        rec(4, 30, Some("work"), "t", "c"),
        rec(5, 20, Some("work"), "t", "c"),
        rec(6, 99, None, "t", "c"),
    ];
    assert_eq!(resolve_session_id(&sessions, "work"), Ok(SessionId { bits: 4 }));
    assert_eq!(resolve_session_id(&sessions, "play"), Ok(SessionId { bits: 3 }));
    assert_eq!(find_latest_named(&sessions, "work").map(|s| s.id.bits), Some(4));
    assert!(find_latest_named(&sessions, "none").is_none());
}

#[test]
fn resolve_unknown_name_fails() {
    let sessions = vec![rec(1, 10, Some("work"), "t", "c")];
    assert_eq!(resolve_session_id(&sessions, "Work"), Err(AttachError::NoSuchSession));
    assert_eq!(resolve_session_id(&Vec::new(), "work"), Err(AttachError::NoSuchSession));
    assert_eq!(resolve_parsed(None, &sessions, "x"), Err(AttachError::NoSuchSession));
    assert_eq!(
        resolve_parsed(Some(SessionId { bits: 9 }), &sessions, "work"),
        Ok(SessionId { bits: 9 })
    );
}

#[test]
fn history_limit_defaults_to_ten() {
    let mut config = AppConfig { tasks: Vec::new(), history_limit: None, ui: None, keys: None };
    assert_eq!(load_history_limit(&config), 10);
    config.history_limit = Some(3);
    assert_eq!(load_history_limit(&config), 3);
    config.history_limit = Some(0);
    assert_eq!(load_history_limit(&config), 0);
}

#[test]
fn session_without_socket_is_not_attachable_yet() {
    let mut info = rec(1, 1, None, "t", "c");
    assert_eq!(attach_socket(&info), Err(AttachError::NotAttachableYet));
    info.mark_running(9, "/run/attach.sock".to_string());
    assert_eq!(attach_socket(&info), Ok("/run/attach.sock".to_string()));
}

#[test]
fn attach_errors_in_words() {
    assert_eq!(AttachError::NoSuchSession.message("work"), "no active session named 'work'");
    assert_eq!(AttachError::NotAttachableYet.message("work"), "session is not attachable yet");
}
