use cmdhub::clock::now_epoch;
use cmdhub::instance::{
    apply_cmdhub_title, apply_cmdhub_title_at, is_cmdhub_title, InstanceInfo, InstanceStatus,
};
use cmdhub::osc::OscParser;

fn info() -> InstanceInfo {
    InstanceInfo {
        id: "build#1".to_string(),
        task_id: "build".to_string(),
        task_name: "Build".to_string(),
        status: InstanceStatus::Running,
        started_at: 100,
        ended_at: None,
        child_pid: Some(41),
        title: Some("old".to_string()),
    }
}

#[test]
fn exited_message_sets_status_and_end_time() {
    let mut i = info();
    assert!(apply_cmdhub_title_at("CMDHUB:state=exited;code=7", &mut i, 555));
    assert_eq!(i.status, InstanceStatus::Exited(7));
    assert_eq!(i.ended_at, Some(555));
    assert_eq!(i.child_pid, Some(41));
    assert_eq!(i.title, Some("old".to_string()));
    assert_eq!(i.id, "build#1");
}

#[test]
fn exited_without_code_is_code_zero() {
    let mut i = info();
    assert!(apply_cmdhub_title_at("CMDHUB:state=exited", &mut i, 9));
    assert_eq!(i.status, InstanceStatus::Exited(0));
    let mut j = info();
    assert!(apply_cmdhub_title_at("CMDHUB:state=exited;code=abc", &mut j, 9));
    assert_eq!(j.status, InstanceStatus::Exited(0));
    let mut k = info();
    assert!(apply_cmdhub_title_at("CMDHUB:code=3;state=exited;code=", &mut k, 9));
    assert_eq!(k.status, InstanceStatus::Exited(0));
}

#[test]
fn running_message_revives_and_adopts_pid() {
    let mut i = info();
    i.status = InstanceStatus::Exited(1);
    i.ended_at = Some(300);
    assert!(apply_cmdhub_title_at("CMDHUB:state=running;pid=1234", &mut i, 400));
    assert_eq!(i.status, InstanceStatus::Running);
    assert_eq!(i.ended_at, None);
    assert_eq!(i.child_pid, Some(1234));
}

#[test]
fn running_message_without_pid_keeps_pid() {
    let mut i = info();
    i.status = InstanceStatus::Error("gone".to_string());
    i.ended_at = Some(300);
    assert!(apply_cmdhub_title_at("CMDHUB:state=running", &mut i, 400));
    assert_eq!(i.status, InstanceStatus::Running);
    assert_eq!(i.ended_at, None);
    assert_eq!(i.child_pid, Some(41));
    let mut j = info();
    assert!(apply_cmdhub_title_at("CMDHUB:state=running;pid=-", &mut j, 400));
    assert_eq!(j.child_pid, Some(41));
}

#[test]
fn message_is_trimmed_and_pairs_too() {
    let mut i = info();
    assert!(apply_cmdhub_title_at("  CMDHUB: state = exited ; code = 12 ;;x=y;z \t", &mut i, 1));
    assert_eq!(i.status, InstanceStatus::Exited(12));
    assert_eq!(i.ended_at, Some(1));
}

#[test]
fn last_state_wins() {
    let mut i = info();
    assert!(apply_cmdhub_title_at("CMDHUB:state=exited;code=2;state=running", &mut i, 1));
    assert_eq!(i.status, InstanceStatus::Running);
    assert_eq!(i.ended_at, None);
}

#[test]
fn unknown_or_missing_state_changes_nothing() {
    for title in [
        "CMDHUB:",
        "CMDHUB:state=paused;code=3",
        "CMDHUB:pid=9;code=1",
        "CMDHUB:state",
        "CMDHUB:STATE=exited",
        "CMDHUB:state=Exited",
        "hello world",
        "cmdhub:state=exited",
        "x CMDHUB:state=exited",
        "",
    ] {
        let mut i = info();
        assert!(!apply_cmdhub_title_at(title, &mut i, 77), "{:?}", title);
        assert_eq!(i.status, InstanceStatus::Running);
        assert_eq!(i.ended_at, None);
        assert_eq!(i.child_pid, Some(41));
        assert_eq!(i.title, Some("old".to_string()));
    }
}

#[test]
fn shell_messages_are_told_from_titles() {
    assert!(is_cmdhub_title("CMDHUB:state=exited"));
    assert!(is_cmdhub_title("  CMDHUB:"));
    assert!(!is_cmdhub_title("hello world"));
    assert!(!is_cmdhub_title("CMDHUB"));
}

#[test]
fn exit_is_stamped_with_the_clock() {
    let before = now_epoch();
    let mut i = info();
    assert!(apply_cmdhub_title("CMDHUB:state=exited;code=7", &mut i));
    let after = now_epoch();
    assert_eq!(i.status, InstanceStatus::Exited(7));
    let stamp = i.ended_at.unwrap();
    assert!(before <= stamp && stamp <= after);
    assert!(stamp > 1_600_000_000);
}

#[test]
fn scanner_then_message_sets_exited_seven() {
    let mut p = OscParser::new();
    let mut titles = Vec::new();
    p.collect_titles(b"\x1b]0;CMDHUB:state=exited;code=7\x07", &mut titles);
    assert_eq!(titles.len(), 1);
    let mut i = info();
    assert!(apply_cmdhub_title(&titles[0], &mut i));
    assert_eq!(i.status, InstanceStatus::Exited(7));
    assert!(i.ended_at.is_some());
    assert!(i.ended_at.unwrap() > 0);
}

#[test]
fn duplicate_copies_every_field() {
    let i = info();
    let d = i.duplicate();
    assert_eq!(d.id, i.id);
    assert_eq!(d.task_id, i.task_id);
    assert_eq!(d.task_name, i.task_name);
    assert_eq!(d.status, i.status);
    assert_eq!(d.started_at, i.started_at);
    assert_eq!(d.ended_at, i.ended_at);
    assert_eq!(d.child_pid, i.child_pid);
    assert_eq!(d.title, i.title);
    assert!(!InstanceStatus::Running.ended());
    assert!(InstanceStatus::Exited(0).ended());
    assert!(InstanceStatus::Error("e".to_string()).ended());
    assert_eq!(InstanceStatus::Error("e".to_string()).duplicate(), InstanceStatus::Error("e".to_string()));
}
