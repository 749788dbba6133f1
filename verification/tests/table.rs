use cmdhub::instance::InstanceStatus;
use cmdhub::models::Task;
use cmdhub::table::{next_number, InstanceError, SessionManager, Termination};

fn task(id: &str) -> Task {
    Task {
        id: id.to_string(),
        name: format!("Task {}", id),
        command: "true".to_string(),
        category: None,
        cwd: None,
        env: None,
        env_clear: None,
        inputs: None,
    }
}

type Table = SessionManager<u32, String>;

#[test]
fn new_table_is_empty() {
    let t: Table = SessionManager::new(16);
    assert_eq!(t.len(), 0);
    assert!(t.list_instances().is_empty());
    assert!(!t.contains("a#1"));
    assert_eq!(t.get_status("a#1"), None);
    assert_eq!(t.buffer_snapshot("a#1"), Vec::<u8>::new());
}

#[test]
fn spawn_raw_registers_a_running_instance() {
    let mut t: Table = SessionManager::new(16);
    let info = t.spawn_raw(&task("build"), Some(77), 1, 1000).unwrap();
    assert_eq!(info.id, "build#1");
    assert_eq!(info.task_id, "build");
    assert_eq!(info.task_name, "Task build");
    assert_eq!(info.status, InstanceStatus::Running);
    assert_eq!(info.started_at, 1000);
    assert_eq!(info.ended_at, None);
    assert_eq!(info.child_pid, Some(77));
    assert_eq!(info.title, None);
    assert_eq!(t.len(), 1);
    assert!(t.contains("build#1"));
    assert_eq!(t.get_status("build#1"), Some(InstanceStatus::Running));
    // the lease is with the caller
    assert_eq!(t.take_master("build#1"), None);
}

#[test]
fn instance_ids_count_per_task() {
    let mut t: Table = SessionManager::new(16);
    assert_eq!(t.spawn_raw(&task("a"), None, 1, 1).unwrap().id, "a#1");
    assert_eq!(t.spawn_raw(&task("b"), None, 2, 1).unwrap().id, "b#1");
    assert_eq!(t.spawn_raw(&task("a"), None, 3, 1).unwrap().id, "a#2");
    assert!(t.remove("a#2"));
    assert_eq!(t.spawn_raw(&task("a"), None, 4, 1).unwrap().id, "a#3");
    assert_eq!(t.next_instance_id("a"), Ok("a#4".to_string()));
    assert_eq!(t.next_instance_id("c"), Ok("c#1".to_string()));
    let mut n = 0;
    while n < 8 {
        let _ = t.next_instance_id("a");
        n += 1;
    }
    assert_eq!(t.next_instance_id("a"), Ok("a#13".to_string()));
    let ids: Vec<String> = t.list_instances().into_iter().map(|i| i.id).collect();
    assert_eq!(ids, vec!["a#1".to_string(), "b#1".to_string(), "a#3".to_string()]);
}

#[test]
fn spawn_hands_the_lease_in() {
    let mut t: Table = SessionManager::new(16);
    let info = t.spawn(&task("x"), Some(5), 9, "pty".to_string(), 10).unwrap();
    assert_eq!(info.id, "x#1");
    assert_eq!(t.take_master("x#1"), Some("pty".to_string()));
}

#[test]
fn second_take_gives_none_until_returned() {
    let mut t: Table = SessionManager::new(16);
    t.spawn(&task("x"), None, 9, "lease".to_string(), 10).unwrap();
    assert_eq!(t.take_master("x#1"), Some("lease".to_string()));
    assert_eq!(t.take_master("x#1"), None);
    assert_eq!(t.take_master("x#1"), None);
    t.return_master("x#1", "lease again".to_string());
    assert_eq!(t.take_master("x#1"), Some("lease again".to_string()));
    assert_eq!(t.take_master("x#1"), None);
}

#[test]
fn take_of_unknown_instance_gives_none() {
    let mut t: Table = SessionManager::new(16);
    assert_eq!(t.take_master("nope"), None);
}

#[test]
fn stale_return_is_dropped() {
    let mut t: Table = SessionManager::new(16);
    t.spawn(&task("x"), None, 9, "l".to_string(), 10).unwrap();
    let lease = t.take_master("x#1").unwrap();
    assert!(t.remove("x#1"));
    t.return_master("x#1", lease);
    assert_eq!(t.len(), 0);
    assert_eq!(t.take_master("x#1"), None);
}

#[test]
fn kill_and_remove_unknown_is_a_no_op() {
    let mut t: Table = SessionManager::new(16);
    t.spawn(&task("x"), None, 9, "l".to_string(), 10).unwrap();
    assert_eq!(t.kill_and_remove("y#1"), None);
    assert_eq!(t.len(), 1);
    assert!(t.contains("x#1"));
}

#[test]
fn kill_and_remove_known_hands_out_the_killer_once() {
    let mut t: Table = SessionManager::new(16);
    t.spawn(&task("x"), None, 9, "l".to_string(), 10).unwrap();
    t.spawn(&task("y"), None, 8, "m".to_string(), 10).unwrap();
    assert_eq!(t.kill_and_remove("x#1"), Some(9));
    assert_eq!(t.len(), 1);
    assert!(!t.contains("x#1"));
    assert!(t.contains("y#1"));
    assert_eq!(t.kill_and_remove("x#1"), None);
    assert_eq!(t.len(), 1);
}

#[test]
fn kill_finds_the_handle_or_says_not_found() {
    let mut t: Table = SessionManager::new(16);
    t.spawn(&task("x"), None, 9, "l".to_string(), 10).unwrap();
    assert_eq!(t.kill("x#1"), Ok(&9));
    assert_eq!(t.kill("x#2"), Err(InstanceError::NotFound));
    assert_eq!(t.len(), 1);
}

#[test]
fn remove_says_whether_there_was_one() {
    let mut t: Table = SessionManager::new(16);
    t.spawn(&task("x"), None, 9, "l".to_string(), 10).unwrap();
    assert!(!t.remove("nope"));
    assert!(t.remove("x#1"));
    assert!(!t.remove("x#1"));
}

#[test]
fn output_goes_to_history_and_titles() {
    let mut t: Table = SessionManager::new(8);
    t.spawn(&task("x"), Some(3), 9, "l".to_string(), 10).unwrap();
    t.append_output_at("x#1", b"hi \x1b]2;hello world\x07!", 50);
    let list = t.list_instances();
    assert_eq!(list[0].title, Some("hello world".to_string()));
    assert_eq!(list[0].status, InstanceStatus::Running);
    assert_eq!(list[0].ended_at, None);
    // the history holds the raw bytes, bounded by the capacity
    assert_eq!(t.buffer_snapshot("x#1"), b" world\x07!".to_vec());
}

#[test]
fn shell_message_in_output_sets_exited_seven() {
    let mut t: Table = SessionManager::new(64);
    t.spawn(&task("x"), Some(3), 9, "l".to_string(), 10).unwrap();
    t.append_output_at("x#1", b"\x1b]0;CMDHUB:state=exited;code=7\x07", 99);
    let list = t.list_instances();
    assert_eq!(list[0].status, InstanceStatus::Exited(7));
    assert_eq!(list[0].ended_at, Some(99));
    assert_eq!(list[0].title, None);
    assert_eq!(t.get_status("x#1"), Some(InstanceStatus::Exited(7)));
}

#[test]
fn last_plain_title_of_a_chunk_wins() {
    let mut t: Table = SessionManager::new(64);
    t.spawn(&task("x"), Some(3), 9, "l".to_string(), 10).unwrap();
    t.append_output_at(
        "x#1",
        b"\x1b]0;one\x07\x1b]0;two\x07\x1b]0;CMDHUB:state=running;pid=8\x07",
        99,
    );
    let list = t.list_instances();
    assert_eq!(list[0].title, Some("two".to_string()));
    assert_eq!(list[0].child_pid, Some(8));
    t.append_output_at("x#1", b"\x1b]0;CMDHUB:state=exited\x07", 120);
    let list = t.list_instances();
    assert_eq!(list[0].title, Some("two".to_string()));
    assert_eq!(list[0].status, InstanceStatus::Exited(0));
    assert_eq!(list[0].ended_at, Some(120));
}

#[test]
fn title_split_over_two_chunks() {
    let mut t: Table = SessionManager::new(64);
    t.spawn(&task("x"), None, 9, "l".to_string(), 10).unwrap();
    t.append_output_at("x#1", b"\x1b]2;hel", 1);
    assert_eq!(t.list_instances()[0].title, None);
    t.append_output_at("x#1", b"lo\x07", 2);
    assert_eq!(t.list_instances()[0].title, Some("hello".to_string()));
}

#[test]
fn output_for_unknown_instance_is_ignored() {
    let mut t: Table = SessionManager::new(64);
    t.spawn(&task("x"), None, 9, "l".to_string(), 10).unwrap();
    t.append_output_at("y#1", b"abc", 1);
    t.append_output("y#1", b"abc");
    assert_eq!(t.buffer_snapshot("x#1"), Vec::<u8>::new());
    assert_eq!(t.buffer_snapshot("y#1"), Vec::<u8>::new());
    assert_eq!(t.len(), 1);
}

#[test]
fn output_with_the_clock() {
    let mut t: Table = SessionManager::new(64);
    t.spawn(&task("x"), None, 9, "l".to_string(), 10).unwrap();
    t.append_output("x#1", b"\x1b]0;CMDHUB:state=exited;code=2\x07tail");
    let list = t.list_instances();
    assert_eq!(list[0].status, InstanceStatus::Exited(2));
    assert!(list[0].ended_at.unwrap() > 1_600_000_000);
    assert_eq!(t.buffer_snapshot("x#1").len(), 35);
}

#[test]
fn remove_if_exited_leaves_running_instances() {
    let mut t: Table = SessionManager::new(64);
    t.spawn(&task("x"), None, 9, "l".to_string(), 10).unwrap();
    t.spawn(&task("y"), None, 9, "l".to_string(), 10).unwrap();
    t.spawn(&task("z"), None, 9, "l".to_string(), 10).unwrap();
    assert!(!t.remove_if_exited("x#1"));
    assert!(!t.remove_if_exited("nope"));
    t.record_exit("x#1", Ok(0), 20);
    t.record_exit("z#1", Err("wait failed".to_string()), 21);
    assert_eq!(t.get_status("x#1"), Some(InstanceStatus::Exited(0)));
    assert_eq!(t.get_status("z#1"), Some(InstanceStatus::Error("wait failed".to_string())));
    assert_eq!(t.list_instances()[0].ended_at, Some(20));
    assert!(t.remove_if_exited("x#1"));
    assert_eq!(t.get_status("x#1"), None);
    assert!(!t.remove_if_exited("x#1"));
    assert_eq!(t.get_status("y#1"), Some(InstanceStatus::Running));
    assert!(t.remove_if_exited("z#1"));
    assert_eq!(t.get_status("z#1"), None);
    assert!(!t.remove_if_exited("y#1"));
    assert_eq!(t.len(), 1);
    assert!(t.contains("y#1"));
}

#[test]
fn record_exit_for_unknown_instance_is_ignored() {
    let mut t: Table = SessionManager::new(64);
    t.spawn(&task("x"), None, 9, "l".to_string(), 10).unwrap();
    t.record_exit("nope", Ok(1), 5);
    assert_eq!(t.get_status("x#1"), Some(InstanceStatus::Running));
}

#[test]
fn terminate_all_uses_pid_or_handle() {
    let mut t: Table = SessionManager::new(64);
    t.spawn(&task("x"), Some(500), 9, "l".to_string(), 10).unwrap();
    t.spawn(&task("y"), None, 8, "l".to_string(), 10).unwrap();
    assert_eq!(
        t.terminate_all(15),
        vec![
            Termination::Signal { pid: 500, signal: 15 },
            Termination::Handle { id: "y#1".to_string() },
        ]
    );
    let empty: Table = SessionManager::new(1);
    assert_eq!(empty.terminate_all(2), Vec::<Termination>::new());
}

#[test]
fn instance_numbers_stop_at_the_top() {
    assert_eq!(next_number(0), Ok(1));
    assert_eq!(next_number(41), Ok(42));
    assert_eq!(next_number(u32::MAX - 1), Ok(u32::MAX));
    assert_eq!(next_number(u32::MAX), Err(InstanceError::CounterExhausted));
}
