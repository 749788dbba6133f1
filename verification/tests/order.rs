use cmdhub::ids::SessionId;
use cmdhub::order::sort_stably;
use cmdhub::session::SessionInfo;

#[test]
fn numbers_sort_in_rising_order() {
    assert_eq!(sort_stably(vec![5u32, 1, 4, 1, 0, 9, 4]), vec![0, 1, 1, 4, 4, 5, 9]);
    assert_eq!(sort_stably(Vec::<u32>::new()), Vec::<u32>::new());
    assert_eq!(sort_stably(vec![7u32]), vec![7]);
    let mut want: Vec<u32> = (0..200).map(|k| (k * 7919) % 101).collect();
    let got = sort_stably(want.clone());
    want.sort();
    assert_eq!(got, want);
}

#[test]
fn running_pids_are_recorded_in_rising_order() {
    let mut s = SessionInfo::pending(
        SessionId { bits: 1 },
        1,
        "t".to_string(),
        "T".to_string(),
        None,
        "c".to_string(),
        None,
        None,
        false,
    );
    s.set_running_pids(&vec![Some(30), None, Some(10), Some(20), None, Some(10)]);
    assert_eq!(s.running_task_pids, vec![10, 10, 20, 30]);
    s.set_running_pids(&Vec::new());
    assert!(s.running_task_pids.is_empty());
    s.set_runner(44);
    assert_eq!(s.runner_pid, Some(44));
    assert_eq!(s.task_id, "t");
}
