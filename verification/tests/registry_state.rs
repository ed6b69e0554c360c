//! The process registry: registration, the duplicate-instance guard,
//! exit marking and liveness bookkeeping.
use launchcore::registry::InstanceRegistry;

#[test]
fn registered_instances_are_found_running() {
    let mut reg = InstanceRegistry::new();
    reg.register_at(100, "1.20.1".to_string(), "Steve".to_string(), 5);
    assert_eq!(reg.len(), 1);
    let inst = reg.get(100).unwrap();
    assert_eq!(inst.version_id, "1.20.1");
    assert_eq!(inst.account_username, "Steve");
    assert_eq!(inst.start_time, 5);
    assert!(!inst.exited);
    assert!(inst.exit_code.is_none());
    assert_eq!(reg.find_running(&"1.20.1".to_string()), Some(100));
    assert_eq!(reg.find_running(&"other".to_string()), None);
}

#[test]
fn register_stamps_a_time_itself() {
    let mut reg = InstanceRegistry::new();
    reg.register(7, "v".to_string(), "alex".to_string());
    assert!(reg.get(7).is_some());
}

#[test]
fn exited_instances_no_longer_guard_their_version() {
    let mut reg = InstanceRegistry::new();
    reg.register_at(1, "v".to_string(), "a".to_string(), 0);
    reg.mark_exited(1, Some(0));
    assert_eq!(reg.find_running(&"v".to_string()), None);
    let inst = reg.get(1).unwrap();
    assert!(inst.exited);
    assert_eq!(inst.exit_code, Some(0));
}

#[test]
fn the_first_running_instance_wins_the_guard() {
    let mut reg = InstanceRegistry::new();
    reg.register_at(1, "v".to_string(), "a".to_string(), 0);
    reg.register_at(2, "v".to_string(), "a".to_string(), 1);
    assert_eq!(reg.find_running(&"v".to_string()), Some(1));
    reg.mark_exited(1, Some(0));
    assert_eq!(reg.find_running(&"v".to_string()), Some(2));
}

#[test]
fn a_poll_without_a_code_keeps_the_stored_one() {
    let mut reg = InstanceRegistry::new();
    reg.register_at(1, "v".to_string(), "a".to_string(), 0);
    // the authoritative wait stores the code first
    reg.mark_exited(1, Some(3));
    // a later liveness poll reports only that the process is gone
    reg.mark_exited(1, None);
    assert_eq!(reg.get(1).unwrap().exit_code, Some(3));
}

#[test]
fn marking_an_unknown_pid_changes_nothing() {
    let mut reg = InstanceRegistry::new();
    reg.register_at(1, "v".to_string(), "a".to_string(), 0);
    reg.mark_exited(99, Some(1));
    assert!(!reg.get(1).unwrap().exited);
    assert!(reg.get(99).is_none());
}

#[test]
fn active_pids_track_exits() {
    let mut reg = InstanceRegistry::new();
    reg.register_at(1, "a".to_string(), "u".to_string(), 0);
    reg.register_at(2, "b".to_string(), "u".to_string(), 0);
    reg.register_at(3, "c".to_string(), "u".to_string(), 0);
    assert_eq!(reg.active_pids(), vec![1, 2, 3]);
    assert_eq!(reg.running_count(), 3);
    reg.mark_exited(2, None);
    assert_eq!(reg.active_pids(), vec![1, 3]);
    assert_eq!(reg.running_count(), 2);
    // records are never removed, only marked
    assert_eq!(reg.len(), 3);
}
