use ops_core::command_results::{CommandResult, CommandResultsManager, CommandStatus};
use ops_core::model::Timestamp;

fn result_at(id: &str, client: &str, secs: u64, output: &str) -> CommandResult {
    CommandResult {
        command_id: id.to_string(),
        client_id: client.to_string(),
        command: "ls".to_string(),
        output: output.to_string(),
        error_output: String::new(),
        exit_code: 0,
        executed_at: Timestamp::from_secs(secs),
        received_at: Timestamp::from_secs(secs),
    }
}

#[test]
fn command_lifecycle() {
    let mut mgr = CommandResultsManager::new(10);
    let now = Timestamp::from_secs(1000);
    let id = mgr.create_command("a1".to_string(), "ls -la".to_string(), now);
    assert_eq!(id.len(), 36);
    assert!(matches!(mgr.get_command_status(&id), Some(CommandStatus::Pending)));

    assert!(mgr.mark_executing(&id));
    assert!(matches!(mgr.get_command_status(&id), Some(CommandStatus::Executing)));
    assert!(!mgr.mark_executing("missing"));

    mgr.store_result(result_at(&id, "a1", 1010, "out"));
    match mgr.get_command_status(&id) {
        Some(CommandStatus::Completed(r)) => assert_eq!(r.output, "out"),
        other => panic!("expected Completed, got {:?}", other),
    }
    // The id now lives in exactly one store.
    let (pending, completed) = mgr.get_stats();
    assert_eq!((pending, completed), (0, 1));
    assert!(mgr.get_result(&id).is_some());
}

#[test]
fn mark_executing_twice_equals_once() {
    let mut mgr = CommandResultsManager::new(10);
    let now = Timestamp::from_secs(1000);
    let id = mgr.create_command("a1".to_string(), "ls".to_string(), now);
    assert!(mgr.mark_executing(&id));
    assert!(mgr.mark_executing(&id));
    assert!(matches!(mgr.get_command_status(&id), Some(CommandStatus::Executing)));
    assert_eq!(mgr.get_stats(), (1, 0));
}

#[test]
fn store_result_twice_keeps_last_value() {
    let mut mgr = CommandResultsManager::new(10);
    mgr.store_result(result_at("c1", "a1", 1000, "first"));
    mgr.store_result(result_at("c1", "a1", 1001, "second"));
    let (_, completed) = mgr.get_stats();
    assert_eq!(completed, 1);
    assert_eq!(mgr.get_result("c1").unwrap().output, "second");
}

#[test]
fn completed_capacity_evicts_oldest() {
    let mut mgr = CommandResultsManager::new(3);
    mgr.store_result(result_at("c1", "a1", 1005, "x"));
    mgr.store_result(result_at("c2", "a1", 1001, "x"));
    mgr.store_result(result_at("c3", "a1", 1009, "x"));
    assert_eq!(mgr.get_stats().1, 3);

    // The store is full: the entry with the smallest received_at leaves.
    mgr.store_result(result_at("c4", "a1", 1002, "x"));
    assert_eq!(mgr.get_stats().1, 3);
    assert!(mgr.get_result("c2").is_none());
    assert!(mgr.get_result("c1").is_some());
    assert!(mgr.get_result("c3").is_some());
    assert!(mgr.get_result("c4").is_some());
}

#[test]
fn eviction_tie_breaks_on_command_id() {
    let mut mgr = CommandResultsManager::new(2);
    mgr.store_result(result_at("bbb", "a1", 1000, "x"));
    mgr.store_result(result_at("aaa", "a1", 1000, "x"));
    mgr.store_result(result_at("ccc", "a1", 2000, "x"));
    // Equal stamps: the lexicographically smaller id leaves first.
    assert!(mgr.get_result("aaa").is_none());
    assert!(mgr.get_result("bbb").is_some());
    assert!(mgr.get_result("ccc").is_some());
}

#[test]
fn client_results_sorted_newest_first() {
    let mut mgr = CommandResultsManager::new(10);
    mgr.store_result(result_at("c1", "a1", 1000, "x"));
    mgr.store_result(result_at("c2", "a2", 3000, "x"));
    mgr.store_result(result_at("c3", "a1", 2000, "x"));
    mgr.store_result(result_at("c4", "a1", 1500, "x"));

    let rs = mgr.get_client_results("a1", 10);
    let ids: Vec<&str> = rs.iter().map(|r| r.command_id.as_str()).collect();
    assert_eq!(ids, vec!["c3", "c4", "c1"]);

    let rs = mgr.get_client_results("a1", 2);
    assert_eq!(rs.len(), 2);
    assert_eq!(rs[0].command_id, "c3");

    assert!(mgr.get_client_results("nobody", 10).is_empty());
}

#[test]
fn pending_commands_age_out() {
    let mut mgr = CommandResultsManager::new(10);
    let t0 = Timestamp::from_secs(1000);
    let id = mgr.create_command("a1".to_string(), "ls".to_string(), t0);
    mgr.mark_executing(&id);

    mgr.cleanup_expired_commands(30, Timestamp::from_secs(1010));
    assert_eq!(mgr.get_stats().0, 1);

    mgr.cleanup_expired_commands(30, Timestamp::from_secs(1035));
    assert_eq!(mgr.get_stats().0, 0);
    assert!(mgr.get_command_status(&id).is_none());
}
