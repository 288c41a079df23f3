use queue_calling_system::queue::{format_identifier, QueueManager, Timestamp};

#[test]
fn test_format_identifier_logic() {
    assert_eq!(format_identifier("A1"), "A01", "Should pad single digit 'A1' to 'A01'");
    assert_eq!(format_identifier("a1"), "A01", "Should uppercase and pad 'a1' to 'A01'");
    assert_eq!(format_identifier("B10"), "B10", "Should not pad multi-digit 'B10'");
    assert_eq!(format_identifier(""), "", "Should return empty string for empty input");
    // Additional tests for robustness:
    assert_eq!(format_identifier("Z9"), "Z09", "Should pad single digit 'Z9' to 'Z09'");
    assert_eq!(format_identifier("c123"), "C123", "Should uppercase and not pad 'c123'");
}

#[test]
fn format_identifier_leaves_other_shapes_unpadded() {
    assert_eq!(format_identifier("a"), "A");
    assert_eq!(format_identifier("ab"), "Ab");
    assert_eq!(format_identifier("a+"), "A+");
    assert_eq!(format_identifier("1"), "1");
    assert_eq!(format_identifier("x\u{0663}"), "X\u{0663}");
}

#[test]
fn test_add_call_sequence_t1_to_t4_behavior_and_uniqueness() {
    let mut manager = QueueManager::new(2, 2); // Small history sizes for easier testing

    // T1: Initial state check
    assert!(manager.get_current_call().is_none(), "Initially, current_call should be None");
    assert!(
        manager.get_completed_history().is_empty(),
        "Initially, completed_history should be empty"
    );
    assert!(
        manager.get_skipped_history().is_empty(),
        "Initially, skipped_history should be empty"
    );

    // T2: Add Call A100, 4
    manager.add_call("A100".to_string(), "4".to_string());
    let current = manager.get_current_call().expect("A100 should be current call");
    assert_eq!(current.original_id, "A100", "Current call original ID should be A100");
    assert!(
        manager.get_completed_history().is_empty(),
        "Completed history should be empty after first call"
    );
    assert!(manager.get_skipped_history().is_empty(), "Skipped history should be empty");

    // T3: Add Call A101, 4 (A100 should move to completed)
    manager.add_call("A101".to_string(), "4".to_string());
    let current = manager.get_current_call().expect("A101 should be current call");
    assert_eq!(current.original_id, "A101", "Current call original ID should be A101");
    let completed = manager.get_completed_history();
    assert_eq!(completed.len(), 1, "Completed history should have 1 call");
    assert_eq!(completed[0].original_id, "A100", "The first completed call should be A100");
    assert!(manager.get_skipped_history().is_empty(), "Skipped history should still be empty");

    // T4: Add Call A102, 4 (A101 should move to completed, A100 stays)
    manager.add_call("A102".to_string(), "4".to_string());
    let current = manager.get_current_call().expect("A102 should be current call");
    assert_eq!(current.original_id, "A102", "Current call original ID should be A102");
    let completed = manager.get_completed_history();
    assert_eq!(completed.len(), 2, "Completed history should have 2 calls");
    assert_eq!(completed[0].original_id, "A100", "First completed call should remain A100");
    assert_eq!(completed[1].original_id, "A101", "Second completed call should be A101");
    assert!(manager.get_skipped_history().is_empty(), "Skipped history should still be empty");

    // T5: Re-add A100 with new location (A100 should be removed from completed and become current)
    manager.add_call("A100".to_string(), "new_loc_for_A100".to_string());
    let current = manager.get_current_call().expect("A100 should now be the current call");
    assert_eq!(current.original_id, "A100", "Current call original ID should be A100 after re-add");
    assert_eq!(current.location, "new_loc_for_A100", "Location for A100 should be updated");
    let completed = manager.get_completed_history(); // Expected: A102 (prev current) -> A101
    assert_eq!(completed.len(), 2, "Completed history should still have 2 calls"); // A102 and A101 are there
    assert!(
        completed.iter().find(|c| c.original_id == "A100").is_none(),
        "A100 should no longer be in completed history"
    );
    assert_eq!(
        completed
            .iter()
            .find(|c| c.original_id == "A102")
            .expect("A102 should be in completed history")
            .original_id,
        "A102"
    );
    assert_eq!(
        completed
            .iter()
            .find(|c| c.original_id == "A101")
            .expect("A101 should be in completed history")
            .original_id,
        "A101"
    );

    assert!(manager.get_skipped_history().is_empty(), "Skipped history should remain empty");
}

#[test]
fn test_skip_current_call_uniqueness() {
    let mut manager = QueueManager::new(1, 1); // Small histories for easier testing

    manager.add_call("S1".to_string(), "1".to_string()); // S1 becomes current
    manager.add_call("S2".to_string(), "2".to_string()); // S2 becomes current, S1 to completed

    assert_eq!(manager.get_current_call().expect("S2 should be current").original_id, "S2");
    assert_eq!(
        manager.get_completed_history().front().expect("S1 should be in completed").original_id,
        "S1"
    );
    assert!(manager.get_skipped_history().is_empty(), "Skipped history should be empty initially");

    manager.skip_current_call(); // S2 should move to skipped history
    assert!(manager.get_current_call().is_none(), "Current call should be None after skipping");
    assert_eq!(
        manager.get_skipped_history().front().expect("S2 should be in skipped history").original_id,
        "S2"
    );
    assert_eq!(
        manager
            .get_completed_history()
            .front()
            .expect("S1 should still be in completed history")
            .original_id,
        "S1"
    ); // S1 remains
}

#[test]
fn test_add_to_skipped_directly_t5_and_uniqueness() {
    let mut manager = QueueManager::new(2, 2); // Small history sizes for easier testing

    manager.add_call("A100".to_string(), "4".to_string()); // A100
    manager.add_call("A101".to_string(), "4".to_string()); // A101 current, A100 completed
    manager.add_call("A102".to_string(), "4".to_string()); // A102 current, A101 completed, A100 still completed

    assert_eq!(manager.get_current_call().unwrap().original_id, "A102");
    assert_eq!(manager.get_completed_history().len(), 2); // A100, A101 (oldest to newest)
    assert_eq!(manager.get_completed_history().front().unwrap().original_id, "A100");
    assert_eq!(manager.get_completed_history().back().unwrap().original_id, "A101");
    assert!(manager.get_skipped_history().is_empty());

    manager.add_to_skipped_directly("A104".to_string(), "4".to_string());
    assert_eq!(
        manager.get_current_call().unwrap().original_id,
        "A102",
        "Current call should remain A102"
    );
    assert_eq!(manager.get_completed_history().len(), 2, "Completed history should remain 2"); // A100, A101
    let skipped = manager.get_skipped_history();
    assert_eq!(skipped.len(), 1, "Skipped history should have 1 call");
    assert_eq!(skipped[0].original_id, "A104", "The skipped call should be A104");

    manager.add_to_skipped_directly("A102".to_string(), "new_loc_A102".to_string());
    assert!(
        manager.get_current_call().is_none(),
        "Current call should be None after A102 moved to skipped"
    );
    let skipped = manager.get_skipped_history();
    assert_eq!(skipped.len(), 2, "Skipped history should now have 2 calls");
    assert!(
        skipped.iter().any(|c| c.original_id == "A102" && c.location == "new_loc_A102"),
        "A102 should be in skipped with updated location"
    );
    assert!(skipped.iter().any(|c| c.original_id == "A104"), "A104 should still be in skipped");

    manager.add_call("C1".to_string(), "1".to_string());
    manager.add_to_skipped_directly("A100".to_string(), "new_loc_A100".to_string());
    // A100 should be removed from completed history and added to skipped history.
    assert_eq!(
        manager.get_completed_history().iter().find(|c| c.original_id == "A100"),
        None,
        "A100 should no longer be in completed history"
    );
    let skipped = manager.get_skipped_history();
    assert!(
        skipped.iter().any(|c| c.original_id == "A100" && c.location == "new_loc_A100"),
        "A100 should be in skipped with updated location"
    );
    assert_eq!(skipped.len(), 2, "Skipped history should respect the configured max size");
    assert!(
        skipped.iter().any(|c| c.original_id == "A102"),
        "A102 should remain in skipped history"
    );
    assert!(
        skipped.iter().any(|c| c.original_id == "A100"),
        "A100 should be in skipped history after direct add"
    );
    assert!(
        skipped.iter().all(|c| c.original_id != "A104"),
        "A104 should have been pruned once the max size was exceeded"
    );
}

#[test]
fn calls_are_stamped_with_the_time_given() {
    let mut manager = QueueManager::new(2, 2);
    let t1 = Timestamp { secs: 1_700_000_000, nanos: 5 };
    let t2 = Timestamp { secs: 1_700_000_100, nanos: 6 };
    let t3 = Timestamp { secs: 1_700_000_200, nanos: 7 };
    let added = manager.add_call_at("a1".to_string(), "4".to_string(), t1).unwrap().clone();
    assert_eq!(added.id, "A01");
    assert_eq!(added.original_id, "a1");
    assert_eq!(added.location, "4");
    assert_eq!(added.timestamp, t1);
    let completed = manager.complete_current_call_at(t2).unwrap();
    assert_eq!(completed.id, "A01");
    assert_eq!(completed.timestamp, t2);
    assert_eq!(manager.get_completed_history().len(), 1);
    assert_eq!(manager.get_completed_history()[0].timestamp, t2);
    assert!(manager.get_current_call().is_none());
    assert!(manager.complete_current_call_at(t3).is_none());
    assert!(manager.skip_current_call_at(t3).is_none());
    // Calling A1 again takes it out of the completed calls.
    manager.add_call_at("A1".to_string(), "5".to_string(), t3);
    assert!(manager.get_completed_history().is_empty());
    assert_eq!(manager.get_current_call().unwrap().location, "5");
    assert_eq!(manager.get_current_call().unwrap().timestamp, t3);
}

#[test]
fn the_clock_gives_a_time_of_this_century() {
    let mut manager = QueueManager::new(1, 1);
    let stamped = manager.add_call("A1".to_string(), "4".to_string()).unwrap().timestamp;
    // After the start of 2020 and before the year 3000.
    assert!(stamped.secs > 1_577_836_800);
    assert!(stamped.secs < 32_503_680_000);
    assert!(stamped.nanos < 2_000_000_000);
}

#[test]
fn histories_keep_the_newest_calls() {
    let mut manager = QueueManager::new(2, 1);
    let now = Timestamp { secs: 10, nanos: 0 };
    for id in ["A1", "A2", "A3", "A4", "A5"] {
        manager.add_call_at(id.to_string(), "1".to_string(), now);
    }
    let completed: Vec<String> =
        manager.get_completed_history().iter().map(|c| c.id.clone()).collect();
    assert_eq!(completed, vec!["A03", "A04"]);
    manager.skip_current_call_at(now);
    manager.add_to_skipped_directly_at("B7".to_string(), "2".to_string(), now);
    let skipped: Vec<String> = manager.get_skipped_history().iter().map(|c| c.id.clone()).collect();
    assert_eq!(skipped, vec!["B07"]);
    let state = manager.snapshot();
    assert!(state.current_call.is_none());
    assert_eq!(state.completed_history.len(), 2);
    assert_eq!(state.skipped_history.len(), 1);
}

#[test]
fn histories_of_size_zero_keep_nothing() {
    let mut manager = QueueManager::new(0, 0);
    let now = Timestamp { secs: 10, nanos: 0 };
    manager.add_call_at("A1".to_string(), "1".to_string(), now);
    manager.add_call_at("A2".to_string(), "1".to_string(), now);
    assert!(manager.get_completed_history().is_empty());
    manager.skip_current_call_at(now);
    assert!(manager.get_skipped_history().is_empty());
    assert!(manager.remove_call_from_all_queues("A02").is_none());
}
