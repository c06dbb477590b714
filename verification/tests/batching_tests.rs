use nier::batching::BatchState;

#[test]
fn test_batch_ships_when_full() {
    let mut batch = BatchState::new();
    assert!(!batch.should_ship(3, 100, 0));
    batch.record_frame(0);
    batch.record_frame(1);
    assert!(!batch.should_ship(3, 100, 2));
    batch.record_frame(2);
    assert!(batch.should_ship(3, 100, 2));
    assert_eq!(batch.ship(), 3);
    assert!(!batch.should_ship(3, 100, 2));
}

#[test]
fn test_batch_ships_on_deadline() {
    let mut batch = BatchState::new();
    batch.record_frame(10);
    assert!(!batch.should_ship(8, 100, 50));
    assert!(!batch.should_ship(8, 100, 109));
    assert!(batch.should_ship(8, 100, 110));
}

#[test]
fn test_deadline_anchors_to_first_frame() {
    // later frames do not move the deadline; shipping resets it
    let mut batch = BatchState::new();
    batch.record_frame(10);
    batch.record_frame(90);
    assert_eq!(batch.first_at_ms, Some(10));
    assert!(batch.should_ship(8, 100, 110));
    batch.ship();
    assert_eq!(batch.first_at_ms, None);
    batch.record_frame(200);
    assert_eq!(batch.first_at_ms, Some(200));
    assert!(!batch.should_ship(8, 100, 250));
}
