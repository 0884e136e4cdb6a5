use my_bevy_game::net_sim::{
    SimBuffer, BASE_DELAY_NANOS, DELAY_SPREAD_NANOS, INPUT_LEG_SEED, POSITION_LEG_SEED,
};
use my_bevy_game::replication::type_ids;
use my_bevy_game::replication::{
    should_send_change, DeltaCounts, DeltaKind, ReplicationDelta, ReplicationOutbox, ServerEntity,
};

#[test]
fn delay_draws_follow_the_stream() {
    let mut b: SimBuffer<u8> = SimBuffer::new(INPUT_LEG_SEED);
    assert_eq!(b.next_delay_nanos(), 92_262_588);
    assert_eq!(b.next_delay_nanos(), 108_574_982);
}

#[test]
fn delays_stay_within_spread() {
    let mut b: SimBuffer<u8> = SimBuffer::new(POSITION_LEG_SEED);
    for _ in 0..1000 {
        let d = b.next_delay_nanos();
        assert!(d >= BASE_DELAY_NANOS - DELAY_SPREAD_NANOS);
        assert!(d < BASE_DELAY_NANOS + DELAY_SPREAD_NANOS);
    }
}

#[test]
fn prefix_release_stops_at_first_pending() {
    let mut b: SimBuffer<u32> = SimBuffer::new(INPUT_LEG_SEED);
    b.enqueue(0, 1); // due at 92_262_588
    b.enqueue(0, 2); // due at 108_574_982
    b.enqueue(0, 3);
    assert_eq!(b.len(), 3);
    assert!(b.release_due_prefix(50_000_000).is_empty());
    assert_eq!(b.release_due_prefix(100_000_000), vec![1]);
    assert_eq!(b.len(), 2);
    assert_eq!(b.release_due_prefix(1_000_000_000), vec![2, 3]);
    assert_eq!(b.len(), 0);
}

#[test]
fn release_all_due_takes_ready_entries_anywhere() {
    let mut b: SimBuffer<u32> = SimBuffer::new(INPUT_LEG_SEED);
    b.enqueue(50_000_000, 1); // due at 142_262_588
    b.enqueue(0, 2); // due at 108_574_982
    b.enqueue(900_000_000, 3);
    // The prefix rule would release nothing at 120 ms; the all-due rule
    // releases the second entry.
    assert_eq!(b.release_all_due(120_000_000), vec![2]);
    assert_eq!(b.len(), 2);
    assert_eq!(b.release_all_due(200_000_000), vec![1]);
    assert_eq!(b.release_all_due(u64::MAX), vec![3]);
    assert_eq!(b.len(), 0);
}

#[test]
fn enqueue_near_clock_end_saturates() {
    let mut b: SimBuffer<u32> = SimBuffer::new(INPUT_LEG_SEED);
    b.enqueue(u64::MAX - 5, 7);
    assert!(b.release_due_prefix(u64::MAX - 6).is_empty());
    assert_eq!(b.release_due_prefix(u64::MAX), vec![7]);
}

#[test]
fn outbox_push_len_clear() {
    let mut o = ReplicationOutbox::default();
    assert!(o.is_empty());
    o.push(ReplicationDelta::Spawn { entity: ServerEntity(7) }, Some(vec![1, 2]));
    o.push(ReplicationDelta::Despawn { entity: ServerEntity(7) }, None);
    assert_eq!(o.len(), 2);
    assert_eq!(o.audiences.len(), 2);
    assert_eq!(o.audiences[0], Some(vec![1, 2]));
    o.clear();
    assert_eq!(o.len(), 0);
    assert!(o.audiences.is_empty());
    assert!(o.is_empty());
}

#[test]
fn outbox_collects_in_order_with_audiences() {
    let mut o = ReplicationOutbox::new();
    o.collect_spawned(vec![(ServerEntity(1), None), (ServerEntity(2), Some(vec![9]))]);
    o.push_upsert(ServerEntity(1), type_ids::TRANSFORM, Some(vec![1, 2, 3]), None);
    o.push_upsert(ServerEntity(2), type_ids::FACING, None, Some(vec![9]));
    o.record_removal(ServerEntity(1), type_ids::FACING, true);
    o.record_removal(ServerEntity(3), type_ids::FACING, false);
    o.collect_despawned(&vec![ServerEntity(4)]);
    assert_eq!(o.len(), 5);
    assert_eq!(o.audiences.len(), 5);
    assert!(matches!(o.deltas[0], ReplicationDelta::Spawn { entity: ServerEntity(1) }));
    assert!(matches!(o.deltas[1], ReplicationDelta::Spawn { entity: ServerEntity(2) }));
    match &o.deltas[2] {
        ReplicationDelta::Upsert { entity, type_id, bytes } => {
            assert_eq!(*entity, ServerEntity(1));
            assert_eq!(*type_id, 3);
            assert_eq!(bytes, &vec![1, 2, 3]);
        }
        other => panic!("unexpected {:?}", other),
    }
    assert!(matches!(o.deltas[3], ReplicationDelta::Remove { entity: ServerEntity(1), type_id: 2 }));
    assert!(matches!(o.deltas[4], ReplicationDelta::Despawn { entity: ServerEntity(4) }));
    assert_eq!(o.audiences[1], Some(vec![9]));
    assert_eq!(o.audiences[3], None);
    assert_eq!(o.audiences[4], None);
    assert_eq!(
        o.delta_counts(),
        DeltaCounts { spawn: 2, upsert: 1, remove: 1, despawn: 1 }
    );
    assert_eq!(o.deltas[2].kind(), DeltaKind::Upsert);
}

#[test]
fn change_sent_only_when_changed_and_not_added() {
    assert!(should_send_change(true, false));
    assert!(!should_send_change(true, true));
    assert!(!should_send_change(false, false));
    assert!(!should_send_change(false, true));
}

#[test]
fn wire_ids_are_stable() {
    assert_eq!(type_ids::PLAYER, 1);
    assert_eq!(type_ids::FACING, 2);
    assert_eq!(type_ids::TRANSFORM, 3);
}
