use seine::block::TunaBlock;
use seine::chain::{
    AssetData, ChainEvent, ChainPoint, MultiassetData, TxData, TxOutputData,
};
use seine::constants::{
    initial_point, tuna_v1_address, tuna_v1_asset_name, tuna_v1_policy, tuna_v2_address,
    tuna_v2_policy,
};
use seine::cursor::Cursor;
use seine::replicate::{
    advance_status, apply_event, plan_event, StorageOp, StreamSignal, SyncStatus,
};
use seine::store::ReplicaStore;
use seine::value::PlutusValue;

fn record(number: u64) -> TunaBlock {
    TunaBlock {
        number,
        current_hash: vec![0xca, 0xfe],
        leading_zeros: 5,
        target_number: 1000,
        epoch_time: 600_000,
        current_posix_time: 1_700_000_000,
        nonce: None,
        credential: None,
        extra_data: None,
    }
}

fn store_with_slots(slots: &[(u64, u64)]) -> ReplicaStore {
    // Each pair is (record number, slot).
    let mut store = ReplicaStore::new();
    for (number, slot) in slots {
        store.apply(record(*number), vec![0x11], *slot, vec![0x22]);
    }
    store
}

fn slots_of(store: &ReplicaStore) -> Vec<(u64, u64)> {
    let mut out = Vec::new();
    let mut i = 0;
    while i < store.len() {
        let row = store.row_at(i);
        out.push((row.record.number, row.slot));
        i += 1;
    }
    out
}

fn v1_state_output(number: i128) -> TxOutputData {
    TxOutputData {
        address: tuna_v1_address(),
        assets: vec![MultiassetData {
            policy_id: tuna_v1_policy(),
            assets: vec![AssetData { name: tuna_v1_asset_name() }],
        }],
        datum: Some(PlutusValue::Constr {
            tag: 0,
            fields: vec![
                Some(PlutusValue::Integer(number)),
                Some(PlutusValue::ByteString(vec![0xca, 0xfe])),
                Some(PlutusValue::Integer(5)),
                Some(PlutusValue::Integer(1000)),
                Some(PlutusValue::Integer(600_000)),
                Some(PlutusValue::Integer(1_700_000_000)),
            ],
        }),
    }
}

fn v2_state_output(number: i128) -> TxOutputData {
    TxOutputData {
        address: tuna_v2_address(),
        assets: vec![MultiassetData {
            policy_id: tuna_v2_policy(),
            assets: vec![AssetData { name: b"TUNA state".to_vec() }],
        }],
        datum: v1_state_output(number).datum,
    }
}

fn apply_block_event(slot: u64, block_hash: Vec<u8>, txs: Vec<TxData>) -> ChainEvent {
    ChainEvent::Apply { header: ChainPoint { slot, hash: block_hash }, txs }
}

#[test]
fn upsert_is_keyed_by_record_number() {
    let mut store = ReplicaStore::new();
    store.apply(record(1), vec![0x01], 100, vec![0xb1]);
    store.apply(record(2), vec![0x02], 101, vec![0xb2]);
    let mut replacement = record(1);
    replacement.leading_zeros = 9;
    store.apply(replacement, vec![0x03], 102, vec![0xb3]);
    assert_eq!(store.len(), 2);
    let row = store.row_at(0);
    assert_eq!(row.record.number, 1);
    assert_eq!(row.record.leading_zeros, 9);
    assert_eq!(row.slot, 102);
    assert_eq!(row.tx_hash, vec![0x03]);
}

#[test]
fn applying_the_same_event_twice_equals_applying_it_once() {
    let tx = TxData { hash: vec![0xaa], inputs: vec![], outputs: vec![v1_state_output(42)] };
    let event = apply_block_event(1000, vec![0xb0], vec![tx]);

    let mut once = store_with_slots(&[(7, 900)]);
    apply_event(&mut once, &event);

    let mut twice = store_with_slots(&[(7, 900)]);
    apply_event(&mut twice, &event);
    apply_event(&mut twice, &event);

    assert_eq!(once.len(), twice.len());
    let mut i = 0;
    while i < once.len() {
        let a = once.row_at(i);
        let b = twice.row_at(i);
        assert_eq!(a.record.number, b.record.number);
        assert_eq!(a.record.current_hash, b.record.current_hash);
        assert_eq!(a.slot, b.slot);
        assert_eq!(a.tx_hash, b.tx_hash);
        assert_eq!(a.block_hash, b.block_hash);
        i += 1;
    }
}

#[test]
fn undo_removes_at_and_after_the_slot() {
    let mut store = store_with_slots(&[(1, 400), (2, 499), (3, 500), (4, 501)]);
    let event = ChainEvent::Undo { header: ChainPoint { slot: 500, hash: vec![0xdd] } };
    let point = apply_event(&mut store, &event);
    assert_eq!(slots_of(&store), vec![(1, 400), (2, 499)]);
    assert_eq!(point.slot, 500);
    assert_eq!(point.hash, vec![0xdd]);
}

#[test]
fn undo_is_repeatable() {
    let mut store = store_with_slots(&[(1, 400), (2, 500)]);
    let event = ChainEvent::Undo { header: ChainPoint { slot: 500, hash: vec![0xdd] } };
    apply_event(&mut store, &event);
    apply_event(&mut store, &event);
    assert_eq!(slots_of(&store), vec![(1, 400)]);
}

#[test]
fn reset_removes_strictly_after_the_point() {
    let mut store = store_with_slots(&[(1, 299), (2, 300), (3, 301)]);
    let event = ChainEvent::Reset { point: ChainPoint { slot: 300, hash: vec![0xee] } };
    let point = apply_event(&mut store, &event);
    assert_eq!(slots_of(&store), vec![(1, 299), (2, 300)]);
    assert_eq!(point.slot, 300);
}

#[test]
fn end_to_end_apply_replicates_one_record_and_advances_the_cursor() {
    let tx = TxData { hash: vec![0x12, 0x34], inputs: vec![], outputs: vec![v1_state_output(42)] };
    let event = apply_block_event(1000, vec![0xb1, 0x0c], vec![tx]);

    let mut store = ReplicaStore::new();
    let mut cursor = Cursor::new();
    let point = apply_event(&mut store, &event);
    cursor.set(point);

    assert_eq!(store.len(), 1);
    let row = store.row_at(0);
    assert_eq!(row.record.number, 42);
    assert!(row.record.nonce.is_none());
    assert!(row.record.credential.is_none());
    assert_eq!(row.tx_hash, vec![0x12, 0x34]);
    assert_eq!(row.slot, 1000);
    assert_eq!(row.block_hash, vec![0xb1, 0x0c]);

    let resumed = cursor.get();
    assert_eq!(resumed.slot, 1000);
    assert_eq!(resumed.hash, vec![0xb1, 0x0c]);
}

#[test]
fn irrelevant_and_malformed_transactions_are_skipped() {
    let plain = TxData {
        hash: vec![0x01],
        inputs: vec![],
        outputs: vec![TxOutputData { address: vec![0x61], assets: vec![], datum: None }],
    };
    let mut malformed_output = v1_state_output(5);
    malformed_output.datum = Some(PlutusValue::Integer(1));
    let malformed = TxData { hash: vec![0x02], inputs: vec![], outputs: vec![malformed_output] };
    let good = TxData { hash: vec![0x03], inputs: vec![], outputs: vec![v1_state_output(6)] };

    let event = apply_block_event(50, vec![0xb2], vec![plain, malformed, good]);
    let plan = plan_event(&event);
    assert_eq!(plan.ops.len(), 1);
    match &plan.ops[0] {
        StorageOp::Upsert(row) => assert_eq!(row.record.number, 6),
        _ => panic!("expected an upsert"),
    }
}

#[test]
fn only_second_generation_records_are_announced() {
    let v1_tx = TxData { hash: vec![0x0a], inputs: vec![], outputs: vec![v1_state_output(20)] };
    let v2_tx = TxData { hash: vec![0x0b], inputs: vec![], outputs: vec![v2_state_output(21)] };
    let event = apply_block_event(60, vec![0xb3], vec![v1_tx, v2_tx]);
    let plan = plan_event(&event);
    assert_eq!(plan.ops.len(), 2);
    assert_eq!(plan.notices.len(), 1);
    assert_eq!(plan.notices[0].record.number, 21);
    assert_eq!(plan.notices[0].tx_hash, vec![0x0b]);
}

#[test]
fn undo_and_reset_plans_hold_one_deletion() {
    let undo = ChainEvent::Undo { header: ChainPoint { slot: 77, hash: vec![0x01] } };
    let plan = plan_event(&undo);
    assert_eq!(plan.ops.len(), 1);
    assert!(matches!(plan.ops[0], StorageOp::DeleteFrom { slot: 77 }));
    assert_eq!(plan.point.slot, 77);

    let reset = ChainEvent::Reset { point: ChainPoint { slot: 88, hash: vec![0x02] } };
    let plan = plan_event(&reset);
    assert_eq!(plan.ops.len(), 1);
    assert!(matches!(plan.ops[0], StorageOp::DeleteAfter { slot: 88 }));
    assert_eq!(plan.point.slot, 88);
}

#[test]
fn tip_is_the_point_of_the_greatest_record_number() {
    let store = ReplicaStore::new();
    let genesis = store.tip();
    let fallback = initial_point();
    assert_eq!(genesis.slot, fallback.slot);
    assert_eq!(genesis.hash, fallback.hash);

    let mut store = ReplicaStore::new();
    store.apply(record(3), vec![0x01], 130, vec![0x03]);
    store.apply(record(9), vec![0x02], 190, vec![0x09]);
    store.apply(record(5), vec![0x03], 150, vec![0x05]);
    let tip = store.tip();
    assert_eq!(tip.slot, 190);
    assert_eq!(tip.hash, vec![0x09]);
}

#[test]
fn cursor_falls_back_to_the_genesis_point() {
    let cursor = Cursor::default();
    let point = cursor.get();
    let fallback = initial_point();
    assert_eq!(point.slot, fallback.slot);
    assert_eq!(point.hash, fallback.hash);

    let mut cursor = Cursor::new();
    cursor.set(ChainPoint { slot: 123, hash: vec![0x45] });
    let point = cursor.get();
    assert_eq!(point.slot, 123);
    assert_eq!(point.hash, vec![0x45]);
}

#[test]
fn connection_lifecycle_reconnects_forever() {
    let s = SyncStatus::Disconnected;
    let s = advance_status(s, StreamSignal::Retry);
    assert_eq!(s, SyncStatus::Connecting);
    let s = advance_status(s, StreamSignal::Opened);
    assert_eq!(s, SyncStatus::Syncing);
    let s = advance_status(s, StreamSignal::Failed);
    assert_eq!(s, SyncStatus::Disconnected);
    let s = advance_status(s, StreamSignal::Retry);
    assert_eq!(s, SyncStatus::Connecting);
    let s = advance_status(s, StreamSignal::Failed);
    assert_eq!(s, SyncStatus::Disconnected);
}
