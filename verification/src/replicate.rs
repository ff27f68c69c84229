//! The replication state machine. An incoming chain event is turned into a
//! plan: the storage operations it requires, in order, and the chain point
//! the cursor advances to once they all succeeded. Running a plan against
//! the reference store gives the exact state the durable table must reach;
//! the connection lifecycle around the stream is a three-state loop that
//! reconnects forever.

use vstd::prelude::*;
use crate::block::{reconstruct, spec_reconstruct, TunaBlock, TunaBlockView};
use crate::chain::{ChainEvent, ChainPoint, ChainPointView, TxData};
use crate::classify::classify;
use crate::classify::{spec_classify, Generation};
use crate::store::{
    lemma_filter_all_kept, lemma_row_index, lemma_upsert_wf, spec_contains_number,
    spec_keep_before, spec_keep_through, spec_reset, spec_row_index, spec_rows_wf, spec_undo,
    spec_upsert, ReplicaStore, StoredRow, StoredRowView,
};

verus! {

/// One call to the storage collaborator: an upsert of a replicated row, a
/// deletion of every row at or after a slot, or a deletion of every row
/// strictly after a slot.
pub enum StorageOp {
    Upsert(StoredRow),
    DeleteFrom { slot: u64 },
    DeleteAfter { slot: u64 },
}

/// The mathematical value of a [`StorageOp`].
pub enum StorageOpView {
    Upsert(StoredRowView),
    DeleteFrom { slot: u64 },
    DeleteAfter { slot: u64 },
}

impl View for StorageOp {
    type V = StorageOpView;

    open spec fn view(&self) -> StorageOpView {
        match self {
            StorageOp::Upsert(row) => StorageOpView::Upsert(row@),
            StorageOp::DeleteFrom { slot } => StorageOpView::DeleteFrom { slot: *slot },
            StorageOp::DeleteAfter { slot } => StorageOpView::DeleteAfter { slot: *slot },
        }
    }
}

/// The mathematical value of a list of storage operations.
pub open spec fn spec_view_ops(ops: Seq<StorageOp>) -> Seq<StorageOpView> {
    Seq::new(ops.len(), |i: int| ops[i]@)
}

/// What one storage operation does to the replicated rows.
pub open spec fn spec_run_op(rows: Seq<StoredRowView>, op: StorageOpView) -> Seq<StoredRowView> {
    match op {
        StorageOpView::Upsert(row) => spec_upsert(rows, row),
        StorageOpView::DeleteFrom { slot } => spec_undo(rows, slot),
        StorageOpView::DeleteAfter { slot } => spec_reset(rows, slot),
    }
}

/// What a list of storage operations, run in order, does to the rows.
pub open spec fn spec_run_ops(rows: Seq<StoredRowView>, ops: Seq<StorageOpView>) -> Seq<
    StoredRowView,
>
    decreases ops.len(),
{
    if ops.len() == 0 {
        rows
    } else {
        spec_run_op(spec_run_ops(rows, ops.drop_last()), ops.last())
    }
}

/// The row one transaction contributes to an applied block: its
/// reconstructed record keyed alongside the transaction hash and the block's
/// slot and hash; nothing when the transaction carries no protocol state or
/// its record does not decode.
pub open spec fn spec_tx_row(tx: TxData, slot: u64, block_hash: Seq<u8>) -> Option<StoredRowView> {
    match spec_classify(tx) {
        None => None,
        Some(c) => match spec_reconstruct(tx, c.generation, c.output_index as int) {
            Err(_) => None,
            Ok(rec) => Some(
                StoredRowView { record: rec, tx_hash: tx.hash@, slot, block_hash },
            ),
        },
    }
}

/// The upserts an applied block requires: one per transaction that carries a
/// decodable protocol record, in transaction order.
pub open spec fn spec_apply_ops(txs: Seq<TxData>, slot: u64, block_hash: Seq<u8>) -> Seq<
    StorageOpView,
>
    decreases txs.len(),
{
    if txs.len() == 0 {
        Seq::empty()
    } else {
        spec_apply_ops(txs.drop_last(), slot, block_hash) + match spec_tx_row(
            txs.last(),
            slot,
            block_hash,
        ) {
            Some(row) => seq![StorageOpView::Upsert(row)],
            None => Seq::empty(),
        }
    }
}

/// The storage operations one chain event requires, in order.
pub open spec fn spec_event_ops(event: ChainEvent) -> Seq<StorageOpView> {
    match event {
        ChainEvent::Apply { header, txs } => spec_apply_ops(txs@, header.slot, header.hash@),
        ChainEvent::Undo { header } => seq![StorageOpView::DeleteFrom { slot: header.slot }],
        ChainEvent::Reset { point } => seq![StorageOpView::DeleteAfter { slot: point.slot }],
    }
}

/// The chain point the cursor advances to once an event's operations all
/// succeeded.
pub open spec fn spec_event_point(event: ChainEvent) -> ChainPointView {
    match event {
        ChainEvent::Apply { header, txs } => header@,
        ChainEvent::Undo { header } => header@,
        ChainEvent::Reset { point } => point@,
    }
}

/// One best-effort notification: a freshly replicated record and the hash
/// of the transaction that carried it.
pub struct Notification {
    pub record: TunaBlock,
    pub tx_hash: Vec<u8>,
}

/// The mathematical value of a [`Notification`].
pub struct NotificationView {
    pub record: TunaBlockView,
    pub tx_hash: Seq<u8>,
}

impl View for Notification {
    type V = NotificationView;

    open spec fn view(&self) -> NotificationView {
        NotificationView { record: self.record@, tx_hash: self.tx_hash@ }
    }
}

/// The mathematical value of a list of notifications.
pub open spec fn spec_view_notices(notices: Seq<Notification>) -> Seq<NotificationView> {
    Seq::new(notices.len(), |i: int| notices[i]@)
}

/// The notification one transaction earns: only a second-generation record
/// that decoded is announced.
pub open spec fn spec_tx_notice(tx: TxData) -> Option<NotificationView> {
    match spec_classify(tx) {
        None => None,
        Some(c) => if c.generation == Generation::V2 {
            match spec_reconstruct(tx, c.generation, c.output_index as int) {
                Err(_) => None,
                Ok(rec) => Some(NotificationView { record: rec, tx_hash: tx.hash@ }),
            }
        } else {
            None
        },
    }
}

/// The notifications an applied block earns, in transaction order.
pub open spec fn spec_apply_notices(txs: Seq<TxData>) -> Seq<NotificationView>
    decreases txs.len(),
{
    if txs.len() == 0 {
        Seq::empty()
    } else {
        spec_apply_notices(txs.drop_last()) + match spec_tx_notice(txs.last()) {
            Some(n) => seq![n],
            None => Seq::empty(),
        }
    }
}

/// The notifications one chain event earns: only applied blocks announce
/// anything.
pub open spec fn spec_event_notices(event: ChainEvent) -> Seq<NotificationView> {
    match event {
        ChainEvent::Apply { header, txs } => spec_apply_notices(txs@),
        _ => Seq::empty(),
    }
}

/// A chain event turned into storage work: the operations to issue, in
/// order; the notifications to attempt once they succeeded, whose failures
/// must never stall replication; and the point the cursor advances to once
/// the operations all succeeded.
pub struct EventPlan {
    pub ops: Vec<StorageOp>,
    pub notices: Vec<Notification>,
    pub point: ChainPoint,
}

/// Plans one chain event: an applied block becomes one upsert per
/// transaction with a decodable protocol record, an undone block becomes a
/// deletion at or after its slot, and a reset becomes a deletion strictly
/// after its point. A transaction whose record fails to decode is skipped;
/// it never aborts the rest of the block.
pub fn plan_event(event: &ChainEvent) -> (r: EventPlan)
    ensures
        spec_view_ops(r.ops@) == spec_event_ops(*event),
        spec_view_notices(r.notices@) == spec_event_notices(*event),
        r.point@ == spec_event_point(*event),
{
    match event {
        ChainEvent::Undo { header } => {
            let ops = vec![StorageOp::DeleteFrom { slot: header.slot }];
            let notices: Vec<Notification> = Vec::new();
            proof {
                assert(spec_view_ops(ops@) =~= spec_event_ops(*event));
                assert(spec_view_notices(notices@) =~= spec_event_notices(*event));
            }
            EventPlan { ops, notices, point: header.duplicate() }
        },
        ChainEvent::Reset { point } => {
            let ops = vec![StorageOp::DeleteAfter { slot: point.slot }];
            let notices: Vec<Notification> = Vec::new();
            proof {
                assert(spec_view_ops(ops@) =~= spec_event_ops(*event));
                assert(spec_view_notices(notices@) =~= spec_event_notices(*event));
            }
            EventPlan { ops, notices, point: point.duplicate() }
        },
        ChainEvent::Apply { header, txs } => {
            let mut ops: Vec<StorageOp> = Vec::new();
            let mut notices: Vec<Notification> = Vec::new();
            let mut i: usize = 0;
            proof {
                assert(txs@.take(0) =~= Seq::<TxData>::empty());
                assert(spec_view_ops(ops@) =~= spec_apply_ops(txs@.take(0), header.slot, header.hash@));
                assert(spec_view_notices(notices@) =~= spec_apply_notices(txs@.take(0)));
            }
            while i < txs.len()
                invariant
                    i <= txs@.len(),
                    spec_view_ops(ops@) == spec_apply_ops(txs@.take(i as int), header.slot, header.hash@),
                    spec_view_notices(notices@) == spec_apply_notices(txs@.take(i as int)),
                decreases txs@.len() - i,
            {
                let tx = &txs[i];
                let ghost prev_ops = ops@;
                let ghost prev_notices = notices@;
                proof {
                    assert(txs@.take(i + 1).drop_last() =~= txs@.take(i as int));
                    assert(txs@.take(i + 1).last() == txs@[i as int]);
                }
                match classify(tx) {
                    None => {
                        proof {
                            assert(spec_tx_row(txs@[i as int], header.slot, header.hash@) is None);
                            assert(spec_tx_notice(txs@[i as int]) is None);
                            assert(spec_apply_ops(txs@.take(i + 1), header.slot, header.hash@)
                                =~= spec_apply_ops(txs@.take(i as int), header.slot, header.hash@));
                            assert(spec_apply_notices(txs@.take(i + 1)) =~= spec_apply_notices(
                                txs@.take(i as int),
                            ));
                        }
                    },
                    Some(candidate) => {
                        match reconstruct(tx, &candidate) {
                            Err(_) => {
                                proof {
                                    assert(spec_tx_row(txs@[i as int], header.slot, header.hash@)
                                        is None);
                                    assert(spec_tx_notice(txs@[i as int]) is None);
                                    assert(spec_apply_ops(txs@.take(i + 1), header.slot, header.hash@)
                                        =~= spec_apply_ops(
                                        txs@.take(i as int),
                                        header.slot,
                                        header.hash@,
                                    ));
                                    assert(spec_apply_notices(txs@.take(i + 1))
                                        =~= spec_apply_notices(txs@.take(i as int)));
                                }
                            },
                            Ok(record) => {
                                if candidate.generation == Generation::V2 {
                                    let notice = Notification {
                                        record: record.shallow_clone(),
                                        tx_hash: crate::copy_bytes(&tx.hash),
                                    };
                                    proof {
                                        assert(spec_tx_notice(txs@[i as int]) == Some(notice@));
                                    }
                                    notices.push(notice);
                                    proof {
                                        assert(spec_view_notices(notices@) =~= spec_view_notices(
                                            prev_notices,
                                        ).push(notices@[notices@.len() - 1]@));
                                        assert(spec_apply_notices(txs@.take(i + 1))
                                            =~= spec_view_notices(notices@));
                                    }
                                } else {
                                    proof {
                                        assert(spec_tx_notice(txs@[i as int]) is None);
                                        assert(spec_apply_notices(txs@.take(i + 1))
                                            =~= spec_apply_notices(txs@.take(i as int)));
                                    }
                                }
                                let row = StoredRow {
                                    record,
                                    tx_hash: crate::copy_bytes(&tx.hash),
                                    slot: header.slot,
                                    block_hash: crate::copy_bytes(&header.hash),
                                };
                                proof {
                                    assert(spec_tx_row(txs@[i as int], header.slot, header.hash@)
                                        == Some(row@));
                                }
                                ops.push(StorageOp::Upsert(row));
                                proof {
                                    assert(spec_view_ops(ops@) =~= spec_view_ops(prev_ops).push(
                                        ops@[ops@.len() - 1]@,
                                    ));
                                    assert(spec_apply_ops(txs@.take(i + 1), header.slot, header.hash@)
                                        =~= spec_view_ops(ops@));
                                }
                            },
                        }
                    },
                }
                i = i + 1;
            }
            proof {
                assert(txs@.take(txs@.len() as int) =~= txs@);
            }
            EventPlan { ops, notices, point: header.duplicate() }
        },
    }
}

/// Processes one chain event against the reference store: runs the event's
/// plan, operation by operation, and returns the point the cursor advances
/// to. This is the whole effect one event has on replicated state.
pub fn apply_event(store: &mut ReplicaStore, event: &ChainEvent) -> (point: ChainPoint)
    requires
        old(store).wf(),
    ensures
        final(store)@ == spec_run_ops(old(store)@, spec_event_ops(*event)),
        final(store).wf(),
        point@ == spec_event_point(*event),
{
    let plan = plan_event(event);
    run_plan(store, &plan.ops);
    proof {
        assert(spec_view_ops(plan.ops@) == spec_event_ops(*event));
    }
    plan.point
}

/// Runs planned storage operations against the reference store, in order.
pub fn run_plan(store: &mut ReplicaStore, ops: &Vec<StorageOp>)
    requires
        old(store).wf(),
    ensures
        final(store)@ == spec_run_ops(old(store)@, spec_view_ops(ops@)),
        final(store).wf(),
{
    let mut k: usize = 0;
    proof {
        assert(spec_view_ops(ops@).take(0) =~= Seq::<StorageOpView>::empty());
    }
    while k < ops.len()
        invariant
            old(store).wf(),
            store.wf(),
            k <= ops@.len(),
            store@ == spec_run_ops(old(store)@, spec_view_ops(ops@).take(k as int)),
        decreases ops@.len() - k,
    {
        proof {
            assert(spec_view_ops(ops@).take(k + 1).drop_last() =~= spec_view_ops(ops@).take(
                k as int,
            ));
            assert(spec_view_ops(ops@).take(k + 1).last() == ops@[k as int]@);
        }
        match &ops[k] {
            StorageOp::Upsert(row) => {
                let copy = row.shallow_clone();
                let StoredRow { record, tx_hash, slot, block_hash } = copy;
                store.apply(record, tx_hash, slot, block_hash);
            },
            StorageOp::DeleteFrom { slot } => {
                store.undo(*slot);
            },
            StorageOp::DeleteAfter { slot } => {
                store.reset(*slot);
            },
        }
        k = k + 1;
    }
    proof {
        assert(spec_view_ops(ops@).take(ops@.len() as int) =~= spec_view_ops(ops@));
    }
}

/// Whether every operation of the list is an upsert, as every applied
/// block's plan is.
spec fn spec_all_upserts(ops: Seq<StorageOpView>) -> bool {
    forall|i: int| 0 <= i < ops.len() ==> (#[trigger] ops[i]) is Upsert
}

/// The row of the last upsert keyed by `number`, or nothing when no
/// operation of the list writes that number.
spec fn spec_last_write(ops: Seq<StorageOpView>, number: u64) -> Option<StoredRowView>
    decreases ops.len(),
{
    if ops.len() == 0 {
        None
    } else {
        match ops.last() {
            StorageOpView::Upsert(row) => if row.record.number == number {
                Some(row)
            } else {
                spec_last_write(ops.drop_last(), number)
            },
            _ => spec_last_write(ops.drop_last(), number),
        }
    }
}

/// The row a list of upserts leaves in place of `row`: the last write keyed
/// by its number, or `row` itself when nothing writes that number.
spec fn spec_final_row(ops: Seq<StorageOpView>, row: StoredRowView) -> StoredRowView {
    match spec_last_write(ops, row.record.number) {
        Some(r) => r,
        None => row,
    }
}

/// A last write keyed by `number` is a row whose record carries `number`.
proof fn lemma_last_write_number(ops: Seq<StorageOpView>, number: u64)
    ensures
        spec_last_write(ops, number) matches Some(r) ==> r.record.number == number,
    decreases ops.len(),
{
    if ops.len() > 0 {
        lemma_last_write_number(ops.drop_last(), number);
    }
}

/// What a list of upserts does to well-formed rows: every original row is
/// replaced in place by the last write keyed by its number (or kept as it
/// was), every appended row is the last write keyed by its number, every
/// written number ends up present, and nothing is appended when every
/// written number was already present.
proof fn lemma_run_upserts(rows: Seq<StoredRowView>, ops: Seq<StorageOpView>)
    requires
        spec_rows_wf(rows),
        spec_all_upserts(ops),
    ensures
        spec_rows_wf(spec_run_ops(rows, ops)),
        spec_run_ops(rows, ops).len() >= rows.len(),
        forall|i: int|
            0 <= i < rows.len() ==> #[trigger] spec_run_ops(rows, ops)[i] == spec_final_row(
                ops,
                rows[i],
            ),
        forall|i: int|
            0 <= i < rows.len() ==> (#[trigger] spec_run_ops(rows, ops)[i]).record.number
                == rows[i].record.number,
        forall|i: int|
            rows.len() <= i < spec_run_ops(rows, ops).len() ==> spec_last_write(
                ops,
                (#[trigger] spec_run_ops(rows, ops)[i]).record.number,
            ) == Some(spec_run_ops(rows, ops)[i]),
        forall|n: u64|
            (#[trigger] spec_last_write(ops, n)) is Some ==> spec_contains_number(
                spec_run_ops(rows, ops),
                n,
            ),
        (forall|n: u64|
            (#[trigger] spec_last_write(ops, n)) is Some ==> spec_contains_number(rows, n))
            ==> spec_run_ops(rows, ops).len() == rows.len(),
    decreases ops.len(),
{
    let out = spec_run_ops(rows, ops);
    if ops.len() == 0 {
        assert(out == rows);
        assert forall|i: int| 0 <= i < rows.len() implies #[trigger] out[i] == spec_final_row(
            ops,
            rows[i],
        ) by {
            assert(spec_last_write(ops, rows[i].record.number) is None);
        }
    } else {
        let init = ops.drop_last();
        assert(spec_all_upserts(init)) by {
            assert(forall|i: int| 0 <= i < init.len() ==> #[trigger] init[i] == ops[i]);
        }
        lemma_run_upserts(rows, init);
        let mid = spec_run_ops(rows, init);
        let u = ops.last();
        assert(u is Upsert);
        let row = u->Upsert_0;
        assert(out == spec_upsert(mid, row));
        lemma_row_index(mid, row.record.number);
        lemma_upsert_wf(mid, row);
        assert forall|n: u64| #[trigger] spec_last_write(ops, n) == (if n == row.record.number {
            Some(row)
        } else {
            spec_last_write(init, n)
        }) by {
            lemma_last_write_number(init, n);
        }
        let j = spec_row_index(mid, row.record.number);
        if j >= 0 {
            assert(mid[j].record.number == row.record.number);
            assert(out == mid.update(j, row));
            assert(out.len() == mid.len());
            assert forall|i: int| 0 <= i < rows.len() implies #[trigger] out[i] == spec_final_row(
                ops,
                rows[i],
            ) && out[i].record.number == rows[i].record.number by {
                if i == j {
                    assert(rows[i].record.number == row.record.number);
                    assert(spec_last_write(ops, rows[i].record.number) == Some(row));
                    assert(out[i] == row);
                    lemma_last_write_number(ops, rows[i].record.number);
                } else {
                    assert(out[i] == mid[i]);
                    assert(mid[i].record.number != mid[j].record.number);
                    assert(rows[i].record.number != row.record.number);
                    assert(spec_last_write(ops, rows[i].record.number) == spec_last_write(
                        init,
                        rows[i].record.number,
                    ));
                    assert(mid[i] == spec_final_row(init, rows[i]));
                }
            }
            assert forall|i: int| rows.len() <= i < out.len() implies spec_last_write(
                ops,
                (#[trigger] out[i]).record.number,
            ) == Some(out[i]) by {
                if i == j {
                    assert(out[i] == row);
                    lemma_last_write_number(ops, row.record.number);
                } else {
                    assert(out[i] == mid[i]);
                    assert(spec_last_write(init, mid[i].record.number) == Some(mid[i]));
                    assert(mid[i].record.number != mid[j].record.number);
                    assert(mid[i].record.number != row.record.number);
                }
            }
            assert forall|n: u64| (#[trigger] spec_last_write(ops, n)) is Some implies
                spec_contains_number(out, n) by {
                if n == row.record.number {
                    assert(out[j] == row);
                    assert(spec_contains_number(out, n));
                } else {
                    assert(spec_last_write(init, n) is Some);
                    assert(spec_contains_number(mid, n));
                }
            }
            if forall|n: u64|
                (#[trigger] spec_last_write(ops, n)) is Some ==> spec_contains_number(rows, n) {
                assert forall|n: u64| (#[trigger] spec_last_write(init, n)) is Some implies
                    spec_contains_number(rows, n) by {
                    lemma_last_write_number(init, n);
                    if n == row.record.number {
                        assert(spec_last_write(ops, n) is Some);
                    } else {
                        assert(spec_last_write(ops, n) == spec_last_write(init, n));
                    }
                }
                assert(mid.len() == rows.len());
            }
        } else {
            assert(!spec_contains_number(mid, row.record.number));
            assert(out == mid.push(row));
            assert forall|i: int| 0 <= i < rows.len() implies #[trigger] out[i] == spec_final_row(
                ops,
                rows[i],
            ) && out[i].record.number == rows[i].record.number by {
                assert(out[i] == mid[i]);
                assert(rows[i].record.number != row.record.number) by {
                    if rows[i].record.number == row.record.number {
                        assert(mid[i].record.number == row.record.number);
                        assert(spec_contains_number(mid, row.record.number));
                    }
                }
                assert(spec_last_write(ops, rows[i].record.number) == spec_last_write(
                    init,
                    rows[i].record.number,
                ));
                assert(mid[i] == spec_final_row(init, rows[i]));
            }
            assert forall|i: int| rows.len() <= i < out.len() implies spec_last_write(
                ops,
                (#[trigger] out[i]).record.number,
            ) == Some(out[i]) by {
                if i == out.len() - 1 {
                    assert(out[i] == row);
                    lemma_last_write_number(ops, row.record.number);
                } else {
                    assert(out[i] == mid[i]);
                    assert(spec_last_write(init, mid[i].record.number) == Some(mid[i]));
                    assert(mid[i].record.number != row.record.number) by {
                        if mid[i].record.number == row.record.number {
                            assert(spec_contains_number(mid, row.record.number));
                        }
                    }
                }
            }
            assert forall|n: u64| (#[trigger] spec_last_write(ops, n)) is Some implies
                spec_contains_number(out, n) by {
                if n == row.record.number {
                    assert(out[out.len() - 1] == row);
                    assert(spec_contains_number(out, n));
                } else {
                    assert(spec_last_write(init, n) is Some);
                    assert(spec_contains_number(mid, n));
                    let w = choose|k: int|
                        0 <= k < mid.len() && (#[trigger] mid[k]).record.number == n;
                    assert(out[w].record.number == n);
                }
            }
            if forall|n: u64|
                (#[trigger] spec_last_write(ops, n)) is Some ==> spec_contains_number(rows, n) {
                assert(spec_last_write(ops, row.record.number) is Some);
                assert(spec_contains_number(rows, row.record.number));
                let w = choose|k: int|
                    0 <= k < rows.len() && (#[trigger] rows[k]).record.number
                        == row.record.number;
                assert(mid[w].record.number == row.record.number);
                assert(spec_contains_number(mid, row.record.number));
                assert(false);
            }
        }
    }
}

/// Running the same list of upserts twice over well-formed rows leaves
/// exactly the rows one run leaves.
proof fn lemma_upserts_idempotent(rows: Seq<StoredRowView>, ops: Seq<StorageOpView>)
    requires
        spec_rows_wf(rows),
        spec_all_upserts(ops),
    ensures
        spec_run_ops(spec_run_ops(rows, ops), ops) == spec_run_ops(rows, ops),
{
    lemma_run_upserts(rows, ops);
    let t = spec_run_ops(rows, ops);
    lemma_run_upserts(t, ops);
    let t2 = spec_run_ops(t, ops);
    assert(t2.len() == t.len());
    assert forall|i: int| 0 <= i < t.len() implies t2[i] == t[i] by {
        assert(t2[i] == spec_final_row(ops, t[i]));
        lemma_last_write_number(ops, t[i].record.number);
        if spec_last_write(ops, t[i].record.number) is Some {
            if i < rows.len() {
                assert(t[i] == spec_final_row(ops, rows[i]));
                assert(t[i].record.number == rows[i].record.number);
            } else {
                assert(spec_last_write(ops, t[i].record.number) == Some(t[i]));
            }
        }
    }
    assert(t2 =~= t);
}

/// The plan of an applied block holds upserts only.
proof fn lemma_apply_ops_upserts(txs: Seq<TxData>, slot: u64, block_hash: Seq<u8>)
    ensures
        spec_all_upserts(spec_apply_ops(txs, slot, block_hash)),
    decreases txs.len(),
{
    if txs.len() == 0 {
    } else {
        lemma_apply_ops_upserts(txs.drop_last(), slot, block_hash);
        let a = spec_apply_ops(txs.drop_last(), slot, block_hash);
        let whole = spec_apply_ops(txs, slot, block_hash);
        assert forall|i: int| 0 <= i < whole.len() implies (#[trigger] whole[i]) is Upsert by {
            if i < a.len() {
                assert(whole[i] == a[i]);
            }
        }
    }
}

/// Processing the same chain event twice leaves the replicated rows exactly
/// as processing it once leaves them: a block re-delivered after a
/// reconnect, a repeated rollback, or a repeated realignment is harmless.
pub proof fn lemma_event_idempotent(rows: Seq<StoredRowView>, event: ChainEvent)
    requires
        spec_rows_wf(rows),
    ensures
        spec_run_ops(spec_run_ops(rows, spec_event_ops(event)), spec_event_ops(event))
            == spec_run_ops(rows, spec_event_ops(event)),
{
    let ops = spec_event_ops(event);
    let once = spec_run_ops(rows, ops);
    match event {
        ChainEvent::Apply { header, txs } => {
            lemma_apply_ops_upserts(txs@, header.slot, header.hash@);
            lemma_upserts_idempotent(rows, ops);
        },
        ChainEvent::Undo { header } => {
            assert(ops.len() == 1);
            assert(ops.drop_last() =~= Seq::<StorageOpView>::empty());
            assert(spec_run_ops(rows, Seq::<StorageOpView>::empty()) == rows);
            assert(spec_run_ops(once, Seq::<StorageOpView>::empty()) == once);
            assert(once == spec_undo(rows, header.slot));
            assert forall|i: int| 0 <= i < once.len() implies spec_keep_before(header.slot)(
                #[trigger] once[i],
            ) by {
                rows.lemma_filter_pred(spec_keep_before(header.slot), i);
            }
            lemma_filter_all_kept(once, spec_keep_before(header.slot));
            assert(spec_run_ops(once, ops) == spec_undo(once, header.slot));
        },
        ChainEvent::Reset { point } => {
            assert(ops.len() == 1);
            assert(ops.drop_last() =~= Seq::<StorageOpView>::empty());
            assert(spec_run_ops(rows, Seq::<StorageOpView>::empty()) == rows);
            assert(spec_run_ops(once, Seq::<StorageOpView>::empty()) == once);
            assert(once == spec_reset(rows, point.slot));
            assert forall|i: int| 0 <= i < once.len() implies spec_keep_through(point.slot)(
                #[trigger] once[i],
            ) by {
                rows.lemma_filter_pred(spec_keep_through(point.slot), i);
            }
            lemma_filter_all_kept(once, spec_keep_through(point.slot));
            assert(spec_run_ops(once, ops) == spec_reset(once, point.slot));
        },
    }
}

/// Where the replication loop stands with its upstream stream.
#[derive(Clone, Copy, Debug, PartialEq, Eq, Structural)]
pub enum SyncStatus {
    Disconnected,
    Connecting,
    Syncing,
}

/// What just happened to the stream: the loop decided to retry, the stream
/// opened, or the stream failed.
#[derive(Clone, Copy, Debug, PartialEq, Eq, Structural)]
pub enum StreamSignal {
    Retry,
    Opened,
    Failed,
}

/// The connection lifecycle: a disconnected loop always retries, a
/// connecting loop syncs once the stream opens, and any failure falls back
/// to disconnected — reconnection is unconditional and never gives up.
pub open spec fn spec_advance_status(status: SyncStatus, signal: StreamSignal) -> SyncStatus {
    match (status, signal) {
        (SyncStatus::Disconnected, StreamSignal::Retry) => SyncStatus::Connecting,
        (SyncStatus::Connecting, StreamSignal::Opened) => SyncStatus::Syncing,
        (SyncStatus::Connecting, StreamSignal::Failed) => SyncStatus::Disconnected,
        (SyncStatus::Syncing, StreamSignal::Failed) => SyncStatus::Disconnected,
        (s, _) => s,
    }
}

/// Advances the connection lifecycle by one signal.
pub fn advance_status(status: SyncStatus, signal: StreamSignal) -> (r: SyncStatus)
    ensures
        r == spec_advance_status(status, signal),
{
    match (status, signal) {
        (SyncStatus::Disconnected, StreamSignal::Retry) => SyncStatus::Connecting,
        (SyncStatus::Connecting, StreamSignal::Opened) => SyncStatus::Syncing,
        (SyncStatus::Connecting, StreamSignal::Failed) => SyncStatus::Disconnected,
        (SyncStatus::Syncing, StreamSignal::Failed) => SyncStatus::Disconnected,
        (s, _) => s,
    }
}

} // verus!
