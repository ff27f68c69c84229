//! The reference semantics of the durable block table. A store holds one row
//! per record number; applying a record is an upsert keyed by that number,
//! undoing a slot deletes every row replicated at or after it, and resetting
//! to a point deletes every row replicated strictly after it. The rows also
//! know their storage text: every byte-string column is lowercase hex.

use vstd::prelude::*;
use crate::block::{MinerCredential, MinerCredentialView, TunaBlock, TunaBlockView};
use crate::chain::{ChainPoint, ChainPointView};
use crate::constants::{initial_point, spec_initial_point};
use crate::encoding::{hex_encode, spec_hex};

verus! {

/// One replicated row: the reconstructed record, the transaction that
/// carried it, and the slot and hash of the containing block.
pub struct StoredRow {
    pub record: TunaBlock,
    pub tx_hash: Vec<u8>,
    pub slot: u64,
    pub block_hash: Vec<u8>,
}

/// The mathematical value of a [`StoredRow`].
pub struct StoredRowView {
    pub record: TunaBlockView,
    pub tx_hash: Seq<u8>,
    pub slot: u64,
    pub block_hash: Seq<u8>,
}

impl View for StoredRow {
    type V = StoredRowView;

    open spec fn view(&self) -> StoredRowView {
        StoredRowView {
            record: self.record@,
            tx_hash: self.tx_hash@,
            slot: self.slot,
            block_hash: self.block_hash@,
        }
    }
}

/// Rows are well-formed when no two of them share a record number.
pub open spec fn spec_rows_wf(rows: Seq<StoredRowView>) -> bool {
    forall|i: int, j: int|
        0 <= i < j < rows.len() ==> (#[trigger] rows[i]).record.number != (
        #[trigger] rows[j]).record.number
}

/// The position of the row keyed by `number`, or -1 when none exists.
pub open spec fn spec_row_index(rows: Seq<StoredRowView>, number: u64) -> int
    decreases rows.len(),
{
    if rows.len() == 0 {
        -1
    } else if rows[0].record.number == number {
        0
    } else {
        let rest = spec_row_index(rows.drop_first(), number);
        if rest < 0 {
            -1
        } else {
            rest + 1
        }
    }
}

/// Whether some row is keyed by `number`.
pub open spec fn spec_contains_number(rows: Seq<StoredRowView>, number: u64) -> bool {
    exists|i: int| 0 <= i < rows.len() && (#[trigger] rows[i]).record.number == number
}

/// `spec_row_index` finds -1 exactly when no row has the number, and
/// otherwise the least such position.
pub proof fn lemma_row_index(rows: Seq<StoredRowView>, number: u64)
    ensures
        spec_row_index(rows, number) == -1 <==> !spec_contains_number(rows, number),
        spec_contains_number(rows, number) ==> {
            let i = spec_row_index(rows, number);
            &&& 0 <= i < rows.len()
            &&& rows[i].record.number == number
            &&& forall|j: int| 0 <= j < i ==> (#[trigger] rows[j]).record.number != number
        },
    decreases rows.len(),
{
    if rows.len() == 0 {
        assert(!spec_contains_number(rows, number));
    } else if rows[0].record.number == number {
        assert(spec_contains_number(rows, number));
    } else {
        let rest = rows.drop_first();
        lemma_row_index(rest, number);
        assert(forall|k: int| 0 <= k < rest.len() ==> #[trigger] rest[k] == rows[k + 1]);
        if spec_contains_number(rows, number) {
            let w = choose|i: int|
                0 <= i < rows.len() && (#[trigger] rows[i]).record.number == number;
            assert(w != 0);
            assert(rest[w - 1] == rows[w]);
            assert(spec_contains_number(rest, number));
        }
        if spec_contains_number(rest, number) {
            let r = spec_row_index(rest, number);
            assert(rows[r + 1] == rest[r]);
            assert(spec_contains_number(rows, number));
        }
        if spec_contains_number(rows, number) {
            let i = spec_row_index(rows, number);
            let r = spec_row_index(rest, number);
            assert(i == r + 1);
            assert forall|j: int| 0 <= j < i implies (#[trigger] rows[j]).record.number
                != number by {
                if j > 0 {
                    assert(rest[j - 1] == rows[j]);
                }
            }
        }
    }
}

/// What upserting a row does: replace the row with the same record number in
/// place, or append the row when its number is new.
pub open spec fn spec_upsert(rows: Seq<StoredRowView>, row: StoredRowView) -> Seq<StoredRowView> {
    let i = spec_row_index(rows, row.record.number);
    if i < 0 {
        rows.push(row)
    } else {
        rows.update(i, row)
    }
}

/// Holds of a row replicated strictly before `slot`: what an undo keeps.
pub open spec fn spec_keep_before(slot: u64) -> spec_fn(StoredRowView) -> bool {
    |r: StoredRowView| r.slot < slot
}

/// Holds of a row replicated at or before `slot`: what a reset keeps.
pub open spec fn spec_keep_through(slot: u64) -> spec_fn(StoredRowView) -> bool {
    |r: StoredRowView| r.slot <= slot
}

/// What undoing a slot leaves: exactly the rows replicated strictly before
/// it, in their order.
pub open spec fn spec_undo(rows: Seq<StoredRowView>, slot: u64) -> Seq<StoredRowView> {
    rows.filter(spec_keep_before(slot))
}

/// What resetting to a point leaves: exactly the rows replicated at or
/// before its slot, in their order.
pub open spec fn spec_reset(rows: Seq<StoredRowView>, slot: u64) -> Seq<StoredRowView> {
    rows.filter(spec_keep_through(slot))
}

/// The mathematical value of a list of rows.
pub open spec fn spec_view_rows(rows: Seq<StoredRow>) -> Seq<StoredRowView> {
    Seq::new(rows.len(), |i: int| rows[i]@)
}

/// An undo removes exactly the rows replicated at or after the slot: every
/// kept row was replicated strictly before it, and every row strictly
/// before it is kept.
pub proof fn lemma_undo_state(rows: Seq<StoredRowView>, slot: u64)
    ensures
        forall|i: int|
            0 <= i < spec_undo(rows, slot).len() ==> (#[trigger] spec_undo(rows, slot)[i]).slot
                < slot,
        forall|i: int|
            0 <= i < rows.len() && (#[trigger] rows[i]).slot < slot ==> spec_undo(
                rows,
                slot,
            ).contains(rows[i]),
{
    assert forall|i: int| 0 <= i < spec_undo(rows, slot).len() implies (
    #[trigger] spec_undo(rows, slot)[i]).slot < slot by {
        rows.lemma_filter_pred(spec_keep_before(slot), i);
    }
    assert forall|i: int| 0 <= i < rows.len() && (#[trigger] rows[i]).slot < slot implies spec_undo(
        rows,
        slot,
    ).contains(rows[i]) by {
        rows.lemma_filter_contains(spec_keep_before(slot), i);
    }
}

/// A reset removes exactly the rows replicated strictly after the point's
/// slot: every kept row was replicated at or before it, and every row at or
/// before it is kept.
pub proof fn lemma_reset_state(rows: Seq<StoredRowView>, slot: u64)
    ensures
        forall|i: int|
            0 <= i < spec_reset(rows, slot).len() ==> (#[trigger] spec_reset(rows, slot)[i]).slot
                <= slot,
        forall|i: int|
            0 <= i < rows.len() && (#[trigger] rows[i]).slot <= slot ==> spec_reset(
                rows,
                slot,
            ).contains(rows[i]),
{
    assert forall|i: int| 0 <= i < spec_reset(rows, slot).len() implies (
    #[trigger] spec_reset(rows, slot)[i]).slot <= slot by {
        rows.lemma_filter_pred(spec_keep_through(slot), i);
    }
    assert forall|i: int| 0 <= i < rows.len() && (#[trigger] rows[i]).slot <= slot implies
        spec_reset(rows, slot).contains(rows[i]) by {
        rows.lemma_filter_contains(spec_keep_through(slot), i);
    }
}

/// Filtering rows that all satisfy the predicate keeps them all, in order.
pub proof fn lemma_filter_all_kept(rows: Seq<StoredRowView>, pred: spec_fn(StoredRowView) -> bool)
    requires
        forall|i: int| 0 <= i < rows.len() ==> pred(#[trigger] rows[i]),
    ensures
        rows.filter(pred) == rows,
    decreases rows.len(),
{
    reveal(Seq::filter);
    if rows.len() == 0 {
        assert(rows.filter(pred) =~= rows);
    } else {
        let init = rows.drop_last();
        assert(forall|k: int| 0 <= k < init.len() ==> #[trigger] init[k] == rows[k]);
        lemma_filter_all_kept(init, pred);
        assert(pred(rows.last()));
        assert(rows.filter(pred) =~= rows);
    }
}

/// Upserting preserves well-formedness, keys the affected row by the new
/// record's number, and leaves every other row unchanged.
pub proof fn lemma_upsert_wf(rows: Seq<StoredRowView>, row: StoredRowView)
    requires
        spec_rows_wf(rows),
    ensures
        spec_rows_wf(spec_upsert(rows, row)),
        forall|n: u64|
            spec_contains_number(spec_upsert(rows, row), n) <==> (spec_contains_number(rows, n)
                || n == row.record.number),
{
    lemma_row_index(rows, row.record.number);
    let out = spec_upsert(rows, row);
    let i = spec_row_index(rows, row.record.number);
    if i < 0 {
        assert forall|a: int, b: int| 0 <= a < b < out.len() implies (
        #[trigger] out[a]).record.number != (#[trigger] out[b]).record.number by {
            if b < rows.len() {
            } else {
                assert(out[b] == row);
                assert(out[a] == rows[a]);
                assert(!spec_contains_number(rows, row.record.number));
            }
        }
        assert forall|n: u64| spec_contains_number(out, n) implies (spec_contains_number(rows, n)
            || n == row.record.number) by {
            let w = choose|k: int| 0 <= k < out.len() && (#[trigger] out[k]).record.number == n;
            if w < rows.len() {
                assert(rows[w].record.number == n);
            }
        }
        assert forall|n: u64| (spec_contains_number(rows, n) || n == row.record.number) implies
            spec_contains_number(out, n) by {
            if spec_contains_number(rows, n) {
                let w = choose|k: int|
                    0 <= k < rows.len() && (#[trigger] rows[k]).record.number == n;
                assert(out[w].record.number == n);
            } else {
                assert(out[rows.len() as int].record.number == n);
            }
        }
    } else {
        assert(rows[i].record.number == row.record.number);
        assert forall|a: int, b: int| 0 <= a < b < out.len() implies (
        #[trigger] out[a]).record.number != (#[trigger] out[b]).record.number by {
            assert(out[a].record.number == rows[a].record.number);
            assert(out[b].record.number == rows[b].record.number);
        }
        assert forall|n: u64| spec_contains_number(out, n) implies (spec_contains_number(rows, n)
            || n == row.record.number) by {
            let w = choose|k: int| 0 <= k < out.len() && (#[trigger] out[k]).record.number == n;
            assert(rows[w].record.number == out[w].record.number);
        }
        assert forall|n: u64| (spec_contains_number(rows, n) || n == row.record.number) implies
            spec_contains_number(out, n) by {
            if spec_contains_number(rows, n) && n != row.record.number {
                let w = choose|k: int|
                    0 <= k < rows.len() && (#[trigger] rows[k]).record.number == n;
                assert(out[w].record.number == n);
            } else {
                assert(out[i].record.number == row.record.number);
            }
        }
    }
}

/// Keeping a subsequence of well-formed rows keeps them well-formed.
pub proof fn lemma_filter_wf(rows: Seq<StoredRowView>, pred: spec_fn(StoredRowView) -> bool)
    requires
        spec_rows_wf(rows),
    ensures
        spec_rows_wf(rows.filter(pred)),
    decreases rows.len(),
{
    reveal(Seq::filter);
    if rows.len() == 0 {
    } else {
        let init = rows.drop_last();
        assert(spec_rows_wf(init));
        lemma_filter_wf(init, pred);
        let sub = init.filter(pred);
        if pred(rows.last()) {
            let out = sub.push(rows.last());
            assert forall|a: int, b: int| 0 <= a < b < out.len() implies (
            #[trigger] out[a]).record.number != (#[trigger] out[b]).record.number by {
                if b == out.len() - 1 {
                    assert(out[b] == rows.last());
                    assert(init.filter(pred).len() <= init.len()) by {
                        init.lemma_filter_len(pred);
                    }
                    let w = choose|k: int| 0 <= k < init.len() && init[k] == sub[a];
                    assert(sub.contains(sub[a]));
                    assert(init.contains(sub[a])) by {
                        lemma_filter_element_of(init, pred, a);
                    }
                    let k = choose|k: int| 0 <= k < init.len() && init[k] == sub[a];
                    assert(rows[k] == sub[a]);
                    assert(rows[k].record.number != rows[rows.len() - 1].record.number);
                }
            }
        }
    }
}

/// Every element of a filtered sequence is an element of the original.
proof fn lemma_filter_element_of(
    rows: Seq<StoredRowView>,
    pred: spec_fn(StoredRowView) -> bool,
    i: int,
)
    requires
        0 <= i < rows.filter(pred).len(),
    ensures
        rows.contains(rows.filter(pred)[i]),
    decreases rows.len(),
{
    reveal(Seq::filter);
    if rows.len() == 0 {
    } else {
        let init = rows.drop_last();
        let sub = init.filter(pred);
        if pred(rows.last()) && i == rows.filter(pred).len() - 1 {
            assert(rows.filter(pred)[i] == rows.last());
            assert(rows[rows.len() - 1] == rows.last());
        } else {
            lemma_filter_element_of(init, pred, i);
            let k = choose|k: int| 0 <= k < init.len() && init[k] == sub[i];
            assert(rows[k] == sub[i]);
            assert(rows.filter(pred)[i] == sub[i]);
        }
    }
}

/// The in-memory reference store: one row per record number.
pub struct ReplicaStore {
    rows: Vec<StoredRow>,
}

impl View for ReplicaStore {
    type V = Seq<StoredRowView>;

    closed spec fn view(&self) -> Seq<StoredRowView> {
        spec_view_rows(self.rows@)
    }
}

impl ReplicaStore {
    /// Rows are well-formed when no two of them share a record number.
    pub open spec fn wf(&self) -> bool {
        spec_rows_wf(self@)
    }

    /// An empty store.
    pub fn new() -> (s: ReplicaStore)
        ensures
            s@ == Seq::<StoredRowView>::empty(),
            s.wf(),
    {
        let s = ReplicaStore { rows: Vec::new() };
        proof {
            assert(s@ =~= Seq::<StoredRowView>::empty());
        }
        s
    }

    /// How many rows the store holds.
    pub fn len(&self) -> (n: usize)
        ensures
            n == self@.len(),
    {
        self.rows.len()
    }

    /// The row at a position.
    pub fn row_at(&self, i: usize) -> (r: &StoredRow)
        requires
            i < self@.len(),
        ensures
            r@ == self@[i as int],
    {
        &self.rows[i]
    }

    /// The position of the row keyed by `number`, when one exists.
    pub fn find_number(&self, number: u64) -> (r: Option<usize>)
        ensures
            match r {
                Some(i) => i == spec_row_index(self@, number) && i < self@.len()
                    && self@[i as int].record.number == number,
                None => !spec_contains_number(self@, number) && spec_row_index(self@, number)
                    == -1,
            },
    {
        proof {
            lemma_row_index(self@, number);
        }
        let mut i: usize = 0;
        while i < self.rows.len()
            invariant
                self@.len() == self.rows@.len(),
                i <= self.rows@.len(),
                forall|k: int| 0 <= k < i ==> (#[trigger] self@[k]).record.number != number,
            decreases self.rows@.len() - i,
        {
            if self.rows[i].record.number == number {
                proof {
                    lemma_row_index(self@, number);
                    assert(self@[i as int].record.number == number);
                    let f = spec_row_index(self@, number);
                    assert(f == i) by {
                        if f < i {
                            assert(self@[f].record.number != number);
                        }
                        if f > i {
                            assert(self@[i as int].record.number != number);
                        }
                    };
                }
                return Some(i);
            }
            i = i + 1;
        }
        None
    }

    /// Replicates a record: an upsert keyed by the record's number. Re-applying
    /// a record with an already-stored number overwrites every column of that
    /// row and stores nothing else.
    pub fn apply(&mut self, record: TunaBlock, tx_hash: Vec<u8>, slot: u64, block_hash: Vec<u8>)
        requires
            old(self).wf(),
        ensures
            final(self)@ == spec_upsert(
                old(self)@,
                StoredRowView { record: record@, tx_hash: tx_hash@, slot, block_hash: block_hash@ },
            ),
            final(self).wf(),
    {
        let ghost rv = StoredRowView {
            record: record@,
            tx_hash: tx_hash@,
            slot,
            block_hash: block_hash@,
        };
        let row = StoredRow { record, tx_hash, slot, block_hash };
        proof {
            assert(row@ == rv);
            lemma_upsert_wf(self@, rv);
        }
        match self.find_number(row.record.number) {
            Some(i) => {
                self.rows.set(i, row);
                proof {
                    assert(self@ =~= old(self)@.update(
                        spec_row_index(old(self)@, rv.record.number),
                        rv,
                    ));
                }
            },
            None => {
                self.rows.push(row);
                proof {
                    assert(self@ =~= old(self)@.push(rv));
                }
            },
        }
    }

    /// Rolls back a block: deletes every row whose recorded slot is at or
    /// after `slot` and leaves every earlier row untouched, in order.
    pub fn undo(&mut self, slot: u64)
        requires
            old(self).wf(),
        ensures
            final(self)@ == spec_undo(old(self)@, slot),
            final(self).wf(),
    {
        let mut kept: Vec<StoredRow> = Vec::new();
        let mut i: usize = 0;
        proof {
            assert(self@.take(0).filter(spec_keep_before(slot)) =~= Seq::<StoredRowView>::empty());
            assert(spec_view_rows(kept@) =~= Seq::<StoredRowView>::empty());
        }
        while i < self.rows.len()
            invariant
                self@.len() == self.rows@.len(),
                i <= self.rows@.len(),
                spec_view_rows(kept@) == self@.take(i as int).filter(spec_keep_before(slot)),
            decreases self.rows@.len() - i,
        {
            let ghost prev = self@.take(i as int);
            let ghost prev_kept = kept@;
            proof {
                prev.lemma_filter_push(self@[i as int], spec_keep_before(slot));
                assert(self@.take(i + 1) =~= prev.push(self@[i as int]));
            }
            if self.rows[i].slot < slot {
                let row = self.rows[i].shallow_clone();
                kept.push(row);
                proof {
                    assert(spec_keep_before(slot)(self@[i as int]));
                    assert(spec_view_rows(kept@) =~= spec_view_rows(prev_kept).push(
                        self@[i as int],
                    ));
                    assert(spec_view_rows(kept@) == self@.take(i + 1).filter(
                        spec_keep_before(slot),
                    ));
                }
            } else {
                proof {
                    assert(!spec_keep_before(slot)(self@[i as int]));
                    assert(spec_view_rows(kept@) == self@.take(i + 1).filter(
                        spec_keep_before(slot),
                    ));
                }
            }
            i = i + 1;
        }
        proof {
            assert(self@.take(self@.len() as int) =~= self@);
            lemma_filter_wf(self@, spec_keep_before(slot));
        }
        self.rows = kept;
    }

    /// Realigns to an intersection point: deletes every row whose recorded
    /// slot is strictly after `slot` and leaves every other row untouched,
    /// in order.
    pub fn reset(&mut self, slot: u64)
        requires
            old(self).wf(),
        ensures
            final(self)@ == spec_reset(old(self)@, slot),
            final(self).wf(),
    {
        let mut kept: Vec<StoredRow> = Vec::new();
        let mut i: usize = 0;
        proof {
            assert(self@.take(0).filter(spec_keep_through(slot)) =~= Seq::<StoredRowView>::empty());
            assert(spec_view_rows(kept@) =~= Seq::<StoredRowView>::empty());
        }
        while i < self.rows.len()
            invariant
                self@.len() == self.rows@.len(),
                i <= self.rows@.len(),
                spec_view_rows(kept@) == self@.take(i as int).filter(spec_keep_through(slot)),
            decreases self.rows@.len() - i,
        {
            let ghost prev = self@.take(i as int);
            let ghost prev_kept = kept@;
            proof {
                prev.lemma_filter_push(self@[i as int], spec_keep_through(slot));
                assert(self@.take(i + 1) =~= prev.push(self@[i as int]));
            }
            if self.rows[i].slot <= slot {
                let row = self.rows[i].shallow_clone();
                kept.push(row);
                proof {
                    assert(spec_keep_through(slot)(self@[i as int]));
                    assert(spec_view_rows(kept@) =~= spec_view_rows(prev_kept).push(
                        self@[i as int],
                    ));
                    assert(spec_view_rows(kept@) == self@.take(i + 1).filter(
                        spec_keep_through(slot),
                    ));
                }
            } else {
                proof {
                    assert(!spec_keep_through(slot)(self@[i as int]));
                    assert(spec_view_rows(kept@) == self@.take(i + 1).filter(
                        spec_keep_through(slot),
                    ));
                }
            }
            i = i + 1;
        }
        proof {
            assert(self@.take(self@.len() as int) =~= self@);
            lemma_filter_wf(self@, spec_keep_through(slot));
        }
        self.rows = kept;
    }
}

/// The position of the row with the greatest record number, or -1 when the
/// store is empty. The greatest number is the most recently mined block, so
/// its row carries the last durably replicated chain position.
pub open spec fn spec_max_number_index(rows: Seq<StoredRowView>) -> int
    decreases rows.len(),
{
    if rows.len() == 0 {
        -1
    } else if rows.len() == 1 {
        0
    } else {
        let r = spec_max_number_index(rows.drop_last());
        if rows.last().record.number > rows[r].record.number {
            rows.len() - 1
        } else {
            r
        }
    }
}

/// `spec_max_number_index` names a valid position whose record number is
/// greatest.
pub proof fn lemma_max_number_index(rows: Seq<StoredRowView>)
    requires
        rows.len() > 0,
    ensures
        ({
            let m = spec_max_number_index(rows);
            &&& 0 <= m < rows.len()
            &&& forall|j: int|
                0 <= j < rows.len() ==> (#[trigger] rows[j]).record.number
                    <= rows[m].record.number
        }),
    decreases rows.len(),
{
    if rows.len() == 1 {
    } else {
        let init = rows.drop_last();
        lemma_max_number_index(init);
        let r = spec_max_number_index(init);
        assert(forall|k: int| 0 <= k < init.len() ==> #[trigger] init[k] == rows[k]);
        let m = spec_max_number_index(rows);
        if rows.last().record.number > rows[r].record.number {
            assert(m == rows.len() - 1);
            assert forall|j: int| 0 <= j < rows.len() implies (#[trigger] rows[j]).record.number
                <= rows[m].record.number by {
                if j < rows.len() - 1 {
                    assert(init[j].record.number <= init[r].record.number);
                }
            }
        } else {
            assert(m == r);
            assert forall|j: int| 0 <= j < rows.len() implies (#[trigger] rows[j]).record.number
                <= rows[m].record.number by {
                if j < rows.len() - 1 {
                    assert(init[j].record.number <= init[r].record.number);
                }
            }
        }
    }
}

impl ReplicaStore {
    /// The last durably replicated chain position: the slot and block hash
    /// of the row with the greatest record number, or the protocol-era
    /// genesis point when the store is empty.
    pub fn tip(&self) -> (r: ChainPoint)
        ensures
            self@.len() == 0 ==> r@ == spec_initial_point(),
            self@.len() > 0 ==> ({
                let m = spec_max_number_index(self@);
                &&& 0 <= m < self@.len()
                &&& r@ == ChainPointView { slot: self@[m].slot, hash: self@[m].block_hash }
                &&& forall|j: int|
                    0 <= j < self@.len() ==> (#[trigger] self@[j]).record.number
                        <= self@[m].record.number
            }),
    {
        if self.rows.len() == 0 {
            return initial_point();
        }
        proof {
            lemma_max_number_index(self@);
        }
        let mut best: usize = 0;
        let mut i: usize = 1;
        proof {
            assert(self@.take(1).len() == 1);
        }
        while i < self.rows.len()
            invariant
                self@.len() == self.rows@.len(),
                0 < self@.len(),
                1 <= i <= self@.len(),
                best < i,
                best == spec_max_number_index(self@.take(i as int)),
            decreases self.rows@.len() - i,
        {
            let ghost prev_best = best;
            if self.rows[i].record.number > self.rows[best].record.number {
                best = i;
            }
            proof {
                let t = self@.take(i + 1);
                assert(t.len() == i + 1);
                assert(t.drop_last() =~= self@.take(i as int));
                assert(spec_max_number_index(t.drop_last()) == prev_best);
                assert(t.last() == self@[i as int]);
                assert(t[prev_best as int] == self@[prev_best as int]);
                assert(self@[i as int] == self.rows@[i as int]@);
                assert(self@[prev_best as int] == self.rows@[prev_best as int]@);
                if self@[i as int].record.number > self@[prev_best as int].record.number {
                    assert(spec_max_number_index(t) == t.len() - 1);
                } else {
                    assert(spec_max_number_index(t) == prev_best);
                }
                assert(spec_max_number_index(t) == best);
            }
            i = i + 1;
        }
        proof {
            assert(self@.take(self@.len() as int) =~= self@);
        }
        ChainPoint {
            slot: self.rows[best].slot,
            hash: crate::copy_bytes(&self.rows[best].block_hash),
        }
    }
}

/// One row as the storage backend receives it: every byte-string column
/// rendered as lowercase hexadecimal text, every counter kept numeric.
pub struct RowText {
    pub number: u64,
    pub hash: String,
    pub leading_zeros: u64,
    pub target_number: u64,
    pub epoch_time: u64,
    pub current_posix_time: u64,
    pub nonce: Option<String>,
    pub miner_cred: Option<String>,
    pub nft_cred: Option<String>,
    pub data: Option<String>,
    pub cardano_tx_hash: String,
    pub cardano_slot: u64,
    pub cardano_hash: String,
}

impl StoredRow {
    /// Renders this row for the storage backend: hashes, the nonce and the
    /// credentials become lowercase hex; an asset credential becomes the hex
    /// of its policy followed by the hex of its name.
    pub fn to_row_text(&self) -> (r: RowText)
        ensures
            r.number == self@.record.number,
            r.hash@ == spec_hex(self@.record.current_hash),
            r.leading_zeros == self@.record.leading_zeros,
            r.target_number == self@.record.target_number,
            r.epoch_time == self@.record.epoch_time,
            r.current_posix_time == self@.record.current_posix_time,
            match self@.record.nonce {
                Some(n) => r.nonce matches Some(s) && s@ == spec_hex(n),
                None => r.nonce is None,
            },
            match self@.record.credential {
                Some(MinerCredentialView::Payment(key)) => r.miner_cred matches Some(s) && s@
                    == spec_hex(key),
                _ => r.miner_cred is None,
            },
            match self@.record.credential {
                Some(MinerCredentialView::Asset { policy, name }) => r.nft_cred matches Some(s)
                    && s@ == spec_hex(policy + name),
                _ => r.nft_cred is None,
            },
            match self@.record.extra_data {
                Some(d) => r.data matches Some(s) && s@ == spec_hex(d),
                None => r.data is None,
            },
            r.cardano_tx_hash@ == spec_hex(self@.tx_hash),
            r.cardano_slot == self@.slot,
            r.cardano_hash@ == spec_hex(self@.block_hash),
    {
        let nonce = match &self.record.nonce {
            Some(n) => Some(hex_encode(n.as_slice())),
            None => None,
        };
        let miner_cred = match &self.record.credential {
            Some(MinerCredential::Payment(key)) => Some(hex_encode(key.as_slice())),
            _ => None,
        };
        let nft_cred = match &self.record.credential {
            Some(MinerCredential::Asset { policy, name }) => {
                let joined = crate::concat_bytes(policy.as_slice(), name.as_slice());
                Some(hex_encode(joined.as_slice()))
            },
            _ => None,
        };
        let data = match &self.record.extra_data {
            Some(d) => Some(hex_encode(d.as_slice())),
            None => None,
        };
        RowText {
            number: self.record.number,
            hash: hex_encode(self.record.current_hash.as_slice()),
            leading_zeros: self.record.leading_zeros,
            target_number: self.record.target_number,
            epoch_time: self.record.epoch_time,
            current_posix_time: self.record.current_posix_time,
            nonce,
            miner_cred,
            nft_cred,
            data,
            cardano_tx_hash: hex_encode(self.tx_hash.as_slice()),
            cardano_slot: self.slot,
            cardano_hash: hex_encode(self.block_hash.as_slice()),
        }
    }

    /// A field-for-field copy of this row.
    pub fn shallow_clone(&self) -> (r: StoredRow)
        ensures
            r@ == self@,
    {
        StoredRow {
            record: self.record.shallow_clone(),
            tx_hash: crate::copy_bytes(&self.tx_hash),
            slot: self.slot,
            block_hash: crate::copy_bytes(&self.block_hash),
        }
    }
}

impl TunaBlock {
    /// A field-for-field copy of this record.
    pub fn shallow_clone(&self) -> (r: TunaBlock)
        ensures
            r@ == self@,
    {
        TunaBlock {
            number: self.number,
            current_hash: crate::copy_bytes(&self.current_hash),
            leading_zeros: self.leading_zeros,
            target_number: self.target_number,
            epoch_time: self.epoch_time,
            current_posix_time: self.current_posix_time,
            nonce: match &self.nonce {
                Some(n) => Some(crate::copy_bytes(n)),
                None => None,
            },
            credential: match &self.credential {
                Some(MinerCredential::Payment(k)) => Some(
                    MinerCredential::Payment(crate::copy_bytes(k)),
                ),
                Some(MinerCredential::Asset { policy, name }) => Some(
                    MinerCredential::Asset {
                        policy: crate::copy_bytes(policy),
                        name: crate::copy_bytes(name),
                    },
                ),
                None => None,
            },
            extra_data: match &self.extra_data {
                Some(d) => Some(crate::copy_bytes(d)),
                None => None,
            },
        }
    }
}

} // verus!
