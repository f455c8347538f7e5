//! The circuit's gates, as predicates over a row and the two rows after it,
//! and the proof that every table the assignment builds satisfies them.
use vstd::prelude::*;
use crate::event::{lemma_rlc_fold_range, rlc_fold, CopyDataType, CopyEvent};
use crate::field::{fe_mul_add, modulus};
use crate::table::{
    all_valid, block_rows, event_rows, events_rows, padding_row, step_row, Row,
};

verus! {

/// 1 where a row takes an RW counter step: a memory or log access that is
/// not padding.
pub open spec fn rw_diff(row: Row) -> int {
    if (row.tag == CopyDataType::Memory || row.tag == CopyDataType::TxLog) && !row.is_pad {
        1
    } else {
        0
    }
}

/// The per-row gate, on enabled rows.
pub open spec fn verify_row_gate(cur: Row, next: Row, next2: Row) -> bool {
    &&& (cur.is_first ==> cur.q_step)
    &&& (cur.is_last ==> !cur.q_step)
    &&& (!cur.is_last && !next.is_last ==> {
        &&& cur.id == next2.id
        &&& cur.tag == next2.tag
        &&& cur.addr + 1 == next2.addr
        &&& cur.src_addr_end == next2.src_addr_end
    })
    &&& (!cur.is_last ==> {
        &&& cur.rw_counter + rw_diff(cur) == next.rw_counter
        &&& cur.rwc_inc_left - rw_diff(cur) == next.rwc_inc_left
        &&& cur.rlc_acc == next.rlc_acc
    })
    &&& (cur.is_last ==> cur.rwc_inc_left == rw_diff(cur))
    &&& (cur.is_last && cur.tag == CopyDataType::RlcAcc ==> cur.value == cur.rlc_acc)
}

/// The per-step gate, on read rows; `next` is the paired write row.
pub open spec fn verify_step_gate(cur: Row, next: Row, next2: Row) -> bool {
    &&& (next.is_last ==> cur.bytes_left == 1)
    &&& (!next.is_last ==> cur.bytes_left == next2.bytes_left + 1)
    &&& (next.tag != CopyDataType::RlcAcc ==> cur.value == next.value)
    &&& (cur.is_first ==> cur.value == next.value)
    &&& (cur.is_pad ==> cur.value == 0)
    &&& cur.is_pad == !(cur.addr < cur.src_addr_end)
    &&& !next.is_pad
}

/// Where the accumulation gate applies: enabled write rows of an RLC
/// destination that are not the last of their event.
pub open spec fn rlc_gate_active(cur: Row) -> bool {
    cur.q_enable && !cur.q_step && !cur.is_last && cur.tag == CopyDataType::RlcAcc && !cur.is_pad
}

/// The accumulation gate: the next write carries `value · r + next byte`.
pub open spec fn rlc_gate(cur: Row, next: Row, next2: Row, r: int) -> bool {
    next2.value == (cur.value * r + next.value) % modulus()
}

/// Every gate that applies at row `j` holds there; an active row needs
/// two rows after it.
pub open spec fn row_ok(rows: Seq<Row>, j: int, r: int) -> bool {
    let cur = rows[j];
    (cur.q_enable || cur.q_step) ==> {
        &&& j + 2 < rows.len()
        &&& (cur.q_enable ==> verify_row_gate(cur, rows[j + 1], rows[j + 2]))
        &&& (cur.q_step ==> verify_step_gate(cur, rows[j + 1], rows[j + 2]))
        &&& (rlc_gate_active(cur) ==> rlc_gate(cur, rows[j + 1], rows[j + 2], r))
    }
}

/// The table satisfies every gate on every row.
pub open spec fn rows_satisfy(rows: Seq<Row>, r: int) -> bool {
    forall|j: int| 0 <= j < rows.len() ==> #[trigger] row_ok(rows, j, r)
}

/// Row `k` of a valid event satisfies every gate, whatever rows follow the
/// event: a gate looks past the event's end only where it is switched off.
pub proof fn lemma_step_row_gates(e: CopyEvent, k: int, r: int, next: Row, next2: Row)
    requires
        e.valid(),
        0 <= k < 2 * e.len(),
        k + 1 < 2 * e.len() ==> next == step_row(e, k + 1, r),
        k + 2 < 2 * e.len() ==> next2 == step_row(e, k + 2, r),
    ensures
        verify_row_gate(step_row(e, k, r), next, next2),
        k % 2 == 0 ==> verify_step_gate(step_row(e, k, r), next, next2),
        rlc_gate_active(step_row(e, k, r)) ==> rlc_gate(step_row(e, k, r), next, next2, r),
{
    let n = e.len();
    let cur = step_row(e, k, r);
    let i = k / 2;
    e.lemma_rw_before_range(k, 2 * n);
    e.lemma_rw_before_range(k, k + 1);
    assert(e.rw_before(k + 1) == e.rw_before(k) + e.rw_diff_at(k));
    assert(rw_diff(cur) == e.rw_diff_at(k));
    if k + 1 < 2 * n {
        e.lemma_rw_before_range(k + 1, 2 * n);
    }
    if k == 2 * n - 1 {
        assert(e.rw_before(2 * n) == e.rw_before(k) + e.rw_diff_at(k));
    }
    lemma_rlc_fold_range(e.byte_values(), r);
    lemma_rlc_fold_range(e.byte_values().take(i + 1), r);
    if k % 2 == 0 {
        // a read row and its paired write
        assert(next == step_row(e, k + 1, r));
        if e.dst_type == CopyDataType::RlcAcc {
            if k == 0 {
                let s1 = e.byte_values().take(1);
                assert(s1.drop_last() =~= Seq::<u8>::empty());
                assert(rlc_fold(s1.drop_last(), r) == 0);
                assert(s1.last() == e.bytes@[0].0);
                assert(rlc_fold(s1, r) == e.bytes@[0].0 as int % modulus());
            }
        }
        if e.src_addr + i >= e.src_addr_end {
            assert(e.bytes@[i].0 == 0);
        }
    } else if k + 2 < 2 * n && e.dst_type == CopyDataType::RlcAcc {
        // a write row and the next step's pair
        let s2 = e.byte_values().take(i + 2);
        assert(s2.drop_last() =~= e.byte_values().take(i + 1));
        assert(s2.last() == e.bytes@[i + 1].0);
        lemma_rlc_fold_range(s2, r);
        assert(next.value == e.bytes@[i + 1].0);
        assert(next2.value as int == rlc_fold(s2, r));
    }
    if k == 2 * n - 1 && e.dst_type == CopyDataType::RlcAcc {
        assert(e.byte_values().take(i + 1) =~= e.byte_values());
    }
}

/// The rows of valid events satisfy every gate, followed by any rows at
/// all, as long as at least two follow.
pub proof fn lemma_events_rows_ok(es: Seq<CopyEvent>, r: int, tail: Seq<Row>)
    requires
        all_valid(es),
        tail.len() >= 2,
    ensures
        forall|j: int|
            0 <= j < events_rows(es, r).len() ==> #[trigger] row_ok(
                events_rows(es, r) + tail,
                j,
                r,
            ),
    decreases es.len(),
{
    if es.len() > 0 {
        let pre = es.drop_last();
        let e = es.last();
        assert(es[es.len() - 1].valid());
        let p = events_rows(pre, r);
        let ev = event_rows(e, r);
        let t2 = ev + tail;
        assert(all_valid(pre)) by {
            assert forall|m: int| 0 <= m < pre.len() implies #[trigger] pre[m].valid() by {
                assert(pre[m] == es[m]);
            }
        }
        lemma_events_rows_ok(pre, r, t2);
        let rows = events_rows(es, r) + tail;
        assert(rows =~= p + t2);
        assert forall|j: int| 0 <= j < events_rows(es, r).len() implies #[trigger] row_ok(
            rows,
            j,
            r,
        ) by {
            if j < p.len() {
                assert(row_ok(p + t2, j, r));
            } else {
                let k = j - p.len();
                assert(rows[j] == step_row(e, k, r));
                lemma_step_row_gates(e, k, r, rows[j + 1], rows[j + 2]);
            }
        }
    }
}

/// Every table that the assignment builds from valid events satisfies
/// every gate: this holds across event boundaries, whatever the tags of
/// neighbouring events, and for events with no bytes.
pub proof fn lemma_block_rows_satisfy(es: Seq<CopyEvent>, r: int)
    requires
        all_valid(es),
    ensures
        rows_satisfy(block_rows(es, r), r),
{
    let pads = seq![padding_row(), padding_row()];
    lemma_events_rows_ok(es, r, pads);
    let rows = block_rows(es, r);
    assert forall|j: int| 0 <= j < rows.len() implies #[trigger] row_ok(rows, j, r) by {
        if j < events_rows(es, r).len() {
            assert(row_ok(events_rows(es, r) + pads, j, r));
        } else {
            assert(rows[j] == padding_row());
        }
    }
}

fn row_rw_diff(row: &Row) -> (d: u64)
    ensures
        d as int == rw_diff(*row),
{
    if (row.tag == CopyDataType::Memory || row.tag == CopyDataType::TxLog) && !row.is_pad {
        1
    } else {
        0
    }
}

/// Evaluates the per-row gate.
pub fn check_row_gate(cur: &Row, next: &Row, next2: &Row) -> (ok: bool)
    ensures
        ok == verify_row_gate(*cur, *next, *next2),
{
    let d = row_rw_diff(cur);
    let first_ok = !cur.is_first || cur.q_step;
    let last_ok = !cur.is_last || !cur.q_step;
    let keep_ok = cur.is_last || next.is_last || (cur.id == next2.id && cur.tag == next2.tag
        && cur.addr < u128::MAX && cur.addr + 1 == next2.addr && cur.src_addr_end
        == next2.src_addr_end);
    let counter_ok = cur.is_last || ((cur.rw_counter as u128) + (d as u128)
        == next.rw_counter as u128 && (cur.rwc_inc_left as i128) - (d as i128)
        == next.rwc_inc_left as i128 && cur.rlc_acc == next.rlc_acc);
    let end_ok = !cur.is_last || cur.rwc_inc_left == d;
    let rlc_ok = !(cur.is_last && cur.tag == CopyDataType::RlcAcc) || cur.value == cur.rlc_acc;
    first_ok && last_ok && keep_ok && counter_ok && end_ok && rlc_ok
}

/// Evaluates the per-step gate.
pub fn check_step_gate(cur: &Row, next: &Row, next2: &Row) -> (ok: bool)
    ensures
        ok == verify_step_gate(*cur, *next, *next2),
{
    let left_ok = if next.is_last {
        cur.bytes_left == 1
    } else {
        cur.bytes_left as u128 == next2.bytes_left as u128 + 1
    };
    let copy_ok = next.tag == CopyDataType::RlcAcc || cur.value == next.value;
    let first_ok = !cur.is_first || cur.value == next.value;
    let pad_value_ok = !cur.is_pad || cur.value == 0;
    let pad_ok = cur.is_pad == !(cur.addr < cur.src_addr_end as u128);
    left_ok && copy_ok && first_ok && pad_value_ok && pad_ok && !next.is_pad
}

/// Evaluates the accumulation gate.
pub fn check_rlc_gate(cur: &Row, next: &Row, next2: &Row, randomness: u64) -> (ok: bool)
    ensures
        ok == rlc_gate(*cur, *next, *next2, randomness as int),
{
    next2.value == fe_mul_add(cur.value, randomness, next.value)
}

/// Evaluates every gate that applies at row `j`.
pub fn check_row(rows: &Vec<Row>, j: usize, randomness: u64) -> (ok: bool)
    requires
        j < rows@.len(),
    ensures
        ok == row_ok(rows@, j as int, randomness as int),
{
    let cur = &rows[j];
    if !cur.q_enable && !cur.q_step {
        return true;
    }
    if rows.len() - j <= 2 {
        return false;
    }
    let next = &rows[j + 1];
    let next2 = &rows[j + 2];
    if cur.q_enable && !check_row_gate(cur, next, next2) {
        return false;
    }
    if cur.q_step && !check_step_gate(cur, next, next2) {
        return false;
    }
    let active = cur.q_enable && !cur.q_step && !cur.is_last && cur.tag == CopyDataType::RlcAcc
        && !cur.is_pad;
    !active || check_rlc_gate(cur, next, next2, randomness)
}

/// Checks the whole table against every gate.
pub fn verify_rows(rows: &Vec<Row>, randomness: u64) -> (ok: bool)
    ensures
        ok == rows_satisfy(rows@, randomness as int),
{
    let mut j: usize = 0;
    while j < rows.len()
        invariant
            0 <= j <= rows@.len(),
            forall|i: int| 0 <= i < j ==> #[trigger] row_ok(rows@, i, randomness as int),
        decreases rows@.len() - j,
    {
        if !check_row(rows, j, randomness) {
            return false;
        }
        j = j + 1;
    }
    true
}

/// In a table built from valid events, a read row is padding exactly when
/// its address is at or past the end of the source, and a padding row
/// carries 0.
pub proof fn lemma_read_row_padding(es: Seq<CopyEvent>, r: int)
    requires
        all_valid(es),
    ensures
        forall|j: int|
            0 <= j < block_rows(es, r).len() && (#[trigger] block_rows(es, r)[j]).q_step ==> {
                &&& block_rows(es, r)[j].is_pad <==> block_rows(es, r)[j].addr
                    >= block_rows(es, r)[j].src_addr_end
                &&& block_rows(es, r)[j].is_pad ==> block_rows(es, r)[j].value == 0
            },
{
    lemma_block_rows_satisfy(es, r);
    let rows = block_rows(es, r);
    assert forall|j: int| 0 <= j < rows.len() && (#[trigger] rows[j]).q_step implies {
        &&& rows[j].is_pad <==> rows[j].addr >= rows[j].src_addr_end
        &&& rows[j].is_pad ==> rows[j].value == 0
    } by {
        assert(row_ok(rows, j, r));
    }
}

/// In a table built from valid events, the RW counter moves from an
/// enabled row that does not close its event to the next row by 0 or 1: by
/// 1 exactly when the row is a memory or log access that is not padding.
pub proof fn lemma_counter_steps(es: Seq<CopyEvent>, r: int)
    requires
        all_valid(es),
    ensures
        forall|j: int|
            0 <= j < block_rows(es, r).len() && (#[trigger] block_rows(es, r)[j]).q_enable
                && !block_rows(es, r)[j].is_last ==> {
                let d = block_rows(es, r)[j + 1].rw_counter - block_rows(es, r)[j].rw_counter;
                &&& j + 1 < block_rows(es, r).len()
                &&& d == 0 || d == 1
                &&& d == 1 <==> ((block_rows(es, r)[j].tag == CopyDataType::Memory
                    || block_rows(es, r)[j].tag == CopyDataType::TxLog)
                    && !block_rows(es, r)[j].is_pad)
            },
{
    lemma_block_rows_satisfy(es, r);
    let rows = block_rows(es, r);
    assert forall|j: int|
        0 <= j < rows.len() && (#[trigger] rows[j]).q_enable && !rows[j].is_last implies {
        let d = rows[j + 1].rw_counter - rows[j].rw_counter;
        &&& j + 1 < rows.len()
        &&& d == 0 || d == 1
        &&& d == 1 <==> ((rows[j].tag == CopyDataType::Memory || rows[j].tag
            == CopyDataType::TxLog) && !rows[j].is_pad)
    } by {
        assert(row_ok(rows, j, r));
    }
}

/// Sum of the counter steps of a run of rows.
pub open spec fn sum_rw_diff(rows: Seq<Row>) -> int
    decreases rows.len(),
{
    if rows.len() == 0 {
        0
    } else {
        sum_rw_diff(rows.drop_last()) + rw_diff(rows.last())
    }
}

proof fn lemma_sum_rw_diff_prefix(e: CopyEvent, r: int, k: int)
    requires
        e.valid(),
        0 <= k <= 2 * e.len(),
    ensures
        sum_rw_diff(event_rows(e, r).take(k)) == e.rw_before(k),
    decreases k,
{
    if k > 0 {
        lemma_sum_rw_diff_prefix(e, r, k - 1);
        assert(event_rows(e, r).take(k).drop_last() =~= event_rows(e, r).take(k - 1));
    }
}

/// The first row of a valid event holds, in `rwc_inc_left`, the counter
/// steps that all the event's rows take together.
pub proof fn lemma_first_row_counter(e: CopyEvent, r: int)
    requires
        e.valid(),
        e.len() > 0,
    ensures
        event_rows(e, r)[0].rwc_inc_left == sum_rw_diff(event_rows(e, r)),
{
    lemma_sum_rw_diff_prefix(e, r, 2 * e.len());
    assert(event_rows(e, r).take(2 * e.len()) =~= event_rows(e, r));
    e.lemma_rw_before_range(0, 2 * e.len());
}

} // verus!
