//! The witness table: each copy event becomes paired read and write rows,
//! followed by two padding rows.
use vstd::prelude::*;
use crate::event::{
    id_field, lemma_rlc_fold_range, log_addr, number_or_hash_to_field, rlc_fold, CopyDataType,
    CopyEvent, LOG_DATA_FIELD_TAG,
};
use crate::field::{fe_mul_add, modulus};

verus! {

/// One row of the copy circuit. Field cells (`id`, `value`, `rlc_acc`) hold
/// canonical field elements; addresses and counters hold their integers.
#[derive(Clone, Copy, Debug, PartialEq, Eq, Structural)]
pub struct Row {
    pub q_enable: bool,
    /// Set on read rows.
    pub q_step: bool,
    pub is_first: bool,
    pub is_last: bool,
    pub id: u64,
    pub tag: CopyDataType,
    pub addr: u128,
    pub src_addr_end: u64,
    pub bytes_left: u64,
    pub value: u64,
    pub rlc_acc: u64,
    pub is_code: bool,
    pub is_pad: bool,
    pub rw_counter: u64,
    pub rwc_inc_left: u64,
}

/// The row that closes the table: disabled, every cell zero, default tag.
pub open spec fn padding_row() -> Row {
    Row {
        q_enable: false,
        q_step: false,
        is_first: false,
        is_last: false,
        id: 0,
        tag: CopyDataType::Memory,
        addr: 0,
        src_addr_end: 0,
        bytes_left: 0,
        value: 0,
        rlc_acc: 0,
        is_code: false,
        is_pad: false,
        rw_counter: 0,
        rwc_inc_left: 0,
    }
}

/// Address of row `k`: the source address on a read, the destination
/// address on a write, packed with the log id for a log destination.
pub open spec fn step_addr(e: CopyEvent, k: int) -> int {
    if k % 2 == 0 {
        e.src_addr + k / 2
    } else if e.dst_type == CopyDataType::TxLog {
        log_addr(e.dst_addr + k / 2, e.log_id.unwrap() as int)
    } else {
        e.dst_addr + k / 2
    }
}

/// Value of row `k`: the byte, except on the writes of an RLC destination,
/// which carry the running combination of the bytes so far.
pub open spec fn step_value(e: CopyEvent, k: int, r: int) -> int {
    if k % 2 == 1 && e.dst_type == CopyDataType::RlcAcc {
        rlc_fold(e.byte_values().take(k / 2 + 1), r)
    } else {
        e.bytes@[k / 2].0 as int
    }
}

/// The combination of the whole event for an RLC destination, else 0.
pub open spec fn event_rlc_acc(e: CopyEvent, r: int) -> int {
    if e.dst_type == CopyDataType::RlcAcc {
        rlc_fold(e.byte_values(), r)
    } else {
        0
    }
}

/// Row `k` of event `e`; row `2i` reads byte `i`, row `2i + 1` writes it.
pub open spec fn step_row(e: CopyEvent, k: int, r: int) -> Row {
    let read = k % 2 == 0;
    let i = k / 2;
    Row {
        q_enable: true,
        q_step: read,
        is_first: k == 0,
        is_last: k == 2 * e.len() - 1,
        id: (if read {
            id_field(e.src_id, r)
        } else {
            id_field(e.dst_id, r)
        }) as u64,
        tag: e.tag_at(k),
        addr: step_addr(e, k) as u128,
        src_addr_end: if read {
            e.src_addr_end
        } else {
            0
        },
        bytes_left: (if read {
            e.len() - i
        } else {
            0
        }) as u64,
        value: step_value(e, k, r) as u64,
        rlc_acc: event_rlc_acc(e, r) as u64,
        is_code: e.tag_at(k) == CopyDataType::Bytecode && e.bytes@[i].1,
        is_pad: e.pad_at(k),
        rw_counter: (e.rw_counter_start + e.rw_before(k)) as u64,
        rwc_inc_left: (e.rw_before(2 * e.len()) - e.rw_before(k)) as u64,
    }
}

/// The `2·N` rows of one event.
pub open spec fn event_rows(e: CopyEvent, r: int) -> Seq<Row> {
    Seq::new((2 * e.len()) as nat, |k: int| step_row(e, k, r))
}

/// The rows of a sequence of events, in order.
pub open spec fn events_rows(es: Seq<CopyEvent>, r: int) -> Seq<Row>
    decreases es.len(),
{
    if es.len() == 0 {
        Seq::empty()
    } else {
        events_rows(es.drop_last(), r) + event_rows(es.last(), r)
    }
}

/// The whole table: the events' rows, then exactly two padding rows.
pub open spec fn block_rows(es: Seq<CopyEvent>, r: int) -> Seq<Row> {
    events_rows(es, r) + seq![padding_row(), padding_row()]
}

pub open spec fn all_valid(es: Seq<CopyEvent>) -> bool {
    forall|m: int| 0 <= m < es.len() ==> #[trigger] es[m].valid()
}

/// The running combination of `s` extended by its byte `i`.
fn rlc_extend(acc: u64, randomness: u64, byte: u8, s: Ghost<Seq<u8>>, i: usize) -> (res: u64)
    requires
        i < s@.len(),
        s@[i as int] == byte,
        acc as int == rlc_fold(s@.take(i as int), randomness as int),
    ensures
        res as int == rlc_fold(s@.take(i + 1), randomness as int),
{
    assert(s@.take(i + 1).drop_last() =~= s@.take(i as int));
    fe_mul_add(acc, randomness, byte as u64)
}

/// A malformed event: the assignment stops at it and leaves the table as
/// it was.
#[derive(Clone, Copy, Debug, PartialEq, Eq, Structural)]
pub struct AssignmentError {
    /// Position of the first event that is not `valid`.
    pub event_index: usize,
}

/// The copy circuit's witness table.
#[derive(Clone, Debug)]
pub struct CopyCircuit {
    pub rows: Vec<Row>,
}

impl CopyCircuit {
    pub fn new() -> (c: CopyCircuit)
        ensures
            c.rows@.len() == 0,
    {
        CopyCircuit { rows: Vec::new() }
    }

    /// Appends row `step_idx` of event `e`, given the cells that depend on
    /// the rows before it.
    pub fn assign_step(
        &mut self,
        e: &CopyEvent,
        step_idx: usize,
        randomness: u64,
        value: u64,
        rlc_acc: u64,
        rw_counter: u64,
        rwc_inc_left: u64,
    )
        requires
            e.valid(),
            step_idx < 2 * e.len(),
            value as int == step_value(*e, step_idx as int, randomness as int),
            rlc_acc as int == event_rlc_acc(*e, randomness as int),
            rw_counter as int == e.rw_counter_start + e.rw_before(step_idx as int),
            rwc_inc_left as int == e.rw_before(2 * e.len()) - e.rw_before(step_idx as int),
        ensures
            final(self).rows@ == old(self).rows@.push(step_row(*e, step_idx as int, randomness as int)),
    {
        let n = e.bytes.len();
        let is_read = step_idx % 2 == 0;
        let i = step_idx / 2;
        let id = if is_read {
            number_or_hash_to_field(&e.src_id, randomness)
        } else {
            number_or_hash_to_field(&e.dst_id, randomness)
        };
        let tag = if is_read {
            e.src_type
        } else {
            e.dst_type
        };
        let addr: u128 = if is_read {
            (e.src_addr + i as u64) as u128
        } else if e.dst_type == CopyDataType::TxLog {
            let log_id = e.log_id.unwrap();
            (e.dst_addr + i as u64) as u128 + (LOG_DATA_FIELD_TAG as u128) * 0x1_0000_0000u128
                + (log_id as u128) * 0x1_0000_0000_0000u128
        } else {
            (e.dst_addr + i as u64) as u128
        };
        let is_pad = is_read && e.src_addr + i as u64 >= e.src_addr_end;
        let row = Row {
            q_enable: true,
            q_step: is_read,
            is_first: step_idx == 0,
            is_last: step_idx == 2 * n - 1,
            id,
            tag,
            addr,
            src_addr_end: if is_read {
                e.src_addr_end
            } else {
                0
            },
            bytes_left: if is_read {
                (n - i) as u64
            } else {
                0
            },
            value,
            rlc_acc,
            is_code: tag == CopyDataType::Bytecode && e.bytes[i].1,
            is_pad,
            rw_counter,
            rwc_inc_left,
        };
        self.rows.push(row);
        assert(row == step_row(*e, step_idx as int, randomness as int));
    }

    /// Appends the `2·N` rows of event `e`.
    fn assign_event(&mut self, e: &CopyEvent, randomness: u64)
        requires
            e.valid(),
        ensures
            final(self).rows@ == old(self).rows@ + event_rows(*e, randomness as int),
    {
        let ghost r = randomness as int;
        let ghost start = self.rows@;
        let n = e.bytes.len();
        let rlc_acc = if e.dst_type == CopyDataType::RlcAcc {
            e.bytes_rlc(randomness)
        } else {
            0
        };
        let total = e.rw_total();
        let mut rw_counter: u64 = e.rw_counter_start;
        let mut value_acc: u64 = 0;
        let mut k: usize = 0;
        while k < 2 * n
            invariant
                e.valid(),
                r == randomness as int,
                n == e.len(),
                0 <= k <= 2 * n,
                rlc_acc as int == event_rlc_acc(*e, r),
                total as int == e.rw_before(2 * e.len()),
                rw_counter as int == e.rw_counter_start + e.rw_before(k as int),
                e.dst_type == CopyDataType::RlcAcc ==> value_acc as int == rlc_fold(
                    e.byte_values().take(k as int / 2),
                    r,
                ),
                self.rows@ == start + event_rows(*e, r).take(k as int),
            decreases 2 * n - k,
        {
            proof {
                e.lemma_rw_before_range(k as int, 2 * e.len());
                e.lemma_rw_before_range(k as int, k as int + 1);
            }
            let i = k / 2;
            let byte = e.bytes[i].0;
            let mut value: u64 = byte as u64;
            if e.dst_type == CopyDataType::RlcAcc && k % 2 == 1 {
                value_acc = rlc_extend(value_acc, randomness, byte, Ghost(e.byte_values()), i);
                value = value_acc;
            }
            assert(value as int == step_value(*e, k as int, r));
            let rwc_inc_left = total - (rw_counter - e.rw_counter_start);
            self.assign_step(e, k, randomness, value, rlc_acc, rw_counter, rwc_inc_left);
            rw_counter = rw_counter + e.rw_diff(k);
            assert(event_rows(*e, r).take(k + 1) =~= event_rows(*e, r).take(k as int).push(
                step_row(*e, k as int, r),
            ));
            assert(self.rows@ =~= start + event_rows(*e, r).take(k + 1));
            k = k + 1;
        }
        assert(event_rows(*e, r).take(2 * n) =~= event_rows(*e, r));
    }

    /// Fills the table from a block's copy events: the rows of each event in
    /// order, then two padding rows. Where an event is not `valid` the table
    /// is left as it was and the first such event is named.
    pub fn assign_block(&mut self, events: &Vec<CopyEvent>, randomness: u64) -> (res: Result<
        (),
        AssignmentError,
    >)
        ensures
            match res {
                Ok(()) => all_valid(events@) && final(self).rows@ == block_rows(
                    events@,
                    randomness as int,
                ),
                Err(err) => {
                    &&& err.event_index < events@.len()
                    &&& !events@[err.event_index as int].valid()
                    &&& forall|m: int| 0 <= m < err.event_index ==> #[trigger] events@[m].valid()
                    &&& final(self).rows@ == old(self).rows@
                },
            },
    {
        let mut m: usize = 0;
        while m < events.len()
            invariant
                0 <= m <= events@.len(),
                forall|j: int| 0 <= j < m ==> #[trigger] events@[j].valid(),
            decreases events@.len() - m,
        {
            if !events[m].is_valid() {
                return Err(AssignmentError { event_index: m });
            }
            m = m + 1;
        }
        let ghost r = randomness as int;
        self.rows = Vec::new();
        let mut m: usize = 0;
        while m < events.len()
            invariant
                0 <= m <= events@.len(),
                r == randomness as int,
                all_valid(events@),
                self.rows@ == events_rows(events@.take(m as int), r),
            decreases events@.len() - m,
        {
            assert(events@.take(m + 1).drop_last() =~= events@.take(m as int));
            assert(events@.take(m + 1).last() == events@[m as int]);
            self.assign_event(&events[m], randomness);
            assert(events_rows(events@.take(m + 1), r) == events_rows(events@.take(m as int), r)
                + event_rows(events@[m as int], r));
            m = m + 1;
        }
        assert(events@.take(events@.len() as int) =~= events@);
        self.assign_padding_row();
        self.assign_padding_row();
        assert(self.rows@ =~= block_rows(events@, r));
        Ok(())
    }

    /// Appends a padding row.
    pub fn assign_padding_row(&mut self)
        ensures
            final(self).rows@ == old(self).rows@.push(padding_row()),
    {
        let row = Row {
            q_enable: false,
            q_step: false,
            is_first: false,
            is_last: false,
            id: 0,
            tag: CopyDataType::Memory,
            addr: 0,
            src_addr_end: 0,
            bytes_left: 0,
            value: 0,
            rlc_acc: 0,
            is_code: false,
            is_pad: false,
            rw_counter: 0,
            rwc_inc_left: 0,
        };
        self.rows.push(row);
    }
}

/// Number of bytes over all events.
pub open spec fn total_bytes(es: Seq<CopyEvent>) -> int
    decreases es.len(),
{
    if es.len() == 0 {
        0
    } else {
        total_bytes(es.drop_last()) + es.last().len()
    }
}

/// An event of `N` bytes gives `2·N` rows.
pub proof fn lemma_event_row_count(e: CopyEvent, r: int)
    ensures
        event_rows(e, r).len() == 2 * e.len(),
{
}

/// The table has two rows per byte copied, plus the two padding rows.
pub proof fn lemma_block_row_count(es: Seq<CopyEvent>, r: int)
    ensures
        block_rows(es, r).len() == 2 * total_bytes(es) + 2,
    decreases es.len(),
{
    if es.len() > 0 {
        lemma_block_row_count(es.drop_last(), r);
    }
}

/// Events without bytes give no rows: such a table is the two padding rows.
pub proof fn lemma_empty_events(es: Seq<CopyEvent>, r: int)
    requires
        forall|m: int| 0 <= m < es.len() ==> (#[trigger] es[m]).len() == 0,
    ensures
        block_rows(es, r) == seq![padding_row(), padding_row()],
    decreases es.len(),
{
    if es.len() > 0 {
        let pre = es.drop_last();
        assert forall|m: int| 0 <= m < pre.len() implies (#[trigger] pre[m]).len() == 0 by {
            assert(pre[m] == es[m]);
        }
        lemma_empty_events(pre, r);
        assert(es[es.len() - 1].len() == 0);
        assert(event_rows(es.last(), r) =~= Seq::<Row>::empty());
        assert(events_rows(pre, r) =~= Seq::<Row>::empty()) by {
            assert(block_rows(pre, r).len() == 2);
        }
        assert(events_rows(es, r) =~= Seq::<Row>::empty());
    }
    assert(block_rows(es, r) =~= seq![padding_row(), padding_row()]);
}

/// A one-byte event is one read row, which opens the event, and one write
/// row, which closes it.
pub proof fn lemma_single_byte_event(e: CopyEvent, r: int)
    requires
        e.len() == 1,
    ensures
        event_rows(e, r).len() == 2,
        event_rows(e, r)[0].is_first && !event_rows(e, r)[0].is_last,
        event_rows(e, r)[0].q_step,
        event_rows(e, r)[1].is_last && !event_rows(e, r)[1].is_first,
        !event_rows(e, r)[1].q_step,
{
}

pub proof fn lemma_rlc_fold_zeros(s: Seq<u8>, r: int)
    requires
        forall|i: int| 0 <= i < s.len() ==> s[i] == 0,
    ensures
        rlc_fold(s, r) == 0,
    decreases s.len(),
{
    if s.len() > 0 {
        lemma_rlc_fold_zeros(s.drop_last(), r);
        assert(s.last() == 0);
        let prev = rlc_fold(s.drop_last(), r);
        assert(prev * r == 0) by (nonlinear_arith)
            requires
                prev == 0,
        ;
        assert(rlc_fold(s, r) == (prev * r + s.last() as int) % modulus());
        assert((0int + 0int) % modulus() == 0);
    }
}

/// Where the source ends at or before its first address, every read row is
/// padding and every row, read or write, carries 0.
pub proof fn lemma_exhausted_source(e: CopyEvent, r: int)
    requires
        e.valid(),
        e.src_addr_end <= e.src_addr,
    ensures
        forall|k: int|
            0 <= k < 2 * e.len() ==> (#[trigger] event_rows(e, r)[k]).value == 0 && (k % 2 == 0
                ==> event_rows(e, r)[k].is_pad),
{
    assert forall|k: int| 0 <= k < 2 * e.len() implies (#[trigger] event_rows(e, r)[k]).value
        == 0 && (k % 2 == 0 ==> event_rows(e, r)[k].is_pad) by {
        let i = k / 2;
        assert(e.bytes@[i].0 == 0);
        if k % 2 == 1 && e.dst_type == CopyDataType::RlcAcc {
            let s = e.byte_values().take(i + 1);
            assert forall|j: int| 0 <= j < s.len() implies s[j] == 0 by {
                assert(e.bytes@[j].0 == 0);
            }
            lemma_rlc_fold_zeros(s, r);
        }
    }
}

/// On an RLC destination the last write row carries the running
/// combination of all the bytes, which is also the event's `rlc_acc`.
pub proof fn lemma_rlc_last_value(e: CopyEvent, r: int)
    requires
        e.valid(),
        e.dst_type == CopyDataType::RlcAcc,
        e.len() > 0,
    ensures
        event_rows(e, r)[2 * e.len() - 1].value as int == rlc_fold(e.byte_values(), r),
        event_rows(e, r)[2 * e.len() - 1].value == event_rows(e, r)[2 * e.len() - 1].rlc_acc,
{
    lemma_rlc_fold_range(e.byte_values(), r);
    assert(e.byte_values().take(e.len()) =~= e.byte_values());
}

/// For a destination other than RLC, what is written at the destination is
/// what was read: the event's bytes, in order, at consecutive addresses, and
/// 0 wherever the source was exhausted.
pub proof fn lemma_copy_round_trip(e: CopyEvent, r: int)
    requires
        e.valid(),
        e.dst_type != CopyDataType::RlcAcc,
    ensures
        forall|i: int|
            0 <= i < e.len() ==> {
                let rd = #[trigger] event_rows(e, r)[2 * i];
                let wr = event_rows(e, r)[2 * i + 1];
                &&& rd.value == e.bytes@[i].0 && wr.value == e.bytes@[i].0
                &&& rd.addr == e.src_addr + i
                &&& (e.dst_type != CopyDataType::TxLog ==> wr.addr == e.dst_addr + i)
                &&& (e.src_addr + i >= e.src_addr_end ==> wr.value == 0)
            },
{
    assert forall|i: int| 0 <= i < e.len() implies {
        let rd = #[trigger] event_rows(e, r)[2 * i];
        let wr = event_rows(e, r)[2 * i + 1];
        &&& rd.value == e.bytes@[i].0 && wr.value == e.bytes@[i].0
        &&& rd.addr == e.src_addr + i
        &&& (e.dst_type != CopyDataType::TxLog ==> wr.addr == e.dst_addr + i)
        &&& (e.src_addr + i >= e.src_addr_end ==> wr.value == 0)
    } by {
        assert((2 * i) / 2 == i);
        assert((2 * i + 1) / 2 == i);
        assert((2 * i + 1) % 2 == 1);
    }
}

} // verus!
