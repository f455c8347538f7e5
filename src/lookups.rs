//! The lookups that bind the copy rows to the RW, bytecode and transaction
//! tables. A row that a lookup does not apply to pushes nothing.
use vstd::prelude::*;
use crate::event::CopyDataType;
use crate::table::Row;

verus! {

/// Kind of an RW table entry that a copy row can touch.
#[derive(Clone, Copy, Debug, PartialEq, Eq, Structural)]
pub enum RwTableTag {
    Memory,
    TxLog,
}

/// The tuple a memory or log row looks up in the RW table.
#[derive(Clone, Copy, Debug, PartialEq, Eq, Structural)]
pub struct RwLookup {
    pub rw_counter: u64,
    pub is_write: bool,
    pub tag: RwTableTag,
    /// Call id for memory, transaction id for a log.
    pub id: u64,
    /// Memory address, or the packed log address.
    pub addr: u128,
    pub value: u64,
}

/// The tuple a bytecode row looks up in the bytecode table.
#[derive(Clone, Copy, Debug, PartialEq, Eq, Structural)]
pub struct BytecodeLookup {
    pub code_hash: u64,
    pub index: u128,
    pub is_code: bool,
    pub value: u64,
}

/// The tuple a calldata row looks up in the transaction table.
#[derive(Clone, Copy, Debug, PartialEq, Eq, Structural)]
pub struct CalldataLookup {
    pub tx_id: u64,
    pub index: u128,
    pub value: u64,
}

/// Memory rows that are not padding, reads and writes alike; log rows
/// always, as writes.
pub open spec fn rw_lookup_of(row: Row) -> Option<RwLookup> {
    if row.q_enable && row.tag == CopyDataType::Memory && !row.is_pad {
        Some(
            RwLookup {
                rw_counter: row.rw_counter,
                is_write: !row.q_step,
                tag: RwTableTag::Memory,
                id: row.id,
                addr: row.addr,
                value: row.value,
            },
        )
    } else if row.q_enable && row.tag == CopyDataType::TxLog {
        Some(
            RwLookup {
                rw_counter: row.rw_counter,
                is_write: true,
                tag: RwTableTag::TxLog,
                id: row.id,
                addr: row.addr,
                value: row.value,
            },
        )
    } else {
        None
    }
}

/// Bytecode rows that are not padding.
pub open spec fn bytecode_lookup_of(row: Row) -> Option<BytecodeLookup> {
    if row.q_enable && row.tag == CopyDataType::Bytecode && !row.is_pad {
        Some(
            BytecodeLookup {
                code_hash: row.id,
                index: row.addr,
                is_code: row.is_code,
                value: row.value,
            },
        )
    } else {
        None
    }
}

/// Calldata rows that are not padding.
pub open spec fn calldata_lookup_of(row: Row) -> Option<CalldataLookup> {
    if row.q_enable && row.tag == CopyDataType::TxCalldata && !row.is_pad {
        Some(CalldataLookup { tx_id: row.id, index: row.addr, value: row.value })
    } else {
        None
    }
}

/// Every tuple that a row pushes is an entry of its table.
pub open spec fn lookups_hold(
    rows: Seq<Row>,
    rw: Seq<RwLookup>,
    bytecode: Seq<BytecodeLookup>,
    calldata: Seq<CalldataLookup>,
) -> bool {
    forall|j: int|
        0 <= j < rows.len() ==> {
            &&& (#[trigger] rw_lookup_of(rows[j]) matches Some(t) ==> rw.contains(t))
            &&& (bytecode_lookup_of(rows[j]) matches Some(t) ==> bytecode.contains(t))
            &&& (calldata_lookup_of(rows[j]) matches Some(t) ==> calldata.contains(t))
        }
}

/// The RW tuple of a row, if it pushes one.
pub fn rw_lookup(row: &Row) -> (res: Option<RwLookup>)
    ensures
        res == rw_lookup_of(*row),
{
    if row.q_enable && row.tag == CopyDataType::Memory && !row.is_pad {
        Some(
            RwLookup {
                rw_counter: row.rw_counter,
                is_write: !row.q_step,
                tag: RwTableTag::Memory,
                id: row.id,
                addr: row.addr,
                value: row.value,
            },
        )
    } else if row.q_enable && row.tag == CopyDataType::TxLog {
        Some(
            RwLookup {
                rw_counter: row.rw_counter,
                is_write: true,
                tag: RwTableTag::TxLog,
                id: row.id,
                addr: row.addr,
                value: row.value,
            },
        )
    } else {
        None
    }
}

/// The bytecode tuple of a row, if it pushes one.
pub fn bytecode_lookup(row: &Row) -> (res: Option<BytecodeLookup>)
    ensures
        res == bytecode_lookup_of(*row),
{
    if row.q_enable && row.tag == CopyDataType::Bytecode && !row.is_pad {
        Some(
            BytecodeLookup {
                code_hash: row.id,
                index: row.addr,
                is_code: row.is_code,
                value: row.value,
            },
        )
    } else {
        None
    }
}

/// The calldata tuple of a row, if it pushes one.
pub fn calldata_lookup(row: &Row) -> (res: Option<CalldataLookup>)
    ensures
        res == calldata_lookup_of(*row),
{
    if row.q_enable && row.tag == CopyDataType::TxCalldata && !row.is_pad {
        Some(CalldataLookup { tx_id: row.id, index: row.addr, value: row.value })
    } else {
        None
    }
}

fn rw_contains(table: &Vec<RwLookup>, t: &RwLookup) -> (found: bool)
    ensures
        found == table@.contains(*t),
{
    let mut i: usize = 0;
    while i < table.len()
        invariant
            0 <= i <= table@.len(),
            forall|k: int| 0 <= k < i ==> table@[k] != *t,
        decreases table@.len() - i,
    {
        if table[i] == *t {
            assert(table@[i as int] == *t);
            return true;
        }
        i = i + 1;
    }
    false
}

fn bytecode_contains(table: &Vec<BytecodeLookup>, t: &BytecodeLookup) -> (found: bool)
    ensures
        found == table@.contains(*t),
{
    let mut i: usize = 0;
    while i < table.len()
        invariant
            0 <= i <= table@.len(),
            forall|k: int| 0 <= k < i ==> table@[k] != *t,
        decreases table@.len() - i,
    {
        if table[i] == *t {
            assert(table@[i as int] == *t);
            return true;
        }
        i = i + 1;
    }
    false
}

fn calldata_contains(table: &Vec<CalldataLookup>, t: &CalldataLookup) -> (found: bool)
    ensures
        found == table@.contains(*t),
{
    let mut i: usize = 0;
    while i < table.len()
        invariant
            0 <= i <= table@.len(),
            forall|k: int| 0 <= k < i ==> table@[k] != *t,
        decreases table@.len() - i,
    {
        if table[i] == *t {
            assert(table@[i as int] == *t);
            return true;
        }
        i = i + 1;
    }
    false
}

/// Checks every row's lookups against the given tables.
pub fn check_lookups(
    rows: &Vec<Row>,
    rw: &Vec<RwLookup>,
    bytecode: &Vec<BytecodeLookup>,
    calldata: &Vec<CalldataLookup>,
) -> (ok: bool)
    ensures
        ok == lookups_hold(rows@, rw@, bytecode@, calldata@),
{
    let mut j: usize = 0;
    while j < rows.len()
        invariant
            0 <= j <= rows@.len(),
            forall|i: int|
                0 <= i < j ==> {
                    &&& (#[trigger] rw_lookup_of(rows@[i]) matches Some(t) ==> rw@.contains(t))
                    &&& (bytecode_lookup_of(rows@[i]) matches Some(t) ==> bytecode@.contains(t))
                    &&& (calldata_lookup_of(rows@[i]) matches Some(t) ==> calldata@.contains(t))
                },
        decreases rows@.len() - j,
    {
        let row = &rows[j];
        if let Some(t) = rw_lookup(row) {
            if !rw_contains(rw, &t) {
                return false;
            }
        }
        if let Some(t) = bytecode_lookup(row) {
            if !bytecode_contains(bytecode, &t) {
                return false;
            }
        }
        if let Some(t) = calldata_lookup(row) {
            if !calldata_contains(calldata, &t) {
                return false;
            }
        }
        j = j + 1;
    }
    true
}

} // verus!
