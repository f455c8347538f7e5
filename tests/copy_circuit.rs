use copy_circuit::event::{number_or_hash_to_field, CopyDataType, CopyEvent, NumberOrHash};
use copy_circuit::field::{fe_from_u64, fe_mul_add, MODULUS};
use copy_circuit::gates::verify_rows;
use copy_circuit::lookups::{
    bytecode_lookup, calldata_lookup, check_lookups, rw_lookup, BytecodeLookup, CalldataLookup,
    RwLookup, RwTableTag,
};
use copy_circuit::table::{AssignmentError, CopyCircuit, Row};

const R: u64 = 123456;

fn pseudo_random_bytes(n: usize, seed: u64) -> Vec<u8> {
    let mut x = seed;
    let mut out = Vec::with_capacity(n);
    for _ in 0..n {
        x = x.wrapping_mul(6364136223846793005).wrapping_add(1442695040888963407);
        out.push((x >> 33) as u8);
    }
    out
}

fn event(
    src_type: CopyDataType,
    dst_type: CopyDataType,
    src_addr: u64,
    src_addr_end: u64,
    dst_addr: u64,
    bytes: Vec<(u8, bool)>,
) -> CopyEvent {
    CopyEvent {
        src_type,
        dst_type,
        src_id: NumberOrHash::Number(1),
        dst_id: NumberOrHash::Number(1),
        src_addr,
        src_addr_end,
        dst_addr,
        log_id: None,
        bytes,
        rw_counter_start: 10,
    }
}

fn assign(events: Vec<CopyEvent>) -> CopyCircuit {
    let mut c = CopyCircuit::new();
    assert_eq!(c.assign_block(&events, R), Ok(()));
    c
}

fn calldatacopy_event() -> CopyEvent {
    let length = 0x0fffusize;
    let data = pseudo_random_bytes(length, 7);
    event(
        CopyDataType::TxCalldata,
        CopyDataType::Memory,
        0,
        length as u64,
        0,
        data.into_iter().map(|b| (b, false)).collect(),
    )
}

fn codecopy_event() -> CopyEvent {
    // PUSH32 0x20; PUSH32 0; PUSH32 0; CODECOPY; STOP
    let mut code: Vec<u8> = Vec::new();
    for word in [0x20u8, 0, 0] {
        code.push(0x7f);
        code.extend(std::iter::repeat(0u8).take(31));
        code.push(word);
    }
    code.push(0x39);
    code.push(0x00);
    let bytes: Vec<(u8, bool)> = code[..0x20].iter().enumerate().map(|(i, b)| (*b, i == 0)).collect();
    let mut e = event(CopyDataType::Bytecode, CopyDataType::Memory, 0, code.len() as u64, 0, bytes);
    let mut hash = [0u8; 32];
    for (i, h) in hash.iter_mut().enumerate() {
        *h = (i as u8).wrapping_mul(37).wrapping_add(11);
    }
    e.src_id = NumberOrHash::Hash(hash);
    e
}

fn sha3_event() -> CopyEvent {
    // a 0x200-byte preimage at offset 0x20 of a 0x200-byte memory: the last
    // 0x20 bytes lie past the end and read as 0
    let data = pseudo_random_bytes(0x200, 99);
    let bytes = (0..0x200usize).map(|i| (if 0x20 + i < 0x200 { data[i] } else { 0 }, false)).collect();
    event(CopyDataType::Memory, CopyDataType::RlcAcc, 0x20, 0x200, 0, bytes)
}

fn rlc_of(bytes: &[u8], r: u64) -> u64 {
    let p = MODULUS as u128;
    let mut acc: u128 = 0;
    for b in bytes {
        acc = (acc * r as u128 + *b as u128) % p;
    }
    acc as u64
}

#[test]
fn copy_circuit_valid_calldatacopy() {
    let c = assign(vec![calldatacopy_event()]);
    assert_eq!(c.rows.len(), 2 * 0x0fff + 2);
    assert!(verify_rows(&c.rows, R));
}

#[test]
fn copy_circuit_valid_codecopy() {
    let c = assign(vec![codecopy_event()]);
    assert_eq!(c.rows.len(), 2 * 0x20 + 2);
    assert!(c.rows[0].is_code);
    assert!(!c.rows[2].is_code);
    assert!(!c.rows[1].is_code);
    assert!(verify_rows(&c.rows, R));
}

#[test]
fn copy_circuit_valid_sha3() {
    let e = sha3_event();
    let values: Vec<u8> = e.bytes.iter().map(|(b, _)| *b).collect();
    let c = assign(vec![e]);
    assert!(verify_rows(&c.rows, R));
    let last = c.rows[2 * 0x200 - 1];
    assert!(last.is_last);
    assert_eq!(last.value, rlc_of(&values, R));
    assert_eq!(last.rlc_acc, last.value);
    // the padded reads carry 0 and take no counter step
    let padded = c.rows[2 * 0x1f0];
    assert!(padded.is_pad);
    assert_eq!(padded.value, 0);
}

#[test]
fn tampered_tag_is_rejected() {
    let mut c = assign(vec![calldatacopy_event()]);
    c.rows[100].tag = CopyDataType::Bytecode;
    assert!(!verify_rows(&c.rows, R));
}

#[test]
fn tampered_value_is_rejected() {
    let mut c = assign(vec![codecopy_event()]);
    c.rows[5].value += 1;
    assert!(!verify_rows(&c.rows, R));
}

#[test]
fn tampered_padding_is_rejected() {
    let bytes = (0..8u8).map(|i| (if i < 4 { i + 1 } else { 0 }, false)).collect();
    let mut c = assign(vec![event(CopyDataType::Memory, CopyDataType::Memory, 0, 4, 100, bytes)]);
    assert!(verify_rows(&c.rows, R));
    // the read of byte 5 lies past the end of the source
    assert!(c.rows[10].is_pad);
    c.rows[10].is_pad = false;
    assert!(!verify_rows(&c.rows, R));
}

#[test]
fn row_counts() {
    let e1 = event(CopyDataType::Memory, CopyDataType::Memory, 0, 10, 0, vec![(1, false); 3]);
    let e2 = event(CopyDataType::TxCalldata, CopyDataType::Memory, 0, 10, 0, vec![(2, false); 5]);
    let c = assign(vec![e1, e2]);
    assert_eq!(c.rows.len(), 2 * 3 + 2 * 5 + 2);
    let pad = c.rows[c.rows.len() - 1];
    assert!(!pad.q_enable);
    assert_eq!(pad.value, 0);
    assert_eq!(pad.tag, CopyDataType::Memory);
}

#[test]
fn read_rows_pad_past_the_end() {
    let bytes = vec![(9, false), (8, false), (0, false), (0, false)];
    let c = assign(vec![event(CopyDataType::Memory, CopyDataType::Memory, 5, 7, 0, bytes)]);
    for k in (0..8).step_by(2) {
        let row: Row = c.rows[k];
        assert!(row.q_step);
        assert_eq!(row.is_pad, row.addr >= row.src_addr_end as u128);
        if row.is_pad {
            assert_eq!(row.value, 0);
        }
    }
    assert!(!c.rows[2].is_pad);
    assert!(c.rows[4].is_pad);
}

#[test]
fn counter_steps() {
    // memory to memory, with the last two reads padded
    let bytes = vec![(1, false), (2, false), (0, false), (0, false)];
    let c = assign(vec![event(CopyDataType::Memory, CopyDataType::Memory, 0, 2, 0, bytes)]);
    let counters: Vec<u64> = c.rows[..8].iter().map(|r| r.rw_counter).collect();
    assert_eq!(counters, vec![10, 11, 12, 13, 14, 14, 15, 15]);
    let left: Vec<u64> = c.rows[..8].iter().map(|r| r.rwc_inc_left).collect();
    assert_eq!(left, vec![6, 5, 4, 3, 2, 2, 1, 1]);
    assert!(verify_rows(&c.rows, R));
}

#[test]
fn first_row_holds_all_counter_steps() {
    // bytecode to memory: only the writes step the counter
    let bytes = vec![(0x60, true), (0x01, false), (0x00, true)];
    let c = assign(vec![event(CopyDataType::Bytecode, CopyDataType::Memory, 0, 3, 0, bytes)]);
    assert_eq!(c.rows[0].rwc_inc_left, 3);
    assert_eq!(c.rows[5].rw_counter, 12);
    assert_eq!(c.rows[5].rwc_inc_left, 1);
}

#[test]
fn rlc_destination_accumulates() {
    let bytes = vec![(1, false), (2, false), (3, false)];
    let c = assign(vec![event(CopyDataType::Memory, CopyDataType::RlcAcc, 0, 3, 0, bytes)]);
    let r = R as u128;
    let expected = (((1 * r + 2) * r) + 3) as u64;
    assert_eq!(c.rows[1].value, 1);
    assert_eq!(c.rows[3].value, (r + 2) as u64);
    assert_eq!(c.rows[5].value, expected);
    assert_eq!(c.rows[0].rlc_acc, expected);
    assert!(verify_rows(&c.rows, R));
}

#[test]
fn round_trip_copy() {
    let bytes = vec![(5, false), (6, false), (7, false), (0, false)];
    let c = assign(vec![event(CopyDataType::Memory, CopyDataType::Memory, 40, 43, 200, bytes)]);
    let written: Vec<u64> = (0..4).map(|i| c.rows[2 * i + 1].value).collect();
    assert_eq!(written, vec![5, 6, 7, 0]);
    let addrs: Vec<u128> = (0..4).map(|i| c.rows[2 * i + 1].addr).collect();
    assert_eq!(addrs, vec![200, 201, 202, 203]);
    assert_eq!(c.rows[6].addr, 43);
}

#[test]
fn empty_copy() {
    let c = assign(vec![event(CopyDataType::Memory, CopyDataType::Memory, 0, 0, 0, vec![])]);
    assert_eq!(c.rows.len(), 2);
    assert!(verify_rows(&c.rows, R));
    let none = assign(vec![]);
    assert_eq!(none.rows.len(), 2);
    assert!(verify_rows(&none.rows, R));
}

#[test]
fn exhausted_source() {
    let bytes = vec![(0, false); 4];
    let c = assign(vec![event(CopyDataType::Memory, CopyDataType::Memory, 10, 10, 0, bytes)]);
    for k in 0..8 {
        assert_eq!(c.rows[k].value, 0);
        if k % 2 == 0 {
            assert!(c.rows[k].is_pad);
        }
    }
    assert!(verify_rows(&c.rows, R));
}

#[test]
fn single_byte_event() {
    let c = assign(vec![event(CopyDataType::Memory, CopyDataType::Memory, 0, 1, 0, vec![(42, false)])]);
    assert_eq!(c.rows.len(), 4);
    assert!(c.rows[0].is_first && !c.rows[0].is_last);
    assert!(c.rows[1].is_last && !c.rows[1].is_first);
    assert!(verify_rows(&c.rows, R));
}

#[test]
fn neighbouring_events_of_different_tags() {
    let e1 = event(CopyDataType::TxCalldata, CopyDataType::Memory, 0, 2, 0, vec![(1, false), (2, false)]);
    let mut e2 = event(CopyDataType::Bytecode, CopyDataType::Memory, 7, 9, 3, vec![(3, true), (4, false)]);
    e2.src_id = NumberOrHash::Hash([9u8; 32]);
    e2.rw_counter_start = 12;
    let c = assign(vec![e1, e2]);
    assert!(verify_rows(&c.rows, R));
}

#[test]
fn malformed_event_is_reported() {
    let good = event(CopyDataType::Memory, CopyDataType::Memory, 0, 1, 0, vec![(1, false)]);
    // a nonzero byte where the source is exhausted
    let bad = event(CopyDataType::Memory, CopyDataType::Memory, 0, 0, 0, vec![(1, false)]);
    let mut c = CopyCircuit::new();
    assert_eq!(c.assign_block(&vec![good.clone(), bad], R), Err(AssignmentError { event_index: 1 }));
    assert_eq!(c.rows.len(), 0);
    // a log destination without a log id
    let no_log = event(CopyDataType::Memory, CopyDataType::TxLog, 0, 1, 0, vec![(1, false)]);
    assert_eq!(c.assign_block(&vec![no_log], R), Err(AssignmentError { event_index: 0 }));
    // an address range that overflows
    let wrap = event(CopyDataType::Memory, CopyDataType::Memory, u64::MAX, u64::MAX, 0, vec![(0, false); 2]);
    assert_eq!(c.assign_block(&vec![good, wrap], R), Err(AssignmentError { event_index: 1 }));
}

#[test]
fn log_destination_packs_addresses() {
    let mut e = event(CopyDataType::Memory, CopyDataType::TxLog, 0, 2, 5, vec![(1, false), (2, false)]);
    e.log_id = Some(2);
    let c = assign(vec![e]);
    let packed = 5u128 + (3u128 << 32) + (2u128 << 48);
    assert_eq!(c.rows[1].addr, packed);
    assert_eq!(c.rows[3].addr, packed + 1);
    assert_eq!(c.rows[0].addr, 0);
    assert_eq!(c.rows[1].tag, CopyDataType::TxLog);
    assert!(verify_rows(&c.rows, R));
}

#[test]
fn identifiers_to_field() {
    assert_eq!(number_or_hash_to_field(&NumberOrHash::Number(77), R), 77);
    assert_eq!(number_or_hash_to_field(&NumberOrHash::Number(u64::MAX), R), u64::MAX - MODULUS);
    let mut h = [0u8; 32];
    h[31] = 3;
    h[30] = 2;
    assert_eq!(number_or_hash_to_field(&NumberOrHash::Hash(h), R), 2 * R + 3);
    h[0] = 1;
    assert_eq!(number_or_hash_to_field(&NumberOrHash::Hash(h), R), rlc_of(&h, R));
}

#[test]
fn field_arithmetic() {
    assert_eq!(fe_from_u64(MODULUS), 0);
    assert_eq!(fe_mul_add(2, 3, 4), 10);
    assert_eq!(fe_mul_add(MODULUS - 1, 2, 0), MODULUS - 2);
    assert_eq!(fe_mul_add(u64::MAX, u64::MAX, u64::MAX), ((u64::MAX as u128 * u64::MAX as u128 + u64::MAX as u128) % MODULUS as u128) as u64);
}

#[test]
fn tag_bits_round_trip() {
    let tags = [
        CopyDataType::Bytecode,
        CopyDataType::Memory,
        CopyDataType::TxCalldata,
        CopyDataType::TxLog,
        CopyDataType::RlcAcc,
    ];
    for t in tags {
        assert!(t.to_bits() < 8);
        assert_eq!(CopyDataType::from_bits(t.to_bits()), Some(t));
    }
    assert_eq!(CopyDataType::from_bits(0), None);
    assert_eq!(CopyDataType::from_bits(7), None);
}

fn calldatacopy_tables(e: &CopyEvent) -> (Vec<RwLookup>, Vec<CalldataLookup>) {
    let mut rw = Vec::new();
    let mut calldata = Vec::new();
    for (i, (b, _)) in e.bytes.iter().enumerate() {
        calldata.push(CalldataLookup { tx_id: 1, index: i as u128, value: *b as u64 });
        rw.push(RwLookup {
            rw_counter: e.rw_counter_start + i as u64,
            is_write: true,
            tag: RwTableTag::Memory,
            id: 1,
            addr: i as u128,
            value: *b as u64,
        });
    }
    (rw, calldata)
}

#[test]
fn lookups_of_a_calldata_copy() {
    let e = calldatacopy_event();
    let (rw, calldata) = calldatacopy_tables(&e);
    let mut c = assign(vec![e]);
    assert!(check_lookups(&c.rows, &rw, &vec![], &calldata));
    // a wrong byte in the transaction table
    let mut bad = calldata.clone();
    bad[17].value ^= 1;
    assert!(!check_lookups(&c.rows, &rw, &vec![], &bad));
    // a read row retagged as bytecode finds no bytecode entry
    c.rows[100].tag = CopyDataType::Bytecode;
    assert!(!check_lookups(&c.rows, &rw, &vec![], &calldata));
}

#[test]
fn lookup_tuples() {
    let bytes = vec![(0x60, true), (0, false)];
    let mut e = event(CopyDataType::Bytecode, CopyDataType::Memory, 0, 1, 8, bytes);
    e.src_id = NumberOrHash::Number(5);
    e.dst_id = NumberOrHash::Number(2);
    let c = assign(vec![e]);
    assert_eq!(
        bytecode_lookup(&c.rows[0]),
        Some(BytecodeLookup { code_hash: 5, index: 0, is_code: true, value: 0x60 })
    );
    // a padded read pushes nothing
    assert_eq!(bytecode_lookup(&c.rows[2]), None);
    assert_eq!(rw_lookup(&c.rows[0]), None);
    assert_eq!(
        rw_lookup(&c.rows[1]),
        Some(RwLookup { rw_counter: 10, is_write: true, tag: RwTableTag::Memory, id: 2, addr: 8, value: 0x60 })
    );
    assert_eq!(calldata_lookup(&c.rows[1]), None);
    // padding rows push nothing
    assert_eq!(rw_lookup(&c.rows[4]), None);
    let mut log = event(CopyDataType::Memory, CopyDataType::TxLog, 3, 4, 0, vec![(7, false)]);
    log.log_id = Some(1);
    let c = assign(vec![log]);
    let read = rw_lookup(&c.rows[0]).unwrap();
    assert!(!read.is_write);
    assert_eq!(read.addr, 3);
    let write = rw_lookup(&c.rows[1]).unwrap();
    assert!(write.is_write);
    assert_eq!(write.tag, RwTableTag::TxLog);
    assert_eq!(write.rw_counter, 11);
}
