//! Copy events: the witness that the circuit's rows are assigned from.
use vstd::prelude::*;
use crate::field::{fe_from_u64, fe_mul_add, modulus, MODULUS};

verus! {

/// Where a copy step reads from or writes to.
#[derive(Clone, Copy, Debug, PartialEq, Eq, Structural)]
pub enum CopyDataType {
    Bytecode,
    Memory,
    TxCalldata,
    TxLog,
    RlcAcc,
}

impl CopyDataType {
    /// The 3-bit number that the tag columns hold.
    pub open spec fn code(self) -> u8 {
        match self {
            CopyDataType::Bytecode => 1,
            CopyDataType::Memory => 2,
            CopyDataType::TxCalldata => 3,
            CopyDataType::TxLog => 4,
            CopyDataType::RlcAcc => 5,
        }
    }

    /// Encodes the tag as its 3-bit number.
    pub fn to_bits(&self) -> (r: u8)
        ensures
            r == self.code(),
            r < 8,
    {
        match self {
            CopyDataType::Bytecode => 1,
            CopyDataType::Memory => 2,
            CopyDataType::TxCalldata => 3,
            CopyDataType::TxLog => 4,
            CopyDataType::RlcAcc => 5,
        }
    }

    /// Decodes a 3-bit number; `None` where no tag has that number.
    pub fn from_bits(v: u8) -> (r: Option<CopyDataType>)
        ensures
            match r {
                Some(t) => t.code() == v,
                None => forall|t: CopyDataType| t.code() != v,
            },
    {
        match v {
            1 => Some(CopyDataType::Bytecode),
            2 => Some(CopyDataType::Memory),
            3 => Some(CopyDataType::TxCalldata),
            4 => Some(CopyDataType::TxLog),
            5 => Some(CopyDataType::RlcAcc),
            _ => None,
        }
    }

    /// The encoding is injective: two tags with the same bits are the same tag.
    pub proof fn lemma_code_injective(a: CopyDataType, b: CopyDataType)
        ensures
            a.code() == b.code() ==> a == b,
    {
    }
}

/// Identifier of a copy's source or destination: a call or transaction id,
/// or the 32-byte (big-endian) hash of a bytecode.
#[derive(Clone, Copy, Debug)]
pub enum NumberOrHash {
    Number(u64),
    Hash([u8; 32]),
}

/// Running random linear combination of `s`: starting from 0, each byte in
/// order gives `acc · r + byte`. This is `Σ s[i] · r^(n−1−i)` in the field.
pub open spec fn rlc_fold(s: Seq<u8>, r: int) -> int
    decreases s.len(),
{
    if s.len() == 0 {
        0
    } else {
        (rlc_fold(s.drop_last(), r) * r + s.last() as int) % modulus()
    }
}

pub proof fn lemma_rlc_fold_range(s: Seq<u8>, r: int)
    ensures
        0 <= rlc_fold(s, r) < modulus(),
    decreases s.len(),
{
    if s.len() > 0 {
        lemma_rlc_fold_range(s.drop_last(), r);
    }
}

/// Field image of an identifier. A hash is read little-endian and combined
/// with the randomness: `Σ h[31−i] · r^i`.
pub open spec fn id_field(v: NumberOrHash, r: int) -> int {
    match v {
        NumberOrHash::Number(n) => n as int % modulus(),
        NumberOrHash::Hash(h) => rlc_fold(h@, r),
    }
}

/// Encodes an identifier into a field element.
pub fn number_or_hash_to_field(v: &NumberOrHash, randomness: u64) -> (res: u64)
    ensures
        res as int == id_field(*v, randomness as int),
        res < MODULUS,
{
    match v {
        NumberOrHash::Number(n) => fe_from_u64(*n),
        NumberOrHash::Hash(h) => {
            let mut acc: u64 = 0;
            let mut i: usize = 0;
            while i < 32
                invariant
                    0 <= i <= 32,
                    h@.len() == 32,
                    acc as int == rlc_fold(h@.take(i as int), randomness as int),
                decreases 32 - i,
            {
                assert(h@.take(i + 1).drop_last() =~= h@.take(i as int));
                acc = fe_mul_add(acc, randomness, h[i] as u64);
                i = i + 1;
            }
            assert(h@.take(32) =~= h@);
            proof {
                lemma_rlc_fold_range(h@, randomness as int);
            }
            acc
        },
    }
}

/// Field tag of a log's data bytes in the RW table's address packing.
pub const LOG_DATA_FIELD_TAG: u64 = 3;

/// Address under which the RW table keys byte `byte_index` of log `log_id`:
/// `byte_index | data_tag << 32 | log_id << 48`.
pub open spec fn log_addr(byte_index: int, log_id: int) -> int {
    byte_index + LOG_DATA_FIELD_TAG * 0x1_0000_0000 + log_id * 0x1_0000_0000_0000
}

/// One copy operation of the execution trace.
#[derive(Clone, Debug)]
pub struct CopyEvent {
    pub src_type: CopyDataType,
    pub dst_type: CopyDataType,
    pub src_id: NumberOrHash,
    pub dst_id: NumberOrHash,
    /// First address read.
    pub src_addr: u64,
    /// Reads at or past this address are padding and yield 0.
    pub src_addr_end: u64,
    /// First address written.
    pub dst_addr: u64,
    /// Which log of the transaction is written, for a log destination.
    pub log_id: Option<u64>,
    /// The copied bytes, each with whether it is an opcode (for bytecode).
    pub bytes: Vec<(u8, bool)>,
    /// RW counter at the event's first row.
    pub rw_counter_start: u64,
}

impl CopyEvent {
    pub open spec fn len(&self) -> int {
        self.bytes@.len() as int
    }

    pub open spec fn byte_values(&self) -> Seq<u8> {
        Seq::new(self.bytes@.len(), |i: int| self.bytes@[i].0)
    }

    /// Tag of row `k` of the event: even rows read, odd rows write.
    pub open spec fn tag_at(&self, k: int) -> CopyDataType {
        if k % 2 == 0 {
            self.src_type
        } else {
            self.dst_type
        }
    }

    /// Whether row `k` reads at or past the end of the source.
    pub open spec fn pad_at(&self, k: int) -> bool {
        k % 2 == 0 && self.src_addr + k / 2 >= self.src_addr_end
    }

    /// 1 where row `k` takes an RW counter step: a memory or log access
    /// that is not padding.
    pub open spec fn rw_diff_at(&self, k: int) -> int {
        if (self.tag_at(k) == CopyDataType::Memory || self.tag_at(k) == CopyDataType::TxLog)
            && !self.pad_at(k) {
            1
        } else {
            0
        }
    }

    /// Counter steps taken by the rows before row `k`.
    pub open spec fn rw_before(&self, k: int) -> int
        decreases k,
    {
        if k <= 0 {
            0
        } else {
            self.rw_before(k - 1) + self.rw_diff_at(k - 1)
        }
    }

    /// What the assignment needs of an event: a log id for a log
    /// destination, addresses and counters that do not overflow, and zero
    /// bytes wherever the source is exhausted.
    pub open spec fn valid(&self) -> bool {
        &&& (self.dst_type == CopyDataType::TxLog ==> self.log_id.is_some())
        &&& self.src_addr + self.len() <= u64::MAX
        &&& self.dst_addr + self.len() <= u64::MAX
        &&& self.rw_counter_start + 2 * self.len() <= u64::MAX
        &&& 2 * self.len() + 2 <= usize::MAX
        &&& forall|i: int|
            0 <= i < self.len() && self.src_addr + i >= self.src_addr_end
                ==> #[trigger] self.bytes@[i].0 == 0
    }

    pub proof fn lemma_rw_before_range(&self, a: int, b: int)
        requires
            0 <= a <= b,
        ensures
            0 <= self.rw_before(a) <= self.rw_before(b) <= self.rw_before(a) + (b - a),
            self.rw_before(b) <= b,
        decreases b,
    {
        if b > a {
            self.lemma_rw_before_range(a, b - 1);
        } else if b > 0 {
            self.lemma_rw_before_range(b - 1, b - 1);
        }
    }

    /// Checks `valid`.
    pub fn is_valid(&self) -> (b: bool)
        ensures
            b == self.valid(),
    {
        let n = self.bytes.len();
        if self.dst_type == CopyDataType::TxLog && self.log_id.is_none() {
            return false;
        }
        if n as u64 > u64::MAX - self.src_addr || n as u64 > u64::MAX - self.dst_addr {
            return false;
        }
        if n > (usize::MAX - 2) / 2 || (2 * n) as u64 > u64::MAX - self.rw_counter_start {
            return false;
        }
        let mut i: usize = 0;
        while i < n
            invariant
                n == self.bytes@.len(),
                self.src_addr + n <= u64::MAX,
                0 <= i <= n,
                forall|j: int|
                    0 <= j < i && self.src_addr + j >= self.src_addr_end
                        ==> #[trigger] self.bytes@[j].0 == 0,
            decreases n - i,
        {
            if self.src_addr + i as u64 >= self.src_addr_end && self.bytes[i].0 != 0 {
                return false;
            }
            i = i + 1;
        }
        true
    }

    /// The counter step of row `k`.
    pub fn rw_diff(&self, k: usize) -> (d: u64)
        requires
            self.src_addr + k / 2 <= u64::MAX,
        ensures
            d as int == self.rw_diff_at(k as int),
    {
        let tag = if k % 2 == 0 {
            self.src_type
        } else {
            self.dst_type
        };
        let pad = k % 2 == 0 && self.src_addr + (k / 2) as u64 >= self.src_addr_end;
        if (tag == CopyDataType::Memory || tag == CopyDataType::TxLog) && !pad {
            1
        } else {
            0
        }
    }

    /// The running combination of all the event's bytes, the value that an
    /// RLC destination ends with.
    pub fn bytes_rlc(&self, randomness: u64) -> (res: u64)
        ensures
            res as int == rlc_fold(self.byte_values(), randomness as int),
    {
        let n = self.bytes.len();
        let mut acc: u64 = 0;
        let mut i: usize = 0;
        while i < n
            invariant
                n == self.bytes@.len(),
                0 <= i <= n,
                acc as int == rlc_fold(self.byte_values().take(i as int), randomness as int),
            decreases n - i,
        {
            assert(self.byte_values().take(i + 1).drop_last() =~= self.byte_values().take(i as int));
            acc = fe_mul_add(acc, randomness, self.bytes[i].0 as u64);
            i = i + 1;
        }
        assert(self.byte_values().take(n as int) =~= self.byte_values());
        acc
    }

    /// Counter steps taken over all the event's rows.
    pub fn rw_total(&self) -> (t: u64)
        requires
            self.valid(),
        ensures
            t as int == self.rw_before(2 * self.len()),
    {
        let n = self.bytes.len();
        let mut t: u64 = 0;
        let mut k: usize = 0;
        while k < 2 * n
            invariant
                self.valid(),
                n == self.len(),
                0 <= k <= 2 * n,
                t as int == self.rw_before(k as int),
            decreases 2 * n - k,
        {
            proof {
                self.lemma_rw_before_range(k as int, k as int);
            }
            t = t + self.rw_diff(k);
            k = k + 1;
        }
        t
    }
}

} // verus!
