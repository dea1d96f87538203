//! Raw chain logs as the transport hands them over, the rows the store
//! persists, and the idempotent log store keyed by
//! `(chain_id, block_number, tx_hash, log_index)`.

use crate::address::Address;
use crate::address::Hash32;
use vstd::prelude::*;

verus! {

/// A log as the transport reports it. Fields the transport may omit are
/// options; a log without a transaction hash or a block number is refused
/// at commit time.
pub struct RawLog {
    pub block_number: Option<i64>,
    pub transaction_hash: Option<Hash32>,
    pub log_index: u32,
    pub topics: Vec<Hash32>,
    pub address: Address,
    pub data: Vec<u8>,
}

/// The mathematical value of a raw log.
#[verifier::ext_equal]
pub ghost struct LogV {
    pub block_number: Option<int>,
    pub transaction_hash: Option<Seq<u8>>,
    pub log_index: int,
    pub topics: Seq<Seq<u8>>,
    pub address: Seq<u8>,
    pub data: Seq<u8>,
}

impl View for RawLog {
    type V = LogV;

    open spec fn view(&self) -> LogV {
        LogV {
            block_number: match self.block_number {
                Some(b) => Some(b as int),
                None => None,
            },
            transaction_hash: match self.transaction_hash {
                Some(h) => Some(h@),
                None => None,
            },
            log_index: self.log_index as int,
            topics: self.topics@.map_values(|t: Hash32| t@),
            address: self.address@,
            data: self.data@,
        }
    }
}

/// A persisted row of the log table.
pub struct LogRow {
    pub chain_id: i64,
    pub block_number: i64,
    pub tx_hash: Hash32,
    pub log_index: u32,
    pub primary_topic: Option<Hash32>,
    pub contract_address: Address,
    pub data: Vec<u8>,
}

/// The mathematical value of a persisted row.
#[verifier::ext_equal]
pub ghost struct RowV {
    pub chain_id: int,
    pub block_number: int,
    pub tx_hash: Seq<u8>,
    pub log_index: int,
    pub primary_topic: Option<Seq<u8>>,
    pub contract_address: Seq<u8>,
    pub data: Seq<u8>,
}

impl View for LogRow {
    type V = RowV;

    open spec fn view(&self) -> RowV {
        RowV {
            chain_id: self.chain_id as int,
            block_number: self.block_number as int,
            tx_hash: self.tx_hash@,
            log_index: self.log_index as int,
            primary_topic: match self.primary_topic {
                Some(t) => Some(t@),
                None => None,
            },
            contract_address: self.contract_address@,
            data: self.data@,
        }
    }
}

/// Why a single log was refused.
#[derive(Clone, Copy, PartialEq, Eq, Structural, Debug)]
pub enum LogError {
    MissingTransactionHash,
    MissingBlockNumber,
}

/// Whether a raw log carries everything a committed row needs.
pub open spec fn spec_committable(l: LogV) -> bool {
    l.transaction_hash is Some && l.block_number is Some
}

/// The row a committable raw log turns into.
pub open spec fn spec_row_of(chain_id: int, l: LogV) -> RowV
    recommends
        spec_committable(l),
{
    RowV {
        chain_id: chain_id,
        block_number: l.block_number->0,
        tx_hash: l.transaction_hash->0,
        log_index: l.log_index,
        primary_topic: if l.topics.len() > 0 {
            Some(l.topics[0])
        } else {
            None
        },
        contract_address: l.address,
        data: l.data,
    }
}

/// Whether two rows agree on the identity tuple
/// `(chain_id, block_number, tx_hash, log_index)`.
pub open spec fn spec_same_id(a: RowV, b: RowV) -> bool {
    a.chain_id == b.chain_id && a.block_number == b.block_number && a.tx_hash == b.tx_hash
        && a.log_index == b.log_index
}

/// Whether some row of `rows` shares `r`'s identity tuple.
pub open spec fn spec_contains_id(rows: Seq<RowV>, r: RowV) -> bool {
    exists|i: int| 0 <= i < rows.len() && spec_same_id(rows[i], r)
}

/// The rows after presenting `r`: unchanged when the identity is already
/// present, else extended by `r`.
pub open spec fn spec_insert_row(rows: Seq<RowV>, r: RowV) -> Seq<RowV> {
    if spec_contains_id(rows, r) {
        rows
    } else {
        rows.push(r)
    }
}

/// Whether no two rows share an identity tuple.
pub open spec fn spec_unique_ids(rows: Seq<RowV>) -> bool {
    forall|i: int, j: int|
        0 <= i < j < rows.len() ==> !spec_same_id(rows[i], rows[j])
}

/// An identity already present stays present through an insert.
pub proof fn lemma_insert_keeps_id(rows: Seq<RowV>, new: RowV, r: RowV)
    requires
        spec_contains_id(rows, r),
    ensures
        spec_contains_id(spec_insert_row(rows, new), r),
{
    let i = choose|i: int| 0 <= i < rows.len() && spec_same_id(rows[i], r);
    if !spec_contains_id(rows, new) {
        assert(spec_same_id(rows.push(new)[i], r));
    }
}

/// After inserting a row, its identity is present.
pub proof fn lemma_insert_contains_self(rows: Seq<RowV>, r: RowV)
    ensures
        spec_contains_id(spec_insert_row(rows, r), r),
{
    if !spec_contains_id(rows, r) {
        assert(spec_same_id(rows.push(r)[rows.len() as int], r));
    }
}

/// Rows already stored keep their position through an insert.
pub proof fn lemma_insert_extends(rows: Seq<RowV>, r: RowV)
    ensures
        spec_insert_row(rows, r).len() >= rows.len(),
        forall|i: int| 0 <= i < rows.len() ==> spec_insert_row(rows, r)[i] == rows[i],
{
}

/// Copies a byte string.
fn copy_bytes(v: &Vec<u8>) -> (r: Vec<u8>)
    ensures
        r@ == v@,
{
    let mut r: Vec<u8> = Vec::new();
    let n = v.len();
    let mut i: usize = 0;
    while i < n
        invariant
            n == v@.len(),
            i <= n,
            r@ == v@.subrange(0, i as int),
        decreases n - i,
    {
        r.push(v[i]);
        proof {
            assert(r@ =~= v@.subrange(0, i + 1));
        }
        i += 1;
    }
    proof {
        assert(v@.subrange(0, n as int) =~= v@);
    }
    r
}

/// Copies a topic list.
fn copy_topics(v: &Vec<Hash32>) -> (r: Vec<Hash32>)
    ensures
        r@ == v@,
{
    let mut r: Vec<Hash32> = Vec::new();
    let n = v.len();
    let mut i: usize = 0;
    while i < n
        invariant
            n == v@.len(),
            i <= n,
            r@ == v@.subrange(0, i as int),
        decreases n - i,
    {
        r.push(v[i]);
        proof {
            assert(r@ =~= v@.subrange(0, i + 1));
        }
        i += 1;
    }
    proof {
        assert(v@.subrange(0, n as int) =~= v@);
    }
    r
}

impl RawLog {
    /// A value-identical copy of this log.
    pub fn duplicate(&self) -> (r: RawLog)
        ensures
            r@ == self@,
    {
        let r = RawLog {
            block_number: self.block_number,
            transaction_hash: self.transaction_hash,
            log_index: self.log_index,
            topics: copy_topics(&self.topics),
            address: self.address,
            data: copy_bytes(&self.data),
        };
        proof {
            assert(r@ =~= self@);
        }
        r
    }
}

/// Turns one raw log into the row to persist, or refuses it: a log without a
/// transaction hash, or without a block number, is not committed. The hash is
/// checked first.
pub fn prepare_row(chain_id: i64, lg: &RawLog) -> (r: Result<LogRow, LogError>)
    ensures
        r is Ok <==> spec_committable(lg@),
        r is Ok ==> r->Ok_0@ == spec_row_of(chain_id as int, lg@),
        lg.transaction_hash is None ==> r == Result::<LogRow, LogError>::Err(
            LogError::MissingTransactionHash,
        ),
        lg.transaction_hash is Some && lg.block_number is None ==> r == Result::<
            LogRow,
            LogError,
        >::Err(LogError::MissingBlockNumber),
{
    let tx_hash = match &lg.transaction_hash {
        Some(h) => *h,
        None => {
            return Err(LogError::MissingTransactionHash);
        },
    };
    let block_number = match lg.block_number {
        Some(b) => b,
        None => {
            return Err(LogError::MissingBlockNumber);
        },
    };
    let primary_topic = if lg.topics.len() > 0 {
        Some(lg.topics[0])
    } else {
        None
    };
    let row = LogRow {
        chain_id,
        block_number,
        tx_hash,
        log_index: lg.log_index,
        primary_topic,
        contract_address: lg.address,
        data: copy_bytes(&lg.data),
    };
    proof {
        assert(row@ =~= spec_row_of(chain_id as int, lg@));
    }
    Ok(row)
}

/// Whether two persisted rows share the identity tuple.
pub fn row_id_eq(a: &LogRow, b: &LogRow) -> (r: bool)
    ensures
        r == spec_same_id(a@, b@),
{
    a.chain_id == b.chain_id && a.block_number == b.block_number && a.log_index == b.log_index
        && a.tx_hash.same_as(&b.tx_hash)
}

/// The store of persisted rows: append-only, conflict-no-op on the identity
/// tuple.
pub struct LogStore {
    pub rows: Vec<LogRow>,
}

impl View for LogStore {
    type V = Seq<RowV>;

    open spec fn view(&self) -> Seq<RowV> {
        self.rows@.map_values(|r: LogRow| r@)
    }
}

impl LogStore {
    /// Whether no two rows of the store share an identity tuple.
    pub open spec fn wf(&self) -> bool {
        spec_unique_ids(self@)
    }

    /// An empty store.
    pub fn new() -> (r: LogStore)
        ensures
            r@ == Seq::<RowV>::empty(),
            r.wf(),
    {
        let r = LogStore { rows: Vec::new() };
        proof {
            assert(r@ =~= Seq::<RowV>::empty());
        }
        r
    }

    /// The number of persisted rows.
    pub fn len(&self) -> (r: usize)
        ensures
            r == self@.len(),
    {
        self.rows.len()
    }

    /// Presents one row: a no-op when its identity tuple is already present,
    /// an append otherwise. Returns whether the row was appended.
    pub fn insert(&mut self, row: LogRow) -> (inserted: bool)
        ensures
            final(self)@ == spec_insert_row(old(self)@, row@),
            inserted == !spec_contains_id(old(self)@, row@),
            old(self).wf() ==> final(self).wf(),
    {
        let ghost rows0 = self@;
        let n = self.rows.len();
        let mut i: usize = 0;
        while i < n
            invariant
                n == self.rows@.len(),
                i <= n,
                self@ == rows0,
                forall|j: int| 0 <= j < i ==> !spec_same_id(self@[j], row@),
            decreases n - i,
        {
            if row_id_eq(&self.rows[i], &row) {
                proof {
                    assert(spec_same_id(rows0[i as int], row@));
                    assert(spec_contains_id(rows0, row@));
                }
                return false;
            }
            i += 1;
        }
        proof {
            assert(!spec_contains_id(rows0, row@));
        }
        self.rows.push(row);
        proof {
            assert(self@ =~= rows0.push(row@));
            if spec_unique_ids(rows0) {
                assert forall|a: int, b: int| 0 <= a < b < self@.len() implies !spec_same_id(
                    self@[a],
                    self@[b],
                ) by {
                    if b < rows0.len() {
                    } else {
                        assert(self@[b] == row@);
                    }
                }
            }
        }
        true
    }
}

} // verus!
