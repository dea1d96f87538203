//! The indexer core: confirmation-depth gating, batched range scans over a
//! chain view, and idempotent commits coupled with the cursor.
//!
//! The whole per-tick behaviour is a mathematical step function,
//! [`spec_drive`]; the executable driver refines it exactly, and the laws at
//! the bottom of this module are proved of the step function: the cursor
//! never moves backward, every committed row stays at or below the cursor,
//! replaying a batch writes nothing new, and a second pass over an unchanged
//! chain changes nothing.

use crate::address::Address;
use crate::log::LogRow;
use crate::log::LogStore;
use crate::log::LogV;
use crate::log::RawLog;
use crate::log::RowV;
use crate::log::prepare_row;
use crate::log::spec_committable;
use crate::log::spec_contains_id;
use crate::log::spec_insert_row;
use crate::log::spec_row_of;
use crate::log::spec_unique_ids;
use crate::registry::AddressCache;
use crate::registry::ContractAddresses;
use crate::registry::spec_cache_get;
use vstd::prelude::*;

verus! {

/// Number of blocks the indexer stays behind the reported chain head, to
/// tolerate shallow reorganizations.
pub const CONFIRM_DEPTH: i64 = 6;

/// Blocks per batch during the one-shot backfill pass.
pub const BACKFILL_BATCH: i64 = 1000;

/// Blocks per batch during the periodic incremental pass.
pub const INCREMENTAL_BATCH: i64 = 500;

/// Seconds between incremental ticks.
pub const TICK_SECONDS: u64 = 6;

/// The confirmed tip: the highest block the indexer may commit.
pub open spec fn spec_tip(head: int) -> int {
    head - CONFIRM_DEPTH
}

/// A read-only view of a chain: the head height and the logs the node would
/// report. Serves as the provider for simulated runs; the live adapter hands
/// the same shapes over from the node.
pub struct SimChain {
    pub head: i64,
    pub logs: Vec<RawLog>,
}

/// The mathematical value of a chain view.
#[verifier::ext_equal]
pub ghost struct ChainV {
    pub head: int,
    pub logs: Seq<LogV>,
}

impl View for SimChain {
    type V = ChainV;

    open spec fn view(&self) -> ChainV {
        ChainV { head: self.head as int, logs: self.logs@.map_values(|l: RawLog| l@) }
    }
}

/// Whether a log is emitted by one of the watched contracts.
pub open spec fn spec_addr_match(addr: Seq<u8>, a: ContractAddresses) -> bool {
    addr == a.ticket_manager@ || addr == a.event_manager@ || addr == a.marketplace@ || addr
        == a.token_swap@
}

/// Whether a filtered range query returns this log: a known block number
/// inside `[from, to]` and a watched emitting contract.
pub open spec fn spec_log_selected(l: LogV, a: ContractAddresses, from: int, to: int) -> bool {
    l.block_number is Some && from <= l.block_number->0 && l.block_number->0 <= to
        && spec_addr_match(l.address, a)
}

/// The logs a filtered range query returns, in tape order.
pub open spec fn spec_selected_logs(
    logs: Seq<LogV>,
    a: ContractAddresses,
    from: int,
    to: int,
) -> Seq<LogV>
    decreases logs.len(),
{
    if logs.len() == 0 {
        Seq::empty()
    } else {
        let pre = spec_selected_logs(logs.drop_last(), a, from, to);
        if spec_log_selected(logs.last(), a, from, to) {
            pre.push(logs.last())
        } else {
            pre
        }
    }
}

/// The rows after presenting a sequence of raw logs in order: committable
/// logs are inserted (conflict-no-op), the rest are skipped.
pub open spec fn spec_commit_logs(rows: Seq<RowV>, chain_id: int, logs: Seq<LogV>) -> Seq<RowV>
    decreases logs.len(),
{
    if logs.len() == 0 {
        rows
    } else {
        let rest = spec_commit_logs(rows, chain_id, logs.drop_last());
        if spec_committable(logs.last()) {
            spec_insert_row(rest, spec_row_of(chain_id, logs.last()))
        } else {
            rest
        }
    }
}

/// The indexer's durable state for one chain: the cursor and the log table.
pub struct IndexerState {
    pub chain_id: i64,
    pub cursor: i64,
    pub store: LogStore,
}

/// The mathematical value of the indexer state.
#[verifier::ext_equal]
pub ghost struct StateV {
    pub chain_id: int,
    pub cursor: int,
    pub rows: Seq<RowV>,
}

impl View for IndexerState {
    type V = StateV;

    open spec fn view(&self) -> StateV {
        StateV { chain_id: self.chain_id as int, cursor: self.cursor as int, rows: self.store@ }
    }
}

impl IndexerState {
    /// Well-formedness: a non-negative cursor and no duplicate identities.
    pub open spec fn wf(&self) -> bool {
        0 <= self.cursor && spec_unique_ids(self@.rows)
    }

    /// A fresh state for one chain: cursor at zero, no rows.
    pub fn new(chain_id: i64) -> (r: IndexerState)
        ensures
            r@.chain_id == chain_id as int,
            r@.cursor == 0,
            r@.rows == Seq::<RowV>::empty(),
            r.wf(),
    {
        IndexerState { chain_id, cursor: 0, store: LogStore::new() }
    }
}

/// One batch over blocks `(lo, hi]`: with no cached address set the batch is
/// skipped whole (no fetch, no cursor move); otherwise the selected logs are
/// committed and the cursor advances to `hi`, as one step.
pub open spec fn spec_run_batch(
    s: StateV,
    chain: ChainV,
    cache: Option<ContractAddresses>,
    lo: int,
    hi: int,
) -> StateV {
    match cache {
        Option::None => s,
        Option::Some(a) => StateV {
            chain_id: s.chain_id,
            cursor: hi,
            rows: spec_commit_logs(
                s.rows,
                s.chain_id,
                spec_selected_logs(chain.logs, a, lo + 1, hi),
            ),
        },
    }
}

/// One full pass: batches of at most `batch` blocks from the cursor up to the
/// confirmed tip. Nothing happens when the head is within the confirmation
/// depth, when the cursor is already at the tip, or when no address set is
/// cached.
pub open spec fn spec_drive(
    s: StateV,
    chain: ChainV,
    cache: Option<ContractAddresses>,
    batch: int,
) -> StateV
    decreases spec_tip(chain.head) - s.cursor,
{
    if batch < 1 || cache is None || chain.head <= CONFIRM_DEPTH || s.cursor >= spec_tip(
        chain.head,
    ) {
        s
    } else {
        let tip = spec_tip(chain.head);
        let hi = if s.cursor + batch < tip {
            s.cursor + batch
        } else {
            tip
        };
        spec_drive(spec_run_batch(s, chain, cache, s.cursor, hi), chain, cache, batch)
    }
}

impl SimChain {
    /// The filtered range query: all logs from watched contracts with a
    /// block number in `[from, to]`, in tape order.
    pub fn get_logs(&self, a: &ContractAddresses, from: i64, to: i64) -> (r: Vec<RawLog>)
        ensures
            r@.map_values(|l: RawLog| l@) == spec_selected_logs(
                self@.logs,
                *a,
                from as int,
                to as int,
            ),
    {
        let mut r: Vec<RawLog> = Vec::new();
        let n = self.logs.len();
        let mut i: usize = 0;
        while i < n
            invariant
                n == self.logs@.len(),
                i <= n,
                r@.map_values(|l: RawLog| l@) == spec_selected_logs(
                    self@.logs.subrange(0, i as int),
                    *a,
                    from as int,
                    to as int,
                ),
            decreases n - i,
        {
            let lg = &self.logs[i];
            let selected = match lg.block_number {
                Some(b) => from <= b && b <= to && (lg.address.same_as(&a.ticket_manager)
                    || lg.address.same_as(&a.event_manager) || lg.address.same_as(&a.marketplace)
                    || lg.address.same_as(&a.token_swap)),
                None => false,
            };
            if selected {
                r.push(lg.duplicate());
            }
            proof {
                let pre = self@.logs.subrange(0, i as int);
                let post = self@.logs.subrange(0, i + 1);
                assert(post.drop_last() =~= pre);
                assert(post.last() == self@.logs[i as int]);
                assert(selected == spec_log_selected(
                    self@.logs[i as int],
                    *a,
                    from as int,
                    to as int,
                ));
                assert(r@.map_values(|l: RawLog| l@) =~= spec_selected_logs(
                    post,
                    *a,
                    from as int,
                    to as int,
                ));
            }
            i += 1;
        }
        proof {
            assert(self@.logs.subrange(0, n as int) =~= self@.logs);
        }
        r
    }
}

/// Runs one batch over blocks `(cursor, to]` against a chain view, exactly as
/// [`spec_run_batch`] says: skipped whole when the cache is unset; otherwise
/// each fetched log is committed if committable (conflicts and refused logs
/// are skipped, siblings are kept) and the cursor advances to `to`.
pub fn run_batch(state: &mut IndexerState, chain: &SimChain, cache: &AddressCache, to: i64)
    requires
        old(state).wf(),
        old(state).cursor < to,
    ensures
        final(state)@ == spec_run_batch(
            old(state)@,
            chain@,
            spec_cache_get(*cache),
            old(state)@.cursor,
            to as int,
        ),
        final(state).wf(),
        final(state).chain_id == old(state).chain_id,
{
    let a = match cache.get() {
        Some(a) => a,
        None => {
            return;
        },
    };
    let logs = chain.get_logs(&a, state.cursor + 1, to);
    let ghost sel = spec_selected_logs(chain@.logs, a, old(state)@.cursor + 1, to as int);
    let ghost rows0 = state@.rows;
    let n = logs.len();
    let mut i: usize = 0;
    while i < n
        invariant
            state.chain_id == old(state).chain_id,
            state.cursor == old(state).cursor,
            n == logs@.len(),
            i <= n,
            logs@.map_values(|l: RawLog| l@) == sel,
            state@.rows == spec_commit_logs(rows0, state@.chain_id, sel.subrange(0, i as int)),
            spec_unique_ids(state@.rows),
            0 <= state.cursor,
        decreases n - i,
    {
        match prepare_row(state.chain_id, &logs[i]) {
            Ok(row) => {
                let _ = state.store.insert(row);
            },
            Err(_) => {},
        }
        proof {
            let pre = sel.subrange(0, i as int);
            let post = sel.subrange(0, i + 1);
            assert(post.drop_last() =~= pre);
            assert(post.last() == sel[i as int]);
            assert(sel[i as int] == logs@[i as int]@);
        }
        i += 1;
    }
    state.cursor = to;
    proof {
        assert(sel.subrange(0, n as int) =~= sel);
        assert(state@ =~= spec_run_batch(
            old(state)@,
            chain@,
            spec_cache_get(*cache),
            old(state)@.cursor,
            to as int,
        ));
    }
}

/// Drives the cursor from its current position to the confirmed tip in
/// batches of at most `batch` blocks, refining [`spec_drive`].
pub fn drive(state: &mut IndexerState, chain: &SimChain, cache: &AddressCache, batch: i64)
    requires
        old(state).wf(),
    ensures
        final(state)@ == spec_drive(old(state)@, chain@, spec_cache_get(*cache), batch as int),
        final(state).cursor >= old(state).cursor,
        final(state).wf(),
        final(state).chain_id == old(state).chain_id,
{
    proof {
        lemma_drive_cursor(old(state)@, chain@, spec_cache_get(*cache), batch as int);
    }
    if batch < 1 {
        return;
    }
    let a = match cache.get() {
        Some(a) => a,
        None => {
            return;
        },
    };
    if chain.head <= CONFIRM_DEPTH {
        return;
    }
    let tip = chain.head - CONFIRM_DEPTH;
    while state.cursor < tip
        invariant
            state.wf(),
            state.chain_id == old(state).chain_id,
            1 <= batch,
            chain@.head > CONFIRM_DEPTH,
            tip == spec_tip(chain@.head),
            spec_cache_get(*cache) == Some(a),
            spec_drive(old(state)@, chain@, Some(a), batch as int) == spec_drive(
                state@,
                chain@,
                Some(a),
                batch as int,
            ),
        decreases tip - state.cursor,
    {
        let hi = if tip - state.cursor < batch {
            tip
        } else {
            state.cursor + batch
        };
        let ghost pre = state@;
        run_batch(state, chain, cache, hi);
        proof {
            assert(spec_drive(pre, chain@, Some(a), batch as int) == spec_drive(
                state@,
                chain@,
                Some(a),
                batch as int,
            ));
        }
    }
}

/// The one-shot backfill pass: large batches from the stored cursor to the
/// confirmed tip.
pub fn backfill(state: &mut IndexerState, chain: &SimChain, cache: &AddressCache)
    requires
        old(state).wf(),
    ensures
        final(state)@ == spec_drive(
            old(state)@,
            chain@,
            spec_cache_get(*cache),
            BACKFILL_BATCH as int,
        ),
        final(state).cursor >= old(state).cursor,
        final(state).wf(),
        final(state).chain_id == old(state).chain_id,
{
    drive(state, chain, cache, BACKFILL_BATCH);
}

/// One incremental tick: small batches from the stored cursor to the
/// confirmed tip.
pub fn incremental_step(state: &mut IndexerState, chain: &SimChain, cache: &AddressCache)
    requires
        old(state).wf(),
    ensures
        final(state)@ == spec_drive(
            old(state)@,
            chain@,
            spec_cache_get(*cache),
            INCREMENTAL_BATCH as int,
        ),
        final(state).cursor >= old(state).cursor,
        final(state).wf(),
        final(state).chain_id == old(state).chain_id,
{
    drive(state, chain, cache, INCREMENTAL_BATCH);
}

/// The upper block of the next batch to issue, or `None` when the head is
/// within the confirmation depth or the cursor has reached the confirmed
/// tip. The live driver advances on exactly this decision.
pub fn next_batch_end(cursor: i64, head: i64, batch: i64) -> (r: Option<i64>)
    requires
        0 <= cursor,
        1 <= batch,
    ensures
        r is Some <==> head > CONFIRM_DEPTH && cursor < spec_tip(head as int),
        r is Some ==> r->0 as int == (if cursor + batch < spec_tip(head as int) {
            cursor + batch
        } else {
            spec_tip(head as int)
        }),
{
    if head <= CONFIRM_DEPTH {
        return None;
    }
    let tip = head - CONFIRM_DEPTH;
    if cursor >= tip {
        return None;
    }
    if tip - cursor < batch {
        Some(tip)
    } else {
        Some(cursor + batch)
    }
}

/// Every committed row lies at or below the cursor: the store never runs
/// ahead of what the cursor records as fully committed.
pub open spec fn spec_cur_safe(s: StateV) -> bool {
    forall|i: int| 0 <= i < s.rows.len() ==> s.rows[i].block_number <= s.cursor
}

/// Rows present before a commit are still present, at their positions, after
/// it: a commit only appends.
pub proof fn lemma_commit_extends(rows: Seq<RowV>, chain_id: int, logs: Seq<LogV>)
    ensures
        spec_commit_logs(rows, chain_id, logs).len() >= rows.len(),
        forall|i: int|
            0 <= i < rows.len() ==> #[trigger] spec_commit_logs(rows, chain_id, logs)[i]
                == rows[i],
    decreases logs.len(),
{
    if logs.len() > 0 {
        let pre = logs.drop_last();
        lemma_commit_extends(rows, chain_id, pre);
        let rest = spec_commit_logs(rows, chain_id, pre);
        if spec_committable(logs.last()) {
            crate::log::lemma_insert_extends(rest, spec_row_of(chain_id, logs.last()));
        }
    }
}

/// An identity present before a commit is still present after it.
pub proof fn lemma_commit_keeps_id(rows: Seq<RowV>, chain_id: int, logs: Seq<LogV>, r: RowV)
    requires
        spec_contains_id(rows, r),
    ensures
        spec_contains_id(spec_commit_logs(rows, chain_id, logs), r),
{
    lemma_commit_extends(rows, chain_id, logs);
    let i = choose|i: int| 0 <= i < rows.len() && crate::log::spec_same_id(rows[i], r);
    assert(spec_commit_logs(rows, chain_id, logs)[i] == rows[i]);
}

/// After a commit, every committable log of the batch has its row identity
/// present in the store.
pub proof fn lemma_commit_covers(rows: Seq<RowV>, chain_id: int, logs: Seq<LogV>)
    ensures
        forall|i: int|
            0 <= i < logs.len() && spec_committable(#[trigger] logs[i]) ==> spec_contains_id(
                spec_commit_logs(rows, chain_id, logs),
                spec_row_of(chain_id, logs[i]),
            ),
    decreases logs.len(),
{
    if logs.len() > 0 {
        let pre = logs.drop_last();
        lemma_commit_covers(rows, chain_id, pre);
        let rest = spec_commit_logs(rows, chain_id, pre);
        let full = spec_commit_logs(rows, chain_id, logs);
        assert forall|i: int|
            0 <= i < logs.len() && spec_committable(#[trigger] logs[i]) implies spec_contains_id(
            full,
            spec_row_of(chain_id, logs[i]),
        ) by {
            if i < logs.len() - 1 {
                assert(pre[i] == logs[i]);
                assert(spec_contains_id(rest, spec_row_of(chain_id, logs[i])));
                if spec_committable(logs.last()) {
                    crate::log::lemma_insert_keeps_id(
                        rest,
                        spec_row_of(chain_id, logs.last()),
                        spec_row_of(chain_id, logs[i]),
                    );
                }
            } else {
                assert(logs[i] == logs.last());
                crate::log::lemma_insert_contains_self(rest, spec_row_of(chain_id, logs.last()));
            }
        }
    }
}

/// Committing logs whose committable members are all already present changes
/// nothing.
pub proof fn lemma_commit_noop(rows: Seq<RowV>, chain_id: int, logs: Seq<LogV>)
    requires
        forall|i: int|
            0 <= i < logs.len() && spec_committable(#[trigger] logs[i]) ==> spec_contains_id(
                rows,
                spec_row_of(chain_id, logs[i]),
            ),
    ensures
        spec_commit_logs(rows, chain_id, logs) == rows,
    decreases logs.len(),
{
    if logs.len() > 0 {
        let pre = logs.drop_last();
        assert forall|i: int|
            0 <= i < pre.len() && spec_committable(#[trigger] pre[i]) implies spec_contains_id(
            rows,
            spec_row_of(chain_id, pre[i]),
        ) by {
            assert(pre[i] == logs[i]);
        }
        lemma_commit_noop(rows, chain_id, pre);
        assert(logs.last() == logs[logs.len() - 1]);
    }
}

/// Committing the same batch twice equals committing it once: a completed
/// batch, presented again, produces zero net writes.
pub proof fn lemma_commit_idempotent(rows: Seq<RowV>, chain_id: int, logs: Seq<LogV>)
    ensures
        spec_commit_logs(spec_commit_logs(rows, chain_id, logs), chain_id, logs)
            == spec_commit_logs(rows, chain_id, logs),
{
    lemma_commit_covers(rows, chain_id, logs);
    lemma_commit_noop(spec_commit_logs(rows, chain_id, logs), chain_id, logs);
}

/// Replay safety: a batch commits its logs, the process stops before the
/// cursor advances, and the batch is re-issued. The re-run writes no new
/// rows and the cursor then lands where the first run aimed.
pub proof fn lemma_batch_replay(s: StateV, chain: ChainV, a: ContractAddresses, lo: int, hi: int)
    ensures
        ({
            let s1 = spec_run_batch(s, chain, Some(a), lo, hi);
            let crashed = StateV { chain_id: s1.chain_id, cursor: s.cursor, rows: s1.rows };
            let s2 = spec_run_batch(crashed, chain, Some(a), lo, hi);
            s2.rows == s1.rows && s2.cursor == hi
        }),
{
    let sel = spec_selected_logs(chain.logs, a, lo + 1, hi);
    lemma_commit_idempotent(s.rows, s.chain_id, sel);
}

/// Every log a range query returns was selected by the range and address
/// filter.
pub proof fn lemma_selected_in_range(logs: Seq<LogV>, a: ContractAddresses, from: int, to: int)
    ensures
        forall|i: int|
            0 <= i < spec_selected_logs(logs, a, from, to).len() ==> spec_log_selected(
                #[trigger] spec_selected_logs(logs, a, from, to)[i],
                a,
                from,
                to,
            ),
    decreases logs.len(),
{
    if logs.len() > 0 {
        lemma_selected_in_range(logs.drop_last(), a, from, to);
        let pre = spec_selected_logs(logs.drop_last(), a, from, to);
        let sel = spec_selected_logs(logs, a, from, to);
        assert forall|i: int| 0 <= i < sel.len() implies spec_log_selected(
            sel[i],
            a,
            from,
            to,
        ) by {
            if i < pre.len() {
                assert(sel[i] == pre[i]);
            } else {
                assert(sel[i] == logs.last());
            }
        }
    }
}

/// Committing logs that all lie at or below `hi` keeps every row at or below
/// `hi`.
pub proof fn lemma_commit_block_bound(rows: Seq<RowV>, chain_id: int, logs: Seq<LogV>, hi: int)
    requires
        forall|i: int| 0 <= i < rows.len() ==> (#[trigger] rows[i]).block_number <= hi,
        forall|i: int|
            0 <= i < logs.len() && spec_committable(#[trigger] logs[i]) ==> logs[i].block_number->0
                <= hi,
    ensures
        forall|i: int|
            0 <= i < spec_commit_logs(rows, chain_id, logs).len() ==> (#[trigger] spec_commit_logs(
                rows,
                chain_id,
                logs,
            )[i]).block_number <= hi,
    decreases logs.len(),
{
    if logs.len() > 0 {
        let pre = logs.drop_last();
        assert forall|i: int|
            0 <= i < pre.len() && spec_committable(#[trigger] pre[i]) implies pre[i].block_number->0
            <= hi by {
            assert(pre[i] == logs[i]);
        }
        lemma_commit_block_bound(rows, chain_id, pre, hi);
        assert(logs.last() == logs[logs.len() - 1]);
    }
}

/// A batch never moves the cursor backward.
pub proof fn lemma_run_batch_cursor_monotone(
    s: StateV,
    chain: ChainV,
    cache: Option<ContractAddresses>,
    lo: int,
    hi: int,
)
    requires
        s.cursor <= hi,
    ensures
        spec_run_batch(s, chain, cache, lo, hi).cursor >= s.cursor,
{
}

/// One batch preserves cursor safety: afterwards, still no committed row
/// lies above the cursor.
pub proof fn lemma_run_batch_cur_safe(
    s: StateV,
    chain: ChainV,
    cache: Option<ContractAddresses>,
    lo: int,
    hi: int,
)
    requires
        spec_cur_safe(s),
        s.cursor <= hi,
    ensures
        spec_cur_safe(spec_run_batch(s, chain, cache, lo, hi)),
{
    match cache {
        Option::None => {},
        Option::Some(a) => {
            let sel = spec_selected_logs(chain.logs, a, lo + 1, hi);
            lemma_selected_in_range(chain.logs, a, lo + 1, hi);
            lemma_commit_block_bound(s.rows, s.chain_id, sel, hi);
        },
    }
}

/// The cursor across a whole pass: it never moves backward, the chain id is
/// untouched, it lands exactly on the confirmed tip when there was ground to
/// cover, and a pass with nothing to do changes nothing at all.
pub proof fn lemma_drive_cursor(
    s: StateV,
    chain: ChainV,
    cache: Option<ContractAddresses>,
    batch: int,
)
    ensures
        spec_drive(s, chain, cache, batch).cursor >= s.cursor,
        spec_drive(s, chain, cache, batch).chain_id == s.chain_id,
        batch >= 1 && cache is Some && chain.head > CONFIRM_DEPTH && s.cursor < spec_tip(chain.head)
            ==> spec_drive(s, chain, cache, batch).cursor == spec_tip(chain.head),
        batch < 1 || cache is None || chain.head <= CONFIRM_DEPTH || s.cursor >= spec_tip(
            chain.head,
        ) ==> spec_drive(s, chain, cache, batch) == s,
    decreases spec_tip(chain.head) - s.cursor,
{
    if !(batch < 1 || cache is None || chain.head <= CONFIRM_DEPTH || s.cursor >= spec_tip(
        chain.head,
    )) {
        let tip = spec_tip(chain.head);
        let hi = if s.cursor + batch < tip {
            s.cursor + batch
        } else {
            tip
        };
        lemma_drive_cursor(spec_run_batch(s, chain, cache, s.cursor, hi), chain, cache, batch);
    }
}

/// After any pass that started at or below the confirmed tip, the cursor is
/// still at or below the confirmed tip.
pub proof fn lemma_drive_tip_bound(
    s: StateV,
    chain: ChainV,
    cache: Option<ContractAddresses>,
    batch: int,
)
    requires
        s.cursor <= spec_tip(chain.head),
    ensures
        spec_drive(s, chain, cache, batch).cursor <= spec_tip(chain.head),
{
    lemma_drive_cursor(s, chain, cache, batch);
}

/// A whole pass preserves cursor safety: every committed row stays at or
/// below the cursor.
pub proof fn lemma_drive_cur_safe(
    s: StateV,
    chain: ChainV,
    cache: Option<ContractAddresses>,
    batch: int,
)
    requires
        spec_cur_safe(s),
    ensures
        spec_cur_safe(spec_drive(s, chain, cache, batch)),
    decreases spec_tip(chain.head) - s.cursor,
{
    if !(batch < 1 || cache is None || chain.head <= CONFIRM_DEPTH || s.cursor >= spec_tip(
        chain.head,
    )) {
        let tip = spec_tip(chain.head);
        let hi = if s.cursor + batch < tip {
            s.cursor + batch
        } else {
            tip
        };
        lemma_run_batch_cur_safe(s, chain, cache, s.cursor, hi);
        lemma_drive_cur_safe(spec_run_batch(s, chain, cache, s.cursor, hi), chain, cache, batch);
    }
}

/// A pass only appends: every row present before it is still present, at
/// its position, afterwards.
pub proof fn lemma_drive_extends(
    s: StateV,
    chain: ChainV,
    cache: Option<ContractAddresses>,
    batch: int,
)
    ensures
        spec_drive(s, chain, cache, batch).rows.len() >= s.rows.len(),
        forall|i: int|
            0 <= i < s.rows.len() ==> #[trigger] spec_drive(s, chain, cache, batch).rows[i]
                == s.rows[i],
    decreases spec_tip(chain.head) - s.cursor,
{
    if !(batch < 1 || cache is None || chain.head <= CONFIRM_DEPTH || s.cursor >= spec_tip(
        chain.head,
    )) {
        let tip = spec_tip(chain.head);
        let hi = if s.cursor + batch < tip {
            s.cursor + batch
        } else {
            tip
        };
        let stepped = spec_run_batch(s, chain, cache, s.cursor, hi);
        let a = cache->0;
        lemma_commit_extends(s.rows, s.chain_id, spec_selected_logs(chain.logs, a, s.cursor + 1, hi));
        lemma_drive_extends(stepped, chain, cache, batch);
    }
}

/// A second pass over an unchanged chain and cache changes nothing: the
/// stored rows and the cursor come out identical.
pub proof fn lemma_drive_twice(
    s: StateV,
    chain: ChainV,
    cache: Option<ContractAddresses>,
    b1: int,
    b2: int,
)
    requires
        1 <= b1,
    ensures
        spec_drive(spec_drive(s, chain, cache, b1), chain, cache, b2) == spec_drive(
            s,
            chain,
            cache,
            b1,
        ),
{
    lemma_drive_cursor(s, chain, cache, b1);
    let t = spec_drive(s, chain, cache, b1);
    lemma_drive_cursor(t, chain, cache, b2);
}

/// Running backfill and then immediately running an incremental tick on an
/// unchanged chain advances the cursor by zero and writes nothing.
pub proof fn lemma_backfill_then_incremental(
    s: StateV,
    chain: ChainV,
    cache: Option<ContractAddresses>,
)
    ensures
        ({
            let b = spec_drive(s, chain, cache, BACKFILL_BATCH as int);
            spec_drive(b, chain, cache, INCREMENTAL_BATCH as int) == b
        }),
{
    lemma_drive_twice(s, chain, cache, BACKFILL_BATCH as int, INCREMENTAL_BATCH as int);
}

/// The list of watched contract addresses a range query filters by.
pub fn watched_addresses(a: &ContractAddresses) -> (r: Vec<Address>)
    ensures
        r@.len() == 4,
        r@[0]@ == a.ticket_manager@,
        r@[1]@ == a.event_manager@,
        r@[2]@ == a.marketplace@,
        r@[3]@ == a.token_swap@,
{
    let mut r: Vec<Address> = Vec::new();
    r.push(a.ticket_manager);
    r.push(a.event_manager);
    r.push(a.marketplace);
    r.push(a.token_swap);
    r
}

} // verus!
