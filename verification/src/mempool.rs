//! Two-lane mempool: admission with a per-sender window of eight distinct
//! nonces, age-based pruning against an 86,400-second horizon, and FIFO
//! draining. The wall clock enters only through the `_at` variants'
//! `now` argument; the clockless wrappers read the system time.
use vstd::prelude::*;

use std::time::{SystemTime, UNIX_EPOCH};

use crate::curve::Instruction;
use crate::text::str_eq_str;

verus! {

/// The two lane names the mempool accepts.
pub open spec fn spec_known_lane(kind: Seq<char>) -> bool {
    kind == "fast"@ || kind == "big"@
}

/// How many seconds a transaction may age before pruning evicts it.
pub const PRUNE_HORIZON_SECS: u64 = 86_400;

/// How many distinct nonces one sender may hold in one lane.
pub const NONCE_WINDOW: usize = 8;

/// A transaction: a sender, a nonce, a curve program, a lane name, and an
/// admission timestamp in seconds since the UNIX epoch.
pub struct Tx {
    pub sender: String,
    pub nonce: u64,
    pub program: Vec<Instruction>,
    pub kind: String,
    pub timestamp: u64,
}

/// The mathematical image of a transaction.
pub struct TxV {
    pub sender: Seq<char>,
    pub nonce: u64,
    pub program: Seq<Instruction>,
    pub kind: Seq<char>,
    pub timestamp: u64,
}

impl View for Tx {
    type V = TxV;

    open spec fn view(&self) -> TxV {
        TxV {
            sender: self.sender@,
            nonce: self.nonce,
            program: self.program@,
            kind: self.kind@,
            timestamp: self.timestamp,
        }
    }
}

/// The views of a sequence of transactions.
pub open spec fn view_txs(txs: Seq<Tx>) -> Seq<TxV> {
    txs.map(|_i: int, t: Tx| t@)
}

/// Relies on `SystemTime::now`: the current time, read as whole seconds
/// since the UNIX epoch. Nothing is assumed of the value.
#[verifier::external_body]
pub(crate) fn now_secs() -> u64 {
    match SystemTime::now().duration_since(UNIX_EPOCH) {
        Ok(d) => d.as_secs(),
        Err(_) => 0,
    }
}

impl Tx {
    /// A transaction stamped with the current wall-clock time.
    pub fn new(sender: String, nonce: u64, program: Vec<Instruction>, kind: String) -> (t: Tx)
        ensures
            t.sender@ == sender@,
            t.nonce == nonce,
            t.program@ == program@,
            t.kind@ == kind@,
    {
        Tx { sender, nonce, program, kind, timestamp: now_secs() }
    }
}

/// The two lanes of the mempool. Naming a lane outside `fast` and `big`
/// is a caller bug, not bad data: every method demands a known lane.
pub struct Mempool {
    pub fast_pool: Vec<Tx>,
    pub big_pool: Vec<Tx>,
}

/// The mathematical image of the mempool: both lanes as sequences.
pub struct MempoolV {
    pub fast: Seq<TxV>,
    pub big: Seq<TxV>,
}

impl View for Mempool {
    type V = MempoolV;

    open spec fn view(&self) -> MempoolV {
        MempoolV { fast: view_txs(self.fast_pool@), big: view_txs(self.big_pool@) }
    }
}

/// The oldest admissible timestamp at time `now`.
pub open spec fn prune_cutoff(now: u64) -> u64 {
    if now >= PRUNE_HORIZON_SECS {
        (now - PRUNE_HORIZON_SECS) as u64
    } else {
        0
    }
}

/// A lane with every transaction older than the horizon removed, order kept.
pub open spec fn spec_prune_lane(pool: Seq<TxV>, now: u64) -> Seq<TxV> {
    pool.filter(|t: TxV| t.timestamp >= prune_cutoff(now))
}

/// Both lanes pruned.
pub open spec fn spec_prune_pools(m: MempoolV, now: u64) -> MempoolV {
    MempoolV { fast: spec_prune_lane(m.fast, now), big: spec_prune_lane(m.big, now) }
}

/// Whether some transaction of `sender` in `pool` carries `nonce`.
pub open spec fn nonce_present(pool: Seq<TxV>, sender: Seq<char>, nonce: u64) -> bool {
    exists|i: int|
        0 <= i < pool.len() && pool[i].sender == sender && pool[i].nonce == nonce
}

/// How many distinct nonces `sender` holds in `pool`.
pub open spec fn distinct_nonce_count(pool: Seq<TxV>, sender: Seq<char>) -> nat
    decreases pool.len(),
{
    if pool.len() == 0 {
        0
    } else {
        distinct_nonce_count(pool.drop_last(), sender) + if pool.last().sender == sender
            && !nonce_present(pool.drop_last(), sender, pool.last().nonce) {
            1nat
        } else {
            0nat
        }
    }
}

/// Whether the window admits one more transaction of `sender` with `nonce`:
/// fewer than eight distinct nonces held, or the nonce already among them.
pub open spec fn admits(pool: Seq<TxV>, sender: Seq<char>, nonce: u64) -> bool {
    distinct_nonce_count(pool, sender) < NONCE_WINDOW || nonce_present(pool, sender, nonce)
}

/// The lane of `m` named by `kind`.
pub open spec fn lane_of(m: MempoolV, kind: Seq<char>) -> Seq<TxV> {
    if kind == "fast"@ {
        m.fast
    } else {
        m.big
    }
}

/// `m` with the lane named by `kind` replaced.
pub open spec fn with_lane(m: MempoolV, kind: Seq<char>, lane: Seq<TxV>) -> MempoolV {
    if kind == "fast"@ {
        MempoolV { fast: lane, ..m }
    } else {
        MempoolV { big: lane, ..m }
    }
}

/// What admission at time `now` does: prune both lanes, then append the
/// transaction to its lane if the nonce window admits it. The second
/// component says whether it was admitted.
pub open spec fn spec_add_tx(m: MempoolV, t: TxV, now: u64) -> (MempoolV, bool) {
    let p = spec_prune_pools(m, now);
    let lane = lane_of(p, t.kind);
    if admits(lane, t.sender, t.nonce) {
        (with_lane(p, t.kind, lane.push(t)), true)
    } else {
        (p, false)
    }
}

/// What draining at time `now` returns and leaves: prune both lanes, then
/// remove and return the first `min(limit, len)` transactions of the lane.
pub open spec fn spec_get_txs(m: MempoolV, kind: Seq<char>, limit: int, now: u64) -> (
    MempoolV,
    Seq<TxV>,
) {
    let p = spec_prune_pools(m, now);
    let lane = lane_of(p, kind);
    let k = if limit < lane.len() {
        limit
    } else {
        lane.len() as int
    };
    (with_lane(p, kind, lane.skip(k)), lane.take(k))
}

/// Longest program a single transaction may carry; together with the block
/// transaction limit this keeps an assembled block within the payload
/// encoder's bounds.
pub const MAX_TX_PROGRAM: u64 = 0x1000_0000;

/// Every transaction of `pool` carries a program of at most `b`
/// instructions.
pub open spec fn lane_bounded(pool: Seq<TxV>, b: u64) -> bool {
    forall|i: int| 0 <= i < pool.len() ==> (#[trigger] pool[i]).program.len() <= b
}

/// Both lanes bounded.
pub open spec fn pools_bounded(m: MempoolV, b: u64) -> bool {
    lane_bounded(m.fast, b) && lane_bounded(m.big, b)
}

/// Pruning keeps a lane's program bound.
pub proof fn lemma_prune_lane_bounded(pool: Seq<TxV>, now: u64, b: u64)
    requires
        lane_bounded(pool, b),
    ensures
        lane_bounded(spec_prune_lane(pool, now), b),
    decreases pool.len(),
{
    if pool.len() > 0 {
        lemma_prune_step(pool, now);
        assert(lane_bounded(pool.drop_last(), b)) by {
            assert(forall|i: int|
                0 <= i < pool.drop_last().len() ==> pool.drop_last()[i] == pool[i]);
        }
        lemma_prune_lane_bounded(pool.drop_last(), now, b);
        let pruned = spec_prune_lane(pool, now);
        let prev = spec_prune_lane(pool.drop_last(), now);
        if pool.last().timestamp >= prune_cutoff(now) {
            assert(forall|i: int|
                0 <= i < pruned.len() ==> pruned[i] == (if i < prev.len() {
                    prev[i]
                } else {
                    pool.last()
                }));
        }
    }
}

/// Admission keeps both lanes' program bound when the new transaction is
/// itself bounded.
pub proof fn lemma_add_tx_bounded(m: MempoolV, t: TxV, now: u64, b: u64)
    requires
        pools_bounded(m, b),
        t.program.len() <= b,
    ensures
        pools_bounded(spec_add_tx(m, t, now).0, b),
{
    lemma_prune_lane_bounded(m.fast, now, b);
    lemma_prune_lane_bounded(m.big, now, b);
    let p = spec_prune_pools(m, now);
    let lane = lane_of(p, t.kind);
    if admits(lane, t.sender, t.nonce) {
        assert(forall|i: int|
            0 <= i < lane.push(t).len() ==> lane.push(t)[i] == (if i < lane.len() {
                lane[i]
            } else {
                t
            }));
    }
}

/// Draining keeps the bound, on what stays and on what comes out.
pub proof fn lemma_get_txs_bounded(m: MempoolV, kind: Seq<char>, limit: int, now: u64, b: u64)
    requires
        pools_bounded(m, b),
        0 <= limit,
    ensures
        pools_bounded(spec_get_txs(m, kind, limit, now).0, b),
        lane_bounded(spec_get_txs(m, kind, limit, now).1, b),
{
    lemma_prune_lane_bounded(m.fast, now, b);
    lemma_prune_lane_bounded(m.big, now, b);
    let p = spec_prune_pools(m, now);
    let lane = lane_of(p, kind);
    let k = if limit < lane.len() {
        limit
    } else {
        lane.len() as int
    };
    assert(forall|i: int| 0 <= i < lane.take(k).len() ==> lane.take(k)[i] == lane[i]);
    assert(forall|i: int| 0 <= i < lane.skip(k).len() ==> lane.skip(k)[i] == lane[i + k]);
}

/// The distinct nonces `sender` holds in `pool`, as a set.
pub open spec fn nonce_set(pool: Seq<TxV>, sender: Seq<char>) -> Set<u64> {
    Set::new(|n: u64| nonce_present(pool, sender, n))
}

/// Extending a pool by one transaction extends what is present by exactly
/// that transaction's nonce, for its sender.
proof fn lemma_nonce_present_snoc(pool: Seq<TxV>, sender: Seq<char>, n: u64)
    requires
        pool.len() > 0,
    ensures
        nonce_present(pool, sender, n) == (nonce_present(pool.drop_last(), sender, n) || (
        pool.last().sender == sender && pool.last().nonce == n)),
{
    let dl = pool.drop_last();
    if nonce_present(dl, sender, n) {
        let i = choose|i: int| 0 <= i < dl.len() && dl[i].sender == sender && dl[i].nonce == n;
        assert(pool[i] == dl[i]);
        assert(nonce_present(pool, sender, n));
    }
    if pool.last().sender == sender && pool.last().nonce == n {
        assert(pool[pool.len() - 1] == pool.last());
        assert(nonce_present(pool, sender, n));
    }
    if nonce_present(pool, sender, n) {
        let i = choose|i: int|
            0 <= i < pool.len() && pool[i].sender == sender && pool[i].nonce == n;
        if i < pool.len() - 1 {
            assert(dl[i] == pool[i]);
            assert(nonce_present(dl, sender, n));
        }
    }
}

/// The recursive distinct-nonce count is the cardinality of the nonce set.
proof fn lemma_nonce_count_is_set_len(pool: Seq<TxV>, sender: Seq<char>)
    ensures
        nonce_set(pool, sender).finite(),
        distinct_nonce_count(pool, sender) == nonce_set(pool, sender).len(),
    decreases pool.len(),
{
    if pool.len() == 0 {
        assert(nonce_set(pool, sender) =~= Set::<u64>::empty());
    } else {
        let dl = pool.drop_last();
        lemma_nonce_count_is_set_len(dl, sender);
        assert forall|n: u64|
            nonce_present(pool, sender, n) == (nonce_present(dl, sender, n) || (
            pool.last().sender == sender && pool.last().nonce == n)) by {
            lemma_nonce_present_snoc(pool, sender, n);
        }
        if pool.last().sender == sender && !nonce_present(dl, sender, pool.last().nonce) {
            assert(nonce_set(pool, sender) =~= nonce_set(dl, sender).insert(pool.last().nonce));
        } else {
            assert(nonce_set(pool, sender) =~= nonce_set(dl, sender));
        }
    }
}

/// Pruning never makes a nonce appear: what is present afterwards was
/// present before.
proof fn lemma_prune_present(pool: Seq<TxV>, now: u64, sender: Seq<char>, n: u64)
    requires
        nonce_present(spec_prune_lane(pool, now), sender, n),
    ensures
        nonce_present(pool, sender, n),
    decreases pool.len(),
{
    if pool.len() > 0 {
        lemma_prune_step(pool, now);
        let dl = pool.drop_last();
        let pruned = spec_prune_lane(pool, now);
        if pool.last().timestamp >= prune_cutoff(now) {
            lemma_nonce_present_snoc(pruned, sender, n);
            if nonce_present(spec_prune_lane(dl, now), sender, n) {
                lemma_prune_present(dl, now, sender, n);
                let i = choose|i: int|
                    0 <= i < dl.len() && dl[i].sender == sender && dl[i].nonce == n;
                assert(pool[i] == dl[i]);
            } else {
                assert(pool[pool.len() - 1] == pool.last());
            }
        } else {
            lemma_prune_present(dl, now, sender, n);
            let i = choose|i: int|
                0 <= i < dl.len() && dl[i].sender == sender && dl[i].nonce == n;
            assert(pool[i] == dl[i]);
        }
    }
}

/// Pruning never raises a sender's distinct-nonce count.
proof fn lemma_prune_count_le(pool: Seq<TxV>, now: u64, sender: Seq<char>)
    ensures
        distinct_nonce_count(spec_prune_lane(pool, now), sender) <= distinct_nonce_count(
            pool,
            sender,
        ),
{
    let pruned = spec_prune_lane(pool, now);
    lemma_nonce_count_is_set_len(pool, sender);
    lemma_nonce_count_is_set_len(pruned, sender);
    assert forall|n: u64| nonce_set(pruned, sender).contains(n) implies nonce_set(
        pool,
        sender,
    ).contains(n) by {
        lemma_prune_present(pool, now, sender, n);
    }
    vstd::set_lib::lemma_len_subset(nonce_set(pruned, sender), nonce_set(pool, sender));
}

/// Every sender holds at most eight distinct nonces in `pool`.
pub open spec fn window_bounded(pool: Seq<TxV>) -> bool {
    forall|sender: Seq<char>| distinct_nonce_count(pool, sender) <= NONCE_WINDOW
}

/// The nonce-window invariant: if every sender holds at most eight
/// distinct nonces in each lane, then after any admission — accepted or
/// rejected, at any time — every sender still does. Pruning only removes
/// nonces, and a transaction is appended only when its sender either
/// stays within the window or reuses a nonce already held.
pub proof fn lemma_nonce_window_preserved(m: MempoolV, t: TxV, now: u64)
    requires
        window_bounded(m.fast),
        window_bounded(m.big),
    ensures
        window_bounded(spec_add_tx(m, t, now).0.fast),
        window_bounded(spec_add_tx(m, t, now).0.big),
{
    assert forall|sender: Seq<char>|
        distinct_nonce_count(spec_prune_lane(m.fast, now), sender) <= NONCE_WINDOW
            && distinct_nonce_count(spec_prune_lane(m.big, now), sender) <= NONCE_WINDOW by {
        lemma_prune_count_le(m.fast, now, sender);
        lemma_prune_count_le(m.big, now, sender);
    }
    let p = spec_prune_pools(m, now);
    let lane = lane_of(p, t.kind);
    if admits(lane, t.sender, t.nonce) {
        let grown = lane.push(t);
        assert forall|sender: Seq<char>| distinct_nonce_count(grown, sender)
            <= NONCE_WINDOW by {
            lemma_prune_count_le(m.fast, now, sender);
            lemma_prune_count_le(m.big, now, sender);
            assert(grown.drop_last() =~= lane);
            assert(grown.last() == t);
            assert(distinct_nonce_count(grown, sender) == distinct_nonce_count(lane, sender)
                + if t.sender == sender && !nonce_present(lane, sender, t.nonce) {
                1int
            } else {
                0int
            });
            if sender == t.sender && !nonce_present(lane, sender, t.nonce) {
                assert(distinct_nonce_count(lane, t.sender) < NONCE_WINDOW);
            }
        }
    }
}

/// One step of pruning: the last transaction stays exactly when it is
/// within the horizon.
proof fn lemma_prune_step(pool: Seq<TxV>, now: u64)
    requires
        pool.len() > 0,
    ensures
        spec_prune_lane(pool, now) == if pool.last().timestamp >= prune_cutoff(now) {
            spec_prune_lane(pool.drop_last(), now).push(pool.last())
        } else {
            spec_prune_lane(pool.drop_last(), now)
        },
{
    reveal_with_fuel(Seq::filter, 2);
}

/// Removes every transaction older than the horizon from one lane.
fn prune_lane(pool: &mut Vec<Tx>, now: u64)
    ensures
        view_txs(final(pool)@) == spec_prune_lane(view_txs(old(pool)@), now),
{
    let cutoff: u64 = if now >= PRUNE_HORIZON_SECS {
        now - PRUNE_HORIZON_SECS
    } else {
        0
    };
    let ghost orig = pool@;
    let mut out: Vec<Tx> = Vec::new();
    let ghost mut k: int = 0;
    proof {
        assert(orig.skip(0) =~= orig);
        assert(view_txs(orig.take(0)) =~= Seq::<TxV>::empty());
        assert(view_txs(out@) =~= spec_prune_lane(view_txs(orig.take(0)), now));
    }
    while pool.len() > 0
        invariant
            0 <= k <= orig.len(),
            pool@ == orig.skip(k),
            cutoff == prune_cutoff(now),
            view_txs(out@) == spec_prune_lane(view_txs(orig.take(k)), now),
        decreases pool@.len(),
    {
        let ghost before = pool@;
        let tx = pool.remove(0);
        proof {
            assert(orig.skip(k)[0] == orig[k]);
            assert(before.remove(0) =~= orig.skip(k + 1));
            assert(view_txs(orig.take(k + 1)).drop_last() =~= view_txs(orig.take(k)));
            assert(view_txs(orig.take(k + 1)).last() == orig[k]@);
        }
        proof {
            lemma_prune_step(view_txs(orig.take(k + 1)), now);
        }
        if tx.timestamp >= cutoff {
            out.push(tx);
        }
        proof {
            assert(view_txs(out@) =~= spec_prune_lane(view_txs(orig.take(k + 1)), now));
            k = k + 1;
        }
    }
    proof {
        assert(orig.take(k) =~= orig);
    }
    *pool = out;
}

/// Removes and returns the first `take_n` elements of `pool`, in order.
fn drain_front(pool: &mut Vec<Tx>, take_n: usize) -> (r: Vec<Tx>)
    requires
        take_n <= old(pool)@.len(),
    ensures
        final(pool)@ == old(pool)@.skip(take_n as int),
        r@ == old(pool)@.take(take_n as int),
{
    let mut out: Vec<Tx> = Vec::new();
    let mut i: usize = 0;
    proof {
        assert(pool@ =~= old(pool)@.skip(0));
        assert(out@ =~= old(pool)@.take(0));
    }
    while i < take_n
        invariant
            i <= take_n <= old(pool)@.len(),
            pool@ == old(pool)@.skip(i as int),
            out@ == old(pool)@.take(i as int),
        decreases take_n - i,
    {
        let ghost before = pool@;
        let tx = pool.remove(0);
        proof {
            assert(before[0] == old(pool)@[i as int]);
            assert(before.remove(0) =~= old(pool)@.skip(i + 1));
        }
        out.push(tx);
        proof {
            assert(out@ =~= old(pool)@.take(i + 1));
        }
        i = i + 1;
    }
    out
}

impl Mempool {
    /// An empty mempool: both lanes empty.
    pub fn new() -> (m: Mempool)
        ensures
            m@.fast =~= Seq::<TxV>::empty(),
            m@.big =~= Seq::<TxV>::empty(),
    {
        Mempool { fast_pool: Vec::new(), big_pool: Vec::new() }
    }

    /// Prunes both lanes against the horizon at time `now`.
    pub fn prune_at(&mut self, now: u64)
        ensures
            final(self)@ == spec_prune_pools(old(self)@, now),
    {
        prune_lane(&mut self.fast_pool, now);
        prune_lane(&mut self.big_pool, now);
    }

    /// Admits `tx` into its lane at time `now`: prunes first, then rejects
    /// the transaction only when its sender already holds eight distinct
    /// nonces in that lane, none of them the transaction's own.
    pub fn add_tx_at(&mut self, tx: Tx, now: u64) -> (r: Result<(), String>)
        requires
            spec_known_lane(tx.kind@),
        ensures
            final(self)@ == spec_add_tx(old(self)@, tx@, now).0,
            r is Ok <==> spec_add_tx(old(self)@, tx@, now).1,
            r matches Err(e) ==> e@ == "Nonce window exceeded"@,
    {
        self.prune_at(now);
        let is_fast = str_eq_str(tx.kind.as_str(), "fast");
        let ok = if is_fast {
            lane_admits(&self.fast_pool, tx.sender.as_str(), tx.nonce)
        } else {
            lane_admits(&self.big_pool, tx.sender.as_str(), tx.nonce)
        };
        if !ok {
            return Err(String::from_str("Nonce window exceeded"));
        }
        let ghost pruned = self@;
        if is_fast {
            self.fast_pool.push(tx);
        } else {
            self.big_pool.push(tx);
        }
        proof {
            if is_fast {
                assert(self@.fast =~= pruned.fast.push(tx@));
            } else {
                assert(self@.big =~= pruned.big.push(tx@));
            }
        }
        Ok(())
    }

    /// Admits `tx` at the current wall-clock time.
    pub fn add_tx(&mut self, tx: Tx) -> (r: Result<(), String>)
        requires
            spec_known_lane(tx.kind@),
        ensures
            exists|now: u64|
                final(self)@ == #[trigger] spec_add_tx(old(self)@, tx@, now).0 && (r is Ok
                    <==> spec_add_tx(old(self)@, tx@, now).1),
            r matches Err(e) ==> e@ == "Nonce window exceeded"@,
    {
        let now = now_secs();
        self.add_tx_at(tx, now)
    }

    /// Drains up to `limit` transactions from the lane named `kind` at time
    /// `now`: prunes first, then removes and returns the lane's first
    /// `min(limit, len)` transactions in admission order.
    pub fn get_txs_at(&mut self, kind: &str, limit: usize, now: u64) -> (r: Vec<Tx>)
        requires
            spec_known_lane(kind@),
        ensures
            final(self)@ == spec_get_txs(old(self)@, kind@, limit as int, now).0,
            view_txs(r@) == spec_get_txs(old(self)@, kind@, limit as int, now).1,
    {
        self.prune_at(now);
        let ghost pruned = self@;
        let is_fast = str_eq_str(kind, "fast");
        let ghost lane = lane_of(pruned, kind@);
        let out: Vec<Tx> = if is_fast {
            let take_n: usize = if limit < self.fast_pool.len() {
                limit
            } else {
                self.fast_pool.len()
            };
            drain_front(&mut self.fast_pool, take_n)
        } else {
            let take_n: usize = if limit < self.big_pool.len() {
                limit
            } else {
                self.big_pool.len()
            };
            drain_front(&mut self.big_pool, take_n)
        };
        proof {
            let spec_pair = spec_get_txs(old(self)@, kind@, limit as int, now);
            assert(self@.fast =~= spec_pair.0.fast);
            assert(self@.big =~= spec_pair.0.big);
            assert(view_txs(out@) =~= spec_pair.1);
        }
        out
    }

    /// Drains up to `limit` transactions at the current wall-clock time.
    pub fn get_txs(&mut self, kind: &str, limit: usize) -> (r: Vec<Tx>)
        requires
            spec_known_lane(kind@),
        ensures
            exists|now: u64|
                final(self)@ == #[trigger] spec_get_txs(old(self)@, kind@, limit as int, now).0
                    && view_txs(r@) == spec_get_txs(old(self)@, kind@, limit as int, now).1,
    {
        let now = now_secs();
        self.get_txs_at(kind, limit, now)
    }
}

/// Whether the nonce window of `pool` admits `sender` with `nonce`.
fn lane_admits(pool: &Vec<Tx>, sender: &str, nonce: u64) -> (r: bool)
    ensures
        r == admits(view_txs(pool@), sender@, nonce),
{
    let n: usize = pool.len();
    let mut count: usize = 0;
    let mut present: bool = false;
    let mut i: usize = 0;
    while i < n
        invariant
            i <= n,
            n == pool@.len(),
            count <= i,
            count == distinct_nonce_count(view_txs(pool@.take(i as int)), sender@),
            present == nonce_present(view_txs(pool@.take(i as int)), sender@, nonce),
        decreases n - i,
    {
        let ghost prev = view_txs(pool@.take(i as int));
        proof {
            assert(view_txs(pool@.take(i + 1)).drop_last() =~= prev);
            assert(view_txs(pool@.take(i + 1)).last() == pool@[i as int]@);
        }
        if str_eq_str(pool[i].sender.as_str(), sender) {
            let tn = pool[i].nonce;
            let mut dup: bool = false;
            let mut j: usize = 0;
            while j < i
                invariant
                    j <= i <= n,
                    n == pool@.len(),
                    tn == pool@[i as int].nonce,
                    dup == nonce_present(view_txs(pool@.take(j as int)), sender@, tn),
                decreases i - j,
            {
                proof {
                    assert(view_txs(pool@.take(j + 1)).drop_last() =~= view_txs(
                        pool@.take(j as int),
                    ));
                    assert(view_txs(pool@.take(j + 1)).last() == pool@[j as int]@);
                }
                if str_eq_str(pool[j].sender.as_str(), sender) && pool[j].nonce == tn {
                    dup = true;
                    proof {
                        assert(view_txs(pool@.take(j + 1))[j as int] == pool@[j as int]@);
                    }
                } else {
                    proof {
                        lemma_nonce_present_step(pool@, sender@, tn, j as int);
                    }
                }
                j = j + 1;
            }
            if !dup {
                count = count + 1;
            }
            if tn == nonce {
                present = true;
                proof {
                    assert(view_txs(pool@.take(i + 1))[i as int] == pool@[i as int]@);
                }
            } else {
                proof {
                    lemma_nonce_present_step(pool@, sender@, nonce, i as int);
                }
            }
        } else {
            proof {
                lemma_nonce_present_step(pool@, sender@, nonce, i as int);
            }
        }
        i = i + 1;
    }
    proof {
        assert(pool@.take(n as int) =~= pool@);
    }
    count < NONCE_WINDOW || present
}

/// Extending the scanned prefix by one transaction that does not match
/// leaves `nonce_present` unchanged.
proof fn lemma_nonce_present_step(pool: Seq<Tx>, sender: Seq<char>, nonce: u64, j: int)
    requires
        0 <= j < pool.len(),
        !(pool[j]@.sender == sender && pool[j]@.nonce == nonce),
    ensures
        nonce_present(view_txs(pool.take(j + 1)), sender, nonce) == nonce_present(
            view_txs(pool.take(j)),
            sender,
            nonce,
        ),
{
    let a = view_txs(pool.take(j));
    let b = view_txs(pool.take(j + 1));
    assert(b.drop_last() =~= a);
    if nonce_present(a, sender, nonce) {
        let i = choose|i: int| 0 <= i < a.len() && a[i].sender == sender && a[i].nonce == nonce;
        assert(b[i] == a[i]);
        assert(nonce_present(b, sender, nonce));
    }
    if nonce_present(b, sender, nonce) {
        let i = choose|i: int| 0 <= i < b.len() && b[i].sender == sender && b[i].nonce == nonce;
        assert(b[j] == pool[j]@);
        if i < j {
            assert(a[i] == b[i]);
            assert(nonce_present(a, sender, nonce));
        }
    }
}

} // verus!
