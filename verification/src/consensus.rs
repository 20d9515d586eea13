//! Consensus core: a leader tick, an N-way state-root agreement check over a
//! pluggable root function, then commit and anchor. Replicas that disagree
//! on the post-execution state stop the pipeline before any state advances.
use vstd::prelude::*;
use vstd::string::StringExecFns;

use crate::anchor::{base64_of, payload_bytes, BatchPoster, MAX_BLOCK_PROGRAM};
use crate::curve::{curve_run, CurveVM, Instruction};
use crate::digest::{hex_bytes, hex_of, lemma_hex_of_ascii, sha256, sha256_of};
use crate::hotshot::HotShotConsensus;
use crate::mempool::{
    lane_bounded, lemma_get_txs_bounded, now_secs, pools_bounded, spec_get_txs, spec_known_lane,
    view_txs, Mempool, TxV, MAX_TX_PROGRAM,
};
use crate::schedule::RoundRobin;
use crate::text::{
    ascii_to_string, chars_of_ascii, dec_int, i64_dec, lemma_dec_digits_len, lit_bytes,
    push_ascii, str_eq_str,
};

verus! {

/// Most transactions one block may drain; together with the per-transaction
/// program bound this keeps a block's program within the payload encoder's
/// bounds.
pub const MAX_BLOCK_TXS: usize = 0x10000;

/// An assembled block: the concatenated programs of its transactions, in
/// transaction order, and the lane it was drained from.
pub struct Block {
    pub program: Vec<Instruction>,
    pub kind: String,
}

/// The curve interpreter's starting state.
pub open spec fn init_vm() -> CurveVM {
    CurveVM { balance: 0, liquidity: 0, migrated_to_amm: false, migrate_value: 0 }
}

/// The canonical JSON encoding of a post-execution curve state, fields in
/// the fixed order balance, liquidity, migrated, migrate_value.
pub open spec fn state_json(vm: CurveVM) -> Seq<u8> {
    lit_bytes("{\"balance\":"@) + dec_int(vm.balance as int) + lit_bytes(",\"liquidity\":"@)
        + dec_int(vm.liquidity as int) + lit_bytes(",\"migrated\":"@) + (if vm.migrated_to_amm {
        lit_bytes("true"@)
    } else {
        lit_bytes("false"@)
    }) + lit_bytes(",\"migrate_value\":"@) + dec_int(vm.migrate_value as int) + lit_bytes("}"@)
}

/// The default state root of a program: lowercase hex of the SHA-256 digest
/// of the canonical encoding of the state the program drives the curve
/// interpreter to. Programs reaching equal final states have equal roots.
pub open spec fn spec_state_root(prog: Seq<Instruction>) -> Seq<char> {
    chars_of_ascii(hex_of(sha256_of(state_json(curve_run(init_vm(), prog)))))
}

/// Computes the default state root of `program`.
pub fn state_root(program: &[Instruction]) -> (r: String)
    ensures
        r@ == spec_state_root(program@),
{
    let mut vm = CurveVM::new();
    vm.execute(program);
    proof {
        reveal_strlit("{\"balance\":");
        reveal_strlit(",\"liquidity\":");
        reveal_strlit(",\"migrated\":");
        reveal_strlit("true");
        reveal_strlit("false");
        reveal_strlit(",\"migrate_value\":");
        reveal_strlit("}");
        lemma_dec_digits_len(vm.balance as int);
        lemma_dec_digits_len(vm.liquidity as int);
        lemma_dec_digits_len(vm.migrate_value as int);
    }
    let mut data: Vec<u8> = Vec::new();
    push_ascii(&mut data, "{\"balance\":");
    let mut piece = i64_dec(vm.balance);
    data.append(&mut piece);
    push_ascii(&mut data, ",\"liquidity\":");
    let mut piece = i64_dec(vm.liquidity);
    data.append(&mut piece);
    push_ascii(&mut data, ",\"migrated\":");
    if vm.migrated_to_amm {
        push_ascii(&mut data, "true");
    } else {
        push_ascii(&mut data, "false");
    }
    push_ascii(&mut data, ",\"migrate_value\":");
    let mut piece = i64_dec(vm.migrate_value);
    data.append(&mut piece);
    push_ascii(&mut data, "}");
    proof {
        assert(data@ =~= state_json(curve_run(init_vm(), program@)));
    }
    let root = sha256(data.as_slice());
    let hx = hex_bytes(&root);
    proof {
        lemma_hex_of_ascii(root@);
    }
    ascii_to_string(hx)
}

/// The pluggable state-root function: one method from a program to a root
/// string. The default implementation is pure; a replica under test may
/// substitute a stateful one, so nothing is promised of the result here.
pub trait StateRoot {
    fn root(&mut self, program: &[Instruction]) -> String;
}

/// The default, deterministic root function.
pub struct DefaultStateRoot;

impl StateRoot for DefaultStateRoot {
    fn root(&mut self, program: &[Instruction]) -> String {
        state_root(program)
    }
}

/// Copies a validator list element by element.
fn clone_validators(vals: &Vec<String>) -> (r: Vec<String>)
    ensures
        r@ == vals@,
{
    let n: usize = vals.len();
    let mut out: Vec<String> = Vec::new();
    let mut i: usize = 0;
    while i < n
        invariant
            i <= n,
            n == vals@.len(),
            out@ == vals@.take(i as int),
        decreases n - i,
    {
        out.push(vals[i].clone());
        proof {
            assert(out@ =~= vals@.take(i + 1));
        }
        i = i + 1;
    }
    proof {
        assert(vals@.take(n as int) =~= vals@);
    }
    out
}

/// The consensus core: a committed-height engine, an anchoring poster, the
/// validator list, the rotating leader schedule, and an optional root-
/// function override.
pub struct Consensus<R: StateRoot> {
    pub engine: HotShotConsensus,
    pub poster: BatchPoster,
    pub validators: Vec<String>,
    pub schedule: RoundRobin<String>,
    pub hook: Option<R>,
}

impl<R: StateRoot> Consensus<R> {
    /// The validator list is non-empty and the schedule cursor is in range.
    pub open spec fn wf(&self) -> bool {
        self.validators@.len() > 0 && self.schedule.wf()
    }

    /// A consensus over `validators`; an empty list is rejected. On
    /// success the height is zero, no root override is installed, the
    /// poster is taken as given, and the leader cursor starts at the first
    /// validator.
    pub fn new(validators: Vec<String>, poster: BatchPoster) -> (r: Result<Consensus<R>, String>)
        ensures
            validators@.len() == 0 <==> r is Err,
            r matches Ok(c) ==> c.wf() && c.engine.height == 0 && c.poster == poster
                && c.validators@ == validators@ && c.hook is None && c.schedule.vals@
                == validators@ && c.schedule.idx == 0,
            r matches Err(e) ==> e@ == "No validators provided"@,
    {
        let vals = clone_validators(&validators);
        let schedule = match RoundRobin::new(vals) {
            Ok(s) => s,
            Err(e) => {
                return Err(e);
            },
        };
        Ok(
            Consensus {
                engine: HotShotConsensus::new(),
                poster,
                validators,
                schedule,
                hook: None,
            },
        )
    }

    /// Installs a replacement root function; nothing else changes.
    pub fn set_state_root_hook(&mut self, f: R)
        ensures
            final(self).hook == Some(f),
            final(self).engine == old(self).engine,
            final(self).poster == old(self).poster,
            final(self).validators == old(self).validators,
            final(self).schedule == old(self).schedule,
    {
        self.hook = Some(f);
    }

    /// One replica's root of `program`: the override if installed, the
    /// default otherwise. Only the override's own state may change.
    pub fn compute_root(&mut self, program: &[Instruction]) -> (r: String)
        ensures
            old(self).hook is None ==> *final(self) == *old(self) && r@ == spec_state_root(
                program@,
            ),
            final(self).engine == old(self).engine,
            final(self).poster == old(self).poster,
            final(self).validators == old(self).validators,
            final(self).schedule == old(self).schedule,
            final(self).hook is Some <==> old(self).hook is Some,
    {
        match &mut self.hook {
            Some(h) => h.root(program),
            None => state_root(program),
        }
    }

    /// Advances the leader schedule one tick, computes the state root once
    /// per validator, and commits and anchors the block only if every
    /// replica returned the same root. On divergence nothing advances: the
    /// height and the transcript stay as they were. With no override
    /// installed the roots always agree, so the proposal succeeds.
    pub fn propose_and_commit(&mut self, block: Block) -> (r: Result<String, String>)
        requires
            old(self).wf(),
            old(self).engine.height < u64::MAX,
            block.program@.len() <= MAX_BLOCK_PROGRAM,
        ensures
            final(self).wf(),
            final(self).validators == old(self).validators,
            final(self).schedule.vals@ == old(self).schedule.vals@,
            final(self).schedule.idx == (old(self).schedule.idx + 1) % (
            old(self).schedule.vals@.len() as int),
            match r {
                Ok(h) => final(self).engine.height == old(self).engine.height + 1
                    && h@ == base64_of(payload_bytes(block.program@)) && h@.len() > 0
                    && final(self).poster.client.sent@.len() == old(
                    self,
                ).poster.client.sent@.len() + 1 && final(self).poster.client.sent@.last()@ == h@
                    && (forall|i: int|
                    0 <= i < old(self).poster.client.sent@.len()
                        ==> final(self).poster.client.sent@[i] == old(
                        self,
                    ).poster.client.sent@[i]),
                Err(e) => e@ == "State roots diverged"@ && final(self).engine == old(self).engine
                    && final(self).poster == old(self).poster,
            },
            old(self).hook is None ==> r is Ok,
    {
        let _leader = self.schedule.next();
        let ghost snap = *self;
        let n: usize = self.validators.len();
        let mut roots: Vec<String> = Vec::new();
        let mut k: usize = 0;
        while k < n
            invariant
                k <= n,
                roots@.len() == k,
                self.engine == snap.engine,
                self.poster == snap.poster,
                self.validators == snap.validators,
                self.schedule == snap.schedule,
                snap.hook is None ==> *self == snap && forall|j: int|
                    0 <= j < k ==> (#[trigger] roots@[j])@ == spec_state_root(block.program@),
            decreases n - k,
        {
            let root = self.compute_root(block.program.as_slice());
            roots.push(root);
            k = k + 1;
        }
        let mut agree: bool = true;
        if n > 0 {
            let mut k: usize = 1;
            while k < n
                invariant
                    1 <= k <= n,
                    n == roots@.len(),
                    agree ==> forall|j: int| 0 <= j < k ==> (#[trigger] roots@[j])@ == roots@[0]@,
                    snap.hook is None ==> agree,
                    snap.hook is None ==> forall|j: int|
                        0 <= j < n ==> (#[trigger] roots@[j])@ == spec_state_root(block.program@),
                decreases n - k,
            {
                if !str_eq_str(roots[k].as_str(), roots[0].as_str()) {
                    agree = false;
                }
                k = k + 1;
            }
        }
        if !agree {
            return Err(String::from_str("State roots diverged"));
        }
        self.engine.commit_block(block.program.as_slice());
        let sig = self.poster.commit(block.program.as_slice());
        Ok(sig)
    }
}

/// The programs of a drained transaction sequence, concatenated in order.
pub open spec fn concat_programs(txs: Seq<TxV>) -> Seq<Instruction>
    decreases txs.len(),
{
    if txs.len() == 0 {
        Seq::empty()
    } else {
        concat_programs(txs.drop_last()) + txs.last().program
    }
}

/// Owns the mempool and the consensus core and turns drained transactions
/// into proposed blocks.
pub struct Miner<R: StateRoot> {
    pub mp: Mempool,
    pub consensus: Consensus<R>,
}

impl<R: StateRoot> Miner<R> {
    /// A miner over the given mempool and consensus.
    pub fn new(mp: Mempool, consensus: Consensus<R>) -> (m: Miner<R>)
        ensures
            m.mp == mp,
            m.consensus == consensus,
    {
        Miner { mp, consensus }
    }

    /// Drains up to `max_txs` transactions from the lane named `kind` at
    /// time `now`, concatenates their programs into one block, and
    /// proposes it.
    pub fn mine_at(&mut self, kind: &str, max_txs: usize, now: u64) -> (r: Result<
        String,
        String,
    >)
        requires
            spec_known_lane(kind@),
            old(self).consensus.wf(),
            old(self).consensus.engine.height < u64::MAX,
            max_txs <= MAX_BLOCK_TXS,
            pools_bounded(old(self).mp@, MAX_TX_PROGRAM),
        ensures
            final(self).consensus.wf(),
            final(self).consensus.validators == old(self).consensus.validators,
            ({
                let drained = spec_get_txs(old(self).mp@, kind@, max_txs as int, now);
                let prog = concat_programs(drained.1);
                final(self).mp@ == drained.0 && match r {
                    Ok(h) => final(self).consensus.engine.height == old(
                        self,
                    ).consensus.engine.height + 1 && h@ == base64_of(payload_bytes(prog))
                        && final(self).consensus.poster.client.sent@.len() == old(
                        self,
                    ).consensus.poster.client.sent@.len() + 1
                        && final(self).consensus.poster.client.sent@.last()@ == h@,
                    Err(e) => e@ == "State roots diverged"@ && final(self).consensus.engine
                        == old(self).consensus.engine && final(self).consensus.poster == old(
                        self,
                    ).consensus.poster,
                }
            }),
            old(self).consensus.hook is None ==> r is Ok,
            r matches Ok(h) ==> h@.len() > 0,
    {
        let txs = self.mp.get_txs_at(kind, max_txs, now);
        let ghost drained = view_txs(txs@);
        proof {
            lemma_get_txs_bounded(old(self).mp@, kind@, max_txs as int, now, MAX_TX_PROGRAM);
        }
        let mut program: Vec<Instruction> = Vec::new();
        let mut rest = txs;
        let ghost mut done: int = 0;
        proof {
            assert(rest@ =~= rest@.skip(0));
            assert(concat_programs(drained.take(0)) =~= Seq::<Instruction>::empty());
        }
        let ghost all = rest@;
        proof {
            assert(view_txs(all).len() == all.len());
            assert(drained.len() <= max_txs);
        }
        while rest.len() > 0
            invariant
                0 <= done <= all.len(),
                all.len() <= max_txs,
                drained == view_txs(all),
                lane_bounded(drained, MAX_TX_PROGRAM),
                max_txs <= MAX_BLOCK_TXS,
                rest@ == all.skip(done),
                program@ == concat_programs(drained.take(done)),
                program@.len() <= done * (MAX_TX_PROGRAM as int),
            decreases rest@.len(),
        {
            let ghost before = rest@;
            let tx = rest.remove(0);
            proof {
                assert(before[0] == all[done]);
                assert(before.remove(0) =~= all.skip(done + 1));
                assert(view_txs(all.take(done + 1)).drop_last() =~= view_txs(all.take(done)));
                assert(view_txs(all.take(done + 1)).last() == all[done]@);
                assert(drained.take(done + 1) =~= view_txs(all.take(done + 1)));
                assert(drained.take(done) =~= view_txs(all.take(done)));
                assert(drained[done] == all[done]@);
            }
            let mut p = tx.program;
            program.append(&mut p);
            proof {
                assert(program@ =~= concat_programs(drained.take(done + 1)));
                done = done + 1;
            }
        }
        proof {
            assert(drained.take(done) =~= drained);
            assert(program@.len() <= MAX_BLOCK_PROGRAM);
        }
        let block = Block { program, kind: String::from_str(kind) };
        self.consensus.propose_and_commit(block)
    }

    /// Drains and proposes at the current wall-clock time.
    pub fn mine(&mut self, kind: &str, max_txs: usize) -> (r: Result<String, String>)
        requires
            spec_known_lane(kind@),
            old(self).consensus.wf(),
            old(self).consensus.engine.height < u64::MAX,
            max_txs <= MAX_BLOCK_TXS,
            pools_bounded(old(self).mp@, MAX_TX_PROGRAM),
        ensures
            final(self).consensus.wf(),
            final(self).consensus.validators == old(self).consensus.validators,
            exists|now: u64|
                {
                    let drained = #[trigger] spec_get_txs(
                        old(self).mp@,
                        kind@,
                        max_txs as int,
                        now,
                    );
                    let prog = concat_programs(drained.1);
                    final(self).mp@ == drained.0 && match r {
                        Ok(h) => final(self).consensus.engine.height == old(
                            self,
                        ).consensus.engine.height + 1 && h@ == base64_of(payload_bytes(prog))
                            && final(self).consensus.poster.client.sent@.len() == old(
                            self,
                        ).consensus.poster.client.sent@.len() + 1
                            && final(self).consensus.poster.client.sent@.last()@ == h@,
                        Err(e) => e@ == "State roots diverged"@ && final(self).consensus.engine
                            == old(self).consensus.engine && final(self).consensus.poster == old(
                            self,
                        ).consensus.poster,
                    }
                },
            old(self).consensus.hook is None ==> r is Ok,
            r matches Ok(h) ==> h@.len() > 0,
    {
        let now = now_secs();
        self.mine_at(kind, max_txs, now)
    }
}

} // verus!
