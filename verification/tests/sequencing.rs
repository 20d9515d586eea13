//! Sequencer tests: mempool admission, pruning and draining, the leader
//! schedule, consensus commits and divergence, and the anchoring payload.
use base64::engine::general_purpose;
use base64::Engine as _;
use sha2::{Digest, Sha256};

use venue_rollup::anchor::{serialize_program, BatchPoster, FakePoster, FakeSolanaClient};
use venue_rollup::consensus::{Block, Consensus, DefaultStateRoot, Miner, StateRoot};
use venue_rollup::curve::{Instruction, Opcode};
use venue_rollup::hotshot::HotShotConsensus;
use venue_rollup::mempool::{Mempool, Tx};
use venue_rollup::schedule::RoundRobin;

#[test]
fn commits_blocks() {
    let mut hs = HotShotConsensus::new();
    let block = vec![Instruction { opcode: Opcode::Buy, operand: 1 }];
    let h1 = hs.commit_block(&block);
    let h2 = hs.commit_block(&block);
    assert_eq!(h1, 1);
    assert_eq!(h2, 2);
}

#[test]
fn mempool_nonce_and_prune() {
    let mut mp = Mempool::new();
    let program = vec![Instruction { opcode: Opcode::Buy, operand: 1 }];
    let mut old = Tx::new("A".into(), 0, program.clone(), "fast".into());
    old.timestamp = old.timestamp.saturating_sub(90_000);
    let _ = mp.add_tx(old);
    for n in 1..8 {
        let _ = mp.add_tx(Tx::new("A".into(), n, program.clone(), "fast".into()));
    }
    let _ = mp.add_tx(Tx::new("A".into(), 8, program.clone(), "fast".into()));
    assert_eq!(mp.fast_pool.len(), 8);
}

#[test]
fn mempool_adds_tx() {
    let mut mp = Mempool::new();
    let _ = mp.add_tx(Tx::new("A".into(), 0, Vec::new(), "fast".into()));
    let txs = mp.get_txs("fast", 1);
    assert_eq!(txs.len(), 1);
}

#[test]
fn nonce_window_rejects_ninth_distinct_nonce() {
    let now: u64 = 1_000_000;
    let mut mp = Mempool::new();
    for n in 0..8 {
        let mut tx = Tx::new("A".into(), n, Vec::new(), "fast".into());
        tx.timestamp = now;
        assert!(mp.add_tx_at(tx, now).is_ok());
    }
    let mut ninth = Tx::new("A".into(), 8, Vec::new(), "fast".into());
    ninth.timestamp = now;
    let err = mp.add_tx_at(ninth, now).unwrap_err();
    assert_eq!(err, "Nonce window exceeded");
    assert_eq!(mp.fast_pool.len(), 8);
    // A duplicate nonce is not a new window entry and stays admissible.
    let mut dup = Tx::new("A".into(), 0, Vec::new(), "fast".into());
    dup.timestamp = now;
    assert!(mp.add_tx_at(dup, now).is_ok());
    assert_eq!(mp.fast_pool.len(), 9);
    // Another sender has its own window.
    let mut other = Tx::new("B".into(), 8, Vec::new(), "fast".into());
    other.timestamp = now;
    assert!(mp.add_tx_at(other, now).is_ok());
}

#[test]
fn pruning_evicts_old_transactions() {
    let now: u64 = 1_000_000;
    let mut mp = Mempool::new();
    let mut stale = Tx::new("A".into(), 0, Vec::new(), "fast".into());
    stale.timestamp = now - 90_000;
    let _ = mp.add_tx_at(stale, now - 89_000);
    assert_eq!(mp.fast_pool.len(), 1);
    let mut fresh = Tx::new("A".into(), 1, Vec::new(), "fast".into());
    fresh.timestamp = now;
    let _ = mp.add_tx_at(fresh, now);
    assert_eq!(mp.fast_pool.len(), 1);
    assert_eq!(mp.fast_pool[0].nonce, 1);
    let drained = mp.get_txs_at("fast", 10, now + 90_000);
    assert_eq!(drained.len(), 0);
}

#[test]
fn lanes_are_fifo_and_independent() {
    let now: u64 = 1_000_000;
    let mut mp = Mempool::new();
    for n in 0..3 {
        let mut tx = Tx::new("A".into(), n, Vec::new(), "fast".into());
        tx.timestamp = now;
        let _ = mp.add_tx_at(tx, now);
        let mut tx = Tx::new("A".into(), n, Vec::new(), "big".into());
        tx.timestamp = now;
        let _ = mp.add_tx_at(tx, now);
    }
    let drained = mp.get_txs_at("fast", 2, now);
    assert_eq!(drained.len(), 2);
    assert_eq!(drained[0].nonce, 0);
    assert_eq!(drained[1].nonce, 1);
    assert_eq!(mp.fast_pool.len(), 1);
    assert_eq!(mp.big_pool.len(), 3);
}

#[test]
fn round_robin_schedule() {
    let mut rr = RoundRobin::new(vec!["A".to_string(), "B".to_string(), "C".to_string()]).unwrap();
    let vals: Vec<_> = (0..5).map(|_| rr.next().unwrap()).collect();
    assert_eq!(vals, ["A", "B", "C", "A", "B"]);
}

#[test]
fn round_robin_rejects_empty_list() {
    match RoundRobin::<String>::new(Vec::new()) {
        Err(e) => assert_eq!(e, "No validators provided"),
        Ok(_) => panic!("empty validator list must be rejected"),
    }
}

#[test]
fn miner_mines_block() {
    let mut mp = Mempool::new();
    let program = vec![Instruction { opcode: Opcode::Buy, operand: 1 }];
    let _ = mp.add_tx(Tx::new("A".into(), 0, program.clone(), "fast".into()));
    let poster = BatchPoster::new(FakeSolanaClient::new());
    let consensus = Consensus::<DefaultStateRoot>::new(vec!["A".into()], poster).unwrap();
    let mut miner = Miner::new(mp, consensus);
    let sig = miner.mine("fast", 1).unwrap();
    assert_eq!(sig, *miner.consensus.poster.client.sent.last().unwrap());
}

#[test]
fn miner_produces_sig() {
    let mut mp = Mempool::new();
    let _ = mp.add_tx(Tx::new("A".into(), 0, Vec::new(), "fast".into()));
    let poster = BatchPoster::new(FakeSolanaClient::new());
    let consensus = Consensus::<DefaultStateRoot>::new(vec!["A".into()], poster).unwrap();
    let mut miner = Miner::new(mp, consensus);
    let sig = miner.mine("fast", 1).unwrap();
    assert!(!sig.is_empty());
}

#[test]
fn consensus_commit() {
    let program = vec![Instruction { opcode: Opcode::Buy, operand: 1 }];
    let poster = BatchPoster::new(FakeSolanaClient::new());
    let mut consensus =
        Consensus::<DefaultStateRoot>::new(vec!["A".into(), "B".into(), "C".into()], poster)
            .unwrap();
    let block = Block { program: program.clone(), kind: "fast".into() };
    let tx = consensus.propose_and_commit(block).unwrap();
    let sent = consensus.poster.client.sent.last().unwrap();
    assert_eq!(tx, *sent);
    assert_eq!(consensus.engine.height, 1);
    let data = general_purpose::STANDARD.decode(tx).unwrap();
    let v: serde_json::Value = serde_json::from_slice(&data).unwrap();
    let instr_list = v.get("program").unwrap();
    let encoded = serde_json::to_string(instr_list).unwrap();
    let mut hasher = Sha256::new();
    hasher.update(encoded.as_bytes());
    let expected_root = format!("{:x}", hasher.finalize());
    assert_eq!(v.get("root").unwrap().as_str().unwrap(), expected_root);
}

#[test]
fn consensus_no_validators() {
    let poster = BatchPoster::new(FakeSolanaClient::new());
    let res = Consensus::<DefaultStateRoot>::new(vec![], poster);
    assert!(res.is_err());
}

#[test]
fn consensus_height_increments() {
    let poster = BatchPoster::new(FakeSolanaClient::new());
    let mut consensus = Consensus::<DefaultStateRoot>::new(vec!["A".into()], poster).unwrap();
    let block = Block { program: Vec::new(), kind: "fast".into() };
    let sig1 = consensus.propose_and_commit(block).unwrap();
    let block = Block { program: Vec::new(), kind: "fast".into() };
    let sig2 = consensus.propose_and_commit(block).unwrap();
    assert!(!sig1.is_empty() && !sig2.is_empty());
    assert_eq!(consensus.engine.height, 2);
}

struct FlipFlop {
    calls: u32,
}

impl StateRoot for FlipFlop {
    fn root(&mut self, _program: &[Instruction]) -> String {
        let c = self.calls;
        self.calls = c + 1;
        if c == 0 {
            "a".into()
        } else {
            "b".into()
        }
    }
}

#[test]
fn state_root_divergence() {
    let program = vec![Instruction { opcode: Opcode::Buy, operand: 1 }];
    let poster = BatchPoster::new(FakeSolanaClient::new());
    let mut consensus =
        Consensus::<FlipFlop>::new(vec!["A".into(), "B".into()], poster).unwrap();
    consensus.set_state_root_hook(FlipFlop { calls: 0 });
    let block = Block { program, kind: "fast".into() };
    let res = consensus.propose_and_commit(block);
    assert!(res.is_err());
    assert_eq!(consensus.engine.height, 0);
    assert!(consensus.poster.client.sent.is_empty());
}

#[test]
fn payload_has_expected_root() {
    let program = vec![Instruction { opcode: Opcode::Buy, operand: 1 }];
    let p = serialize_program(&program);
    let expected = serialize_program(&program);
    assert_eq!(p, expected);
    let mut hasher = Sha256::new();
    hasher.update(&[0u8]);
    hasher.update(1i64.to_le_bytes());
    assert_eq!(p.root, hasher.finalize().to_vec());
}

#[test]
fn fake_poster_returns_fixed_handle() {
    let poster = FakePoster;
    assert_eq!(poster.commit(&[]), "sig");
}

#[test]
fn anchoring_payload_is_canonical_json() {
    let program = vec![
        Instruction { opcode: Opcode::Buy, operand: 5 },
        Instruction { opcode: Opcode::MigrateToAmm, operand: -1 },
    ];
    let mut poster = BatchPoster::new(FakeSolanaClient::new());
    let handle = poster.commit(&program);
    let data = general_purpose::STANDARD.decode(&handle).unwrap();
    let text = String::from_utf8(data).unwrap();
    let expected_list = "[{\"arg\":5,\"op\":\"BUY\"},{\"arg\":-1,\"op\":\"MIGRATE_TO_AMM\"}]";
    let mut hasher = Sha256::new();
    hasher.update(expected_list.as_bytes());
    let root = format!("{:x}", hasher.finalize());
    let expected = format!("{{\"program\":{},\"root\":\"{}\"}}", expected_list, root);
    assert_eq!(text, expected);
}
