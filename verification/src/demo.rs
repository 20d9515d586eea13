//! End-to-end demonstration: runs the asset pipeline on a fixed script and
//! mines one curve transaction through the consensus and anchoring path.
//! The whole run is driven at one fixed instant, so its outcome is the
//! same on every call, whatever the wall clock says.
use vstd::prelude::*;
use vstd::string::StringExecFns;

use crate::anchor::{base64_of, payload_bytes, BatchPoster, FakeSolanaClient};
use crate::asset::{asset_run, AssetVM};
use crate::assetscript;
use crate::assetscript::{spec_compile_asset, spec_parse_asset};
use crate::compiler;
use crate::compiler::{spec_compile_curve, spec_parse_curve};
use crate::consensus::{concat_programs, Consensus, DefaultStateRoot, Miner};
use crate::mempool::{
    admits, lemma_add_tx_bounded, spec_get_txs, spec_prune_lane, Mempool, Tx, TxV,
    MAX_TX_PROGRAM,
};

verus! {

/// Compiles and executes a fixed asset script, then parses a fixed curve
/// script, admits it as one transaction, and mines one block under three
/// validators. Succeeds whenever the fixed scripts parse and compile; the
/// returned supply is the interpretation of the asset script, and the
/// handle is exactly the base64 batch payload of the compiled curve
/// program — so two runs return identical values.
pub fn run_demo() -> (r: Result<(i64, String), String>)
    ensures
        ({
            &&& spec_parse_asset("MINT 100\nTRANSFER 50\nBURN 10"@) matches Ok(acmds)
            &&& spec_compile_asset(acmds) is Ok
            &&& spec_parse_curve("BUY 5\nSELL 2\nADD_LIQUIDITY 3\nMIGRATE_TO_AMM 1"@)
                matches Ok(ccmds)
            &&& spec_compile_curve(ccmds) is Ok
        }) ==> r is Ok,
        r matches Ok(v) ==> spec_parse_asset("MINT 100\nTRANSFER 50\nBURN 10"@) matches Ok(acmds)
            && spec_compile_asset(acmds) matches Ok(aprog) && v.0 == asset_run(
            AssetVM { supply: 0, last_transfer: 0 },
            aprog,
        ).supply,
        r matches Ok(v) ==> spec_parse_curve("BUY 5\nSELL 2\nADD_LIQUIDITY 3\nMIGRATE_TO_AMM 1"@)
            matches Ok(ccmds) && spec_compile_curve(ccmds) matches Ok(cprog) && v.1@ == base64_of(
            payload_bytes(cprog),
        ) && v.1@.len() > 0,
{
    let asset_script = "MINT 100\nTRANSFER 50\nBURN 10";
    let asset_cmds = match assetscript::parse(asset_script) {
        Ok(c) => c,
        Err(e) => {
            return Err(e);
        },
    };
    let asset_prog = match assetscript::compile(asset_cmds.as_slice()) {
        Ok(p) => p,
        Err(e) => {
            return Err(e);
        },
    };
    let mut asset_vm = AssetVM::new();
    asset_vm.execute(asset_prog.as_slice());

    let curve_script = "BUY 5\nSELL 2\nADD_LIQUIDITY 3\nMIGRATE_TO_AMM 1";
    let curve_cmds = match compiler::parse(curve_script) {
        Ok(c) => c,
        Err(e) => {
            return Err(e);
        },
    };
    let curve_prog = match compiler::compile_program(curve_cmds.as_slice()) {
        Ok(p) => p,
        Err(e) => {
            return Err(e);
        },
    };
    proof {
        reveal_strlit("BUY 5\nSELL 2\nADD_LIQUIDITY 3\nMIGRATE_TO_AMM 1");
    }

    let poster = BatchPoster::new(FakeSolanaClient::new());
    let mut validators: Vec<String> = Vec::new();
    validators.push(String::from_str("A"));
    validators.push(String::from_str("B"));
    validators.push(String::from_str("C"));
    let consensus = match Consensus::<DefaultStateRoot>::new(validators, poster) {
        Ok(c) => c,
        Err(e) => {
            return Err(e);
        },
    };
    let mut mempool = Mempool::new();
    let ghost empty_mp = mempool@;
    let mut tx = Tx::new(
        String::from_str("Alice"),
        0,
        curve_prog,
        String::from_str("fast"),
    );
    tx.timestamp = 0;
    let ghost txv = tx@;
    let _ = mempool.add_tx_at(tx, 0);
    proof {
        lemma_add_tx_bounded(empty_mp, txv, 0, MAX_TX_PROGRAM);
        assert(admits(crate::mempool::lane_of(
            crate::mempool::spec_prune_pools(empty_mp, 0),
            txv.kind,
        ), txv.sender, txv.nonce));
        assert(mempool@.fast =~= seq![txv]);
        assert(mempool@.big =~= Seq::<TxV>::empty());
    }
    let mut miner = Miner::new(mempool, consensus);
    let ghost m1 = miner.mp@;
    proof {
        reveal_with_fuel(Seq::filter, 3);
        reveal_with_fuel(concat_programs, 3);
        assert(seq![txv].drop_last() =~= Seq::<TxV>::empty());
        assert(spec_prune_lane(seq![txv], 0) =~= seq![txv]);
        let pair = spec_get_txs(m1, "fast"@, 1, 0);
        assert(pair.1 =~= seq![txv]);
        assert(seq![txv].last() == txv);
        assert(concat_programs(seq![txv]) =~= txv.program);
        assert(concat_programs(pair.1) == concat_programs(seq![txv]));
    }
    match miner.mine_at("fast", 1, 0) {
        Ok(sig) => Ok((asset_vm.supply, sig)),
        Err(e) => Err(e),
    }
}

} // verus!
