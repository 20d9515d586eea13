//! Compiler and interpreter pipeline tests: parsing, compiling, executing,
//! program roots, and the end-to-end demo.
use venue_rollup::asset::{program_root, AssetVM};
use venue_rollup::assetscript::{compile as compile_asset, parse as parse_asset};
use venue_rollup::compiler::{compile_program, parse};
use venue_rollup::asset::{Instruction as AIns, Opcode as AOp};
use venue_rollup::curve::{CurveVM, Instruction, Opcode};
use venue_rollup::demo::run_demo;
use sha2::{Digest, Sha256};

#[test]
fn parse_and_compile() {
    let script = "BUY 5\nSELL 2\nADD_LIQUIDITY 3\nMIGRATE_TO_AMM 1";
    let cmds = parse(script).unwrap();
    let program = compile_program(&cmds).unwrap();
    assert_eq!(program.len(), 4);
    assert_eq!(program[0].opcode, Opcode::Buy);
    assert_eq!(program[1].opcode, Opcode::Sell);
    assert_eq!(program[2].opcode, Opcode::AddLiquidity);
    assert_eq!(program[3].opcode, Opcode::MigrateToAmm);
}

#[test]
fn basic_program() {
    let program = [
        Instruction { opcode: Opcode::Buy, operand: 5 },
        Instruction { opcode: Opcode::Sell, operand: 2 },
        Instruction { opcode: Opcode::AddLiquidity, operand: 3 },
        Instruction { opcode: Opcode::MigrateToAmm, operand: 1 },
    ];
    let mut vm = CurveVM::new();
    vm.execute(&program);
    assert_eq!(vm.balance, 3);
    assert_eq!(vm.liquidity, 3);
    assert!(vm.migrated_to_amm);
    assert_eq!(vm.migrate_value, 1);
}

#[test]
fn parse_compile_execute_pipeline() {
    let script = "MINT 5\nTRANSFER 3\nBURN 1";
    let cmds = parse_asset(script).unwrap();
    let program = compile_asset(&cmds).unwrap();
    let mut vm = AssetVM::new();
    vm.execute(&program);
    assert_eq!(vm.supply, 4);
    assert_eq!(vm.last_transfer, 3);
    let _root = program_root(&program);
}

#[test]
fn basic_execution_and_root() {
    let program = [
        venue_rollup::asset::Instruction { opcode: venue_rollup::asset::Opcode::Mint, amount: 5 },
        venue_rollup::asset::Instruction {
            opcode: venue_rollup::asset::Opcode::Transfer,
            amount: 2,
        },
        venue_rollup::asset::Instruction { opcode: venue_rollup::asset::Opcode::Burn, amount: 1 },
    ];
    let mut vm = AssetVM::new();
    vm.execute(&program);
    assert_eq!(vm.supply, 4);
    assert_eq!(vm.last_transfer, 2);
    let r1 = program_root(&program);
    let r2 = program_root(&program);
    assert_eq!(r1, r2);
}

#[test]
fn parse_asset_script() {
    let cmds = parse_asset("MINT 1\nBURN 1").unwrap();
    assert_eq!(cmds.len(), 2);
}

#[test]
fn compile_asset_program() {
    let cmds = parse_asset("MINT 1").unwrap();
    let prog = compile_asset(&cmds).unwrap();
    assert_eq!(prog.len(), 1);
}

#[test]
fn execute_asset_program() {
    let cmds = parse_asset("MINT 5\nBURN 2").unwrap();
    let prog = compile_asset(&cmds).unwrap();
    let mut vm = AssetVM::new();
    vm.execute(&prog);
    assert_eq!(vm.supply, 3);
}

#[test]
fn parse_curve_script() {
    let cmds = parse("BUY 1\nSELL 1").unwrap();
    assert_eq!(cmds.len(), 2);
}

#[test]
fn compile_curve_program() {
    let cmds = parse("BUY 1").unwrap();
    let prog = compile_program(&cmds).unwrap();
    assert_eq!(prog.len(), 1);
}

#[test]
fn run_demo_returns_supply_and_sig() {
    let (supply, sig) = run_demo().unwrap();
    assert_eq!(supply, 90);
    assert!(!sig.is_empty());
}

#[test]
fn multiple_demo_runs() {
    let (s1, sig1) = run_demo().unwrap();
    let (s2, sig2) = run_demo().unwrap();
    assert_eq!(s1, 90);
    assert_eq!(s2, 90);
    assert!(!sig1.is_empty() && !sig2.is_empty());
    // The demo is driven at a fixed instant, so the handles are identical.
    assert_eq!(sig1, sig2);
}

#[test]
fn asset_pipeline_full_amounts() {
    let cmds = parse_asset("MINT 100\nTRANSFER 50\nBURN 10").unwrap();
    let prog = compile_asset(&cmds).unwrap();
    let mut vm = AssetVM::new();
    vm.execute(&prog);
    assert_eq!(vm.supply, 90);
    assert_eq!(vm.last_transfer, 50);
}

#[test]
fn curve_parser_accepts_lower_case_and_signs() {
    let cmds = parse("buy +5\nsell -2").unwrap();
    assert_eq!(cmds.len(), 2);
    assert_eq!(cmds[0].opcode, "BUY");
    assert_eq!(cmds[0].operand, 5);
    assert_eq!(cmds[1].opcode, "SELL");
    assert_eq!(cmds[1].operand, -2);
}

#[test]
fn curve_parser_rejects_bad_statement() {
    let err = parse("JUMP 5").unwrap_err();
    assert_eq!(err, "Invalid statement: JUMP 5");
    let err = parse("BUY").unwrap_err();
    assert_eq!(err, "Invalid statement: BUY");
    let err = parse("  BUY 5 extra  ").unwrap_err();
    assert_eq!(err, "Invalid statement: BUY 5 extra");
}

#[test]
fn curve_parser_rejects_bad_amount() {
    let err = parse("BUY five").unwrap_err();
    assert_eq!(err, "Invalid amount in: BUY five");
    let err = parse("BUY 99999999999999999999").unwrap_err();
    assert_eq!(err, "Invalid amount in: BUY 99999999999999999999");
}

#[test]
fn asset_parser_rejects_bad_lines() {
    let err = parse_asset("SPEND 5").unwrap_err();
    assert_eq!(err, "Invalid statement: SPEND 5");
    let err = parse_asset("MINT x").unwrap_err();
    assert_eq!(err, "Invalid amount in: MINT x");
}

#[test]
fn compile_rejects_unknown_command() {
    let cmds = vec![venue_rollup::compiler::Command {
        opcode: "HOLD".to_string(),
        operand: 1,
    }];
    let err = compile_program(&cmds).unwrap_err();
    assert_eq!(err, "Unknown command: HOLD");
    let cmds = vec![venue_rollup::assetscript::Command {
        opcode: "HOLD".to_string(),
        amount: 1,
    }];
    let err = compile_asset(&cmds).unwrap_err();
    assert_eq!(err, "Unknown command: HOLD");
}

#[test]
fn blank_lines_and_whitespace_are_skipped() {
    let cmds = parse("\n  \nBUY 1\n\n\tSELL 2\n").unwrap();
    assert_eq!(cmds.len(), 2);
}

#[test]
fn program_roots_differ_on_content() {
    let p = [AIns { opcode: AOp::Mint, amount: 5 }];
    let q = [AIns { opcode: AOp::Burn, amount: 5 }];
    let r = [AIns { opcode: AOp::Mint, amount: 6 }];
    assert_eq!(program_root(&p), program_root(&p));
    assert_ne!(program_root(&p), program_root(&q));
    assert_ne!(program_root(&p), program_root(&r));
    assert_ne!(program_root(&p), program_root(&[]));
}

#[test]
fn program_root_matches_reference_digest() {
    let p = [AIns { opcode: AOp::Mint, amount: 5 }, AIns { opcode: AOp::Burn, amount: 2 }];
    let mut hasher = Sha256::new();
    for ins in &p {
        let op: u8 = match ins.opcode {
            AOp::Mint => 0,
            AOp::Transfer => 1,
            AOp::Burn => 2,
        };
        hasher.update(&[op]);
        hasher.update(ins.amount.to_le_bytes());
    }
    let expected: Vec<u8> = hasher.finalize().to_vec();
    assert_eq!(program_root(&p), expected);
}
