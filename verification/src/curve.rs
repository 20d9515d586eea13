//! Bonding-curve instruction set and its deterministic interpreter.
//!
//! The interpreter is a pure state transducer: each instruction updates the
//! state according to its opcode, with two's-complement wrapping arithmetic.
use vstd::prelude::*;

verus! {

/// Opcodes of the bonding-curve instruction set.
#[derive(Clone, Copy, Debug, PartialEq, Eq, Structural)]
pub enum Opcode {
    Buy,
    Sell,
    AddLiquidity,
    MigrateToAmm,
}

/// One curve instruction: an opcode with a signed 64-bit operand.
#[derive(Clone, Copy, Debug, PartialEq, Eq, Structural)]
pub struct Instruction {
    pub opcode: Opcode,
    pub operand: i64,
}

/// Interpreter state for the curve instruction set.
pub struct CurveVM {
    pub balance: i64,
    pub liquidity: i64,
    pub migrated_to_amm: bool,
    pub migrate_value: i64,
}

/// The state reached from `s` by one instruction.
pub open spec fn curve_step(s: CurveVM, ins: Instruction) -> CurveVM {
    match ins.opcode {
        Opcode::Buy => CurveVM {
            balance: vstd::wrapping::i64_specs::wrapping_add(s.balance, ins.operand),
            ..s
        },
        Opcode::Sell => CurveVM {
            balance: vstd::wrapping::i64_specs::wrapping_sub(s.balance, ins.operand),
            ..s
        },
        Opcode::AddLiquidity => CurveVM {
            liquidity: vstd::wrapping::i64_specs::wrapping_add(s.liquidity, ins.operand),
            ..s
        },
        Opcode::MigrateToAmm => CurveVM { migrated_to_amm: true, migrate_value: ins.operand, ..s },
    }
}

/// The state reached from `s` by running a whole program, first instruction first.
pub open spec fn curve_run(s: CurveVM, prog: Seq<Instruction>) -> CurveVM
    decreases prog.len(),
{
    if prog.len() == 0 {
        s
    } else {
        curve_run(curve_step(s, prog[0]), prog.drop_first())
    }
}

/// Running one more instruction after a prefix steps the state of the prefix.
pub proof fn lemma_curve_run_push(s: CurveVM, prog: Seq<Instruction>, ins: Instruction)
    ensures
        curve_run(s, prog.push(ins)) == curve_step(curve_run(s, prog), ins),
    decreases prog.len(),
{
    reveal_with_fuel(curve_run, 3);
    if prog.len() == 0 {
        assert(prog.push(ins)[0] == ins);
        assert(prog.push(ins).drop_first() =~= Seq::<Instruction>::empty());
    } else {
        assert(prog.push(ins)[0] == prog[0]);
        assert(prog.push(ins).drop_first() =~= prog.drop_first().push(ins));
        lemma_curve_run_push(curve_step(s, prog[0]), prog.drop_first(), ins);
    }
}

impl CurveVM {
    /// A fresh interpreter: everything zero, not migrated.
    pub fn new() -> (vm: CurveVM)
        ensures
            vm == (CurveVM { balance: 0, liquidity: 0, migrated_to_amm: false, migrate_value: 0 }),
    {
        CurveVM { balance: 0, liquidity: 0, migrated_to_amm: false, migrate_value: 0 }
    }

    /// Runs `program` over the current state, instruction by instruction.
    pub fn execute(&mut self, program: &[Instruction])
        ensures
            *final(self) == curve_run(*old(self), program@),
    {
        let n: usize = program.len();
        let mut i: usize = 0;
        while i < n
            invariant
                n == program@.len(),
                i <= n,
                *self == curve_run(*old(self), program@.take(i as int)),
            decreases n - i,
        {
            let ins = program[i];
            proof {
                lemma_curve_run_push(*old(self), program@.take(i as int), ins);
                assert(program@.take(i as int).push(ins) =~= program@.take(i + 1));
            }
            match ins.opcode {
                Opcode::Buy => {
                    self.balance = self.balance.wrapping_add(ins.operand);
                },
                Opcode::Sell => {
                    self.balance = self.balance.wrapping_sub(ins.operand);
                },
                Opcode::AddLiquidity => {
                    self.liquidity = self.liquidity.wrapping_add(ins.operand);
                },
                Opcode::MigrateToAmm => {
                    self.migrated_to_amm = true;
                    self.migrate_value = ins.operand;
                },
            }
            i = i + 1;
        }
        proof {
            assert(program@.take(n as int) =~= program@);
        }
    }
}

} // verus!
