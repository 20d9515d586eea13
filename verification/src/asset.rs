//! Asset/ledger instruction set, its deterministic interpreter, and the
//! content-addressed program root.
use vstd::prelude::*;

use crate::digest::{sha256, sha256_of, MAX_HASH_INPUT};

verus! {

/// Opcodes of the asset/ledger instruction set.
#[derive(Clone, Copy, Debug, PartialEq, Eq, Structural)]
pub enum Opcode {
    Mint,
    Transfer,
    Burn,
}

/// One asset instruction: an opcode with a signed 64-bit amount.
#[derive(Clone, Copy, Debug, PartialEq, Eq, Structural)]
pub struct Instruction {
    pub opcode: Opcode,
    pub amount: i64,
}

/// Interpreter state for the asset instruction set.
pub struct AssetVM {
    pub supply: i64,
    pub last_transfer: i64,
}

/// The state reached from `s` by one instruction.
pub open spec fn asset_step(s: AssetVM, ins: Instruction) -> AssetVM {
    match ins.opcode {
        Opcode::Mint => AssetVM {
            supply: vstd::wrapping::i64_specs::wrapping_add(s.supply, ins.amount),
            ..s
        },
        Opcode::Transfer => AssetVM { last_transfer: ins.amount, ..s },
        Opcode::Burn => AssetVM {
            supply: vstd::wrapping::i64_specs::wrapping_sub(s.supply, ins.amount),
            ..s
        },
    }
}

/// The state reached from `s` by running a whole program, first instruction first.
pub open spec fn asset_run(s: AssetVM, prog: Seq<Instruction>) -> AssetVM
    decreases prog.len(),
{
    if prog.len() == 0 {
        s
    } else {
        asset_run(asset_step(s, prog[0]), prog.drop_first())
    }
}

/// Running one more instruction after a prefix steps the state of the prefix.
pub proof fn lemma_asset_run_push(s: AssetVM, prog: Seq<Instruction>, ins: Instruction)
    ensures
        asset_run(s, prog.push(ins)) == asset_step(asset_run(s, prog), ins),
    decreases prog.len(),
{
    reveal_with_fuel(asset_run, 3);
    if prog.len() == 0 {
        assert(prog.push(ins)[0] == ins);
        assert(prog.push(ins).drop_first() =~= Seq::<Instruction>::empty());
    } else {
        assert(prog.push(ins)[0] == prog[0]);
        assert(prog.push(ins).drop_first() =~= prog.drop_first().push(ins));
        lemma_asset_run_push(asset_step(s, prog[0]), prog.drop_first(), ins);
    }
}

impl AssetVM {
    /// A fresh interpreter with zero supply.
    pub fn new() -> (vm: AssetVM)
        ensures
            vm == (AssetVM { supply: 0, last_transfer: 0 }),
    {
        AssetVM { supply: 0, last_transfer: 0 }
    }

    /// Runs `program` over the current state, instruction by instruction.
    pub fn execute(&mut self, program: &[Instruction])
        ensures
            *final(self) == asset_run(*old(self), program@),
    {
        let n: usize = program.len();
        let mut i: usize = 0;
        while i < n
            invariant
                n == program@.len(),
                i <= n,
                *self == asset_run(*old(self), program@.take(i as int)),
            decreases n - i,
        {
            let ins = program[i];
            proof {
                lemma_asset_run_push(*old(self), program@.take(i as int), ins);
                assert(program@.take(i as int).push(ins) =~= program@.take(i + 1));
            }
            match ins.opcode {
                Opcode::Mint => {
                    self.supply = self.supply.wrapping_add(ins.amount);
                },
                Opcode::Transfer => {
                    self.last_transfer = ins.amount;
                },
                Opcode::Burn => {
                    self.supply = self.supply.wrapping_sub(ins.amount);
                },
            }
            i = i + 1;
        }
        proof {
            assert(program@.take(n as int) =~= program@);
        }
    }
}

/// The wire byte of an asset opcode.
pub open spec fn opcode_byte(op: Opcode) -> u8 {
    match op {
        Opcode::Mint => 0,
        Opcode::Transfer => 1,
        Opcode::Burn => 2,
    }
}

/// The two's-complement 64-bit pattern of a signed amount.
pub open spec fn u64_of_i64(x: i64) -> u64 {
    if x >= 0 {
        x as u64
    } else {
        (x + 0x1_0000_0000_0000_0000) as u64
    }
}

/// The eight little-endian bytes of a 64-bit pattern.
pub open spec fn u64_le_bytes(v: u64) -> Seq<u8> {
    seq![
        (v as int % 0x100) as u8,
        (v as int / 0x100 % 0x100) as u8,
        (v as int / 0x1_0000 % 0x100) as u8,
        (v as int / 0x100_0000 % 0x100) as u8,
        (v as int / 0x1_0000_0000 % 0x100) as u8,
        (v as int / 0x100_0000_0000 % 0x100) as u8,
        (v as int / 0x1_0000_0000_0000 % 0x100) as u8,
        (v as int / 0x100_0000_0000_0000 % 0x100) as u8,
    ]
}

/// The wire encoding of one instruction: its opcode byte, then the amount in
/// little-endian order. Nine bytes; distinct instructions encode distinctly.
pub open spec fn instr_bytes(ins: Instruction) -> Seq<u8> {
    seq![opcode_byte(ins.opcode)] + u64_le_bytes(u64_of_i64(ins.amount))
}

/// The wire encoding of a program: the encodings of its instructions in
/// program order.
pub open spec fn program_bytes(prog: Seq<Instruction>) -> Seq<u8>
    decreases prog.len(),
{
    if prog.len() == 0 {
        Seq::empty()
    } else {
        program_bytes(prog.drop_last()) + instr_bytes(prog.last())
    }
}

/// The encoding of a program is nine bytes per instruction.
pub proof fn lemma_program_bytes_len(prog: Seq<Instruction>)
    ensures
        program_bytes(prog).len() == 9 * prog.len(),
    decreases prog.len(),
{
    if prog.len() > 0 {
        lemma_program_bytes_len(prog.drop_last());
    }
}

/// The little-endian bytes determine the 64-bit pattern.
pub(crate) proof fn lemma_u64_le_bytes_inj(a: u64, b: u64)
    requires
        u64_le_bytes(a) == u64_le_bytes(b),
    ensures
        a == b,
{
    let x = u64_le_bytes(a);
    let y = u64_le_bytes(b);
    assert(x[0] == y[0] && x[1] == y[1] && x[2] == y[2] && x[3] == y[3] && x[4] == y[4] && x[5]
        == y[5] && x[6] == y[6] && x[7] == y[7]);
    assert((a % 0x100 == b % 0x100 && a / 0x100 % 0x100 == b / 0x100 % 0x100 && a / 0x1_0000
        % 0x100 == b / 0x1_0000 % 0x100 && a / 0x100_0000 % 0x100 == b / 0x100_0000 % 0x100 && a
        / 0x1_0000_0000 % 0x100 == b / 0x1_0000_0000 % 0x100 && a / 0x100_0000_0000 % 0x100 == b
        / 0x100_0000_0000 % 0x100 && a / 0x1_0000_0000_0000 % 0x100 == b / 0x1_0000_0000_0000
        % 0x100 && a / 0x100_0000_0000_0000 % 0x100 == b / 0x100_0000_0000_0000 % 0x100) ==> a
        == b) by (bit_vector);
}

/// The 64-bit pattern determines the signed amount.
pub(crate) proof fn lemma_u64_of_i64_inj(x: i64, y: i64)
    requires
        u64_of_i64(x) == u64_of_i64(y),
    ensures
        x == y,
{
}

/// The nine wire bytes determine the instruction.
proof fn lemma_instr_bytes_inj(a: Instruction, b: Instruction)
    requires
        instr_bytes(a) == instr_bytes(b),
    ensures
        a == b,
{
    let x = instr_bytes(a);
    let y = instr_bytes(b);
    assert(x[0] == opcode_byte(a.opcode) && y[0] == opcode_byte(b.opcode));
    assert(a.opcode == b.opcode);
    assert(u64_le_bytes(u64_of_i64(a.amount)) =~= x.subrange(1, 9));
    assert(u64_le_bytes(u64_of_i64(b.amount)) =~= y.subrange(1, 9));
    lemma_u64_le_bytes_inj(u64_of_i64(a.amount), u64_of_i64(b.amount));
    lemma_u64_of_i64_inj(a.amount, b.amount);
}

/// The wire encoding is unambiguous: distinct programs encode to distinct
/// byte strings, so under the content-addressed root two programs can
/// collide only through a SHA-256 collision itself.
pub proof fn lemma_program_bytes_injective(p: Seq<Instruction>, q: Seq<Instruction>)
    requires
        p != q,
    ensures
        program_bytes(p) != program_bytes(q),
    decreases p.len(),
{
    lemma_program_bytes_len(p);
    lemma_program_bytes_len(q);
    if p.len() != q.len() {
        // The encodings differ in length already.
    } else if program_bytes(p) == program_bytes(q) {
        if p.len() == 0 {
            assert(p =~= q);
        } else {
            let pb = program_bytes(p.drop_last());
            let qb = program_bytes(q.drop_last());
            lemma_program_bytes_len(p.drop_last());
            lemma_program_bytes_len(q.drop_last());
            assert(pb =~= program_bytes(p).subrange(0, 9 * (p.len() - 1)));
            assert(qb =~= program_bytes(q).subrange(0, 9 * (q.len() - 1)));
            assert(instr_bytes(p.last()) =~= program_bytes(p).subrange(
                9 * (p.len() - 1),
                9 * p.len() as int,
            ));
            assert(instr_bytes(q.last()) =~= program_bytes(q).subrange(
                9 * (q.len() - 1),
                9 * q.len() as int,
            ));
            lemma_instr_bytes_inj(p.last(), q.last());
            if p.drop_last() == q.drop_last() {
                assert forall|i: int| 0 <= i < p.len() implies p[i] == q[i] by {
                    if i < p.len() - 1 {
                        assert(p.drop_last()[i] == p[i]);
                        assert(q.drop_last()[i] == q[i]);
                    }
                }
                assert(p =~= q);
            } else {
                lemma_program_bytes_injective(p.drop_last(), q.drop_last());
            }
        }
    }
}

/// The content-addressed root is deterministic: two roots of one program
/// are identical, across runs and platforms.
pub proof fn lemma_program_root_deterministic(r1: Seq<u8>, r2: Seq<u8>, p: Seq<Instruction>)
    requires
        r1 == sha256_of(program_bytes(p)),
        r2 == sha256_of(program_bytes(p)),
    ensures
        r1 == r2,
{
}

/// Appends the little-endian bytes of `v` to `out`.
pub(crate) fn push_le_bytes(out: &mut Vec<u8>, v: u64)
    ensures
        final(out)@ == old(out)@ + u64_le_bytes(v),
{
    out.push((v % 0x100) as u8);
    out.push((v / 0x100 % 0x100) as u8);
    out.push((v / 0x1_0000 % 0x100) as u8);
    out.push((v / 0x100_0000 % 0x100) as u8);
    out.push((v / 0x1_0000_0000 % 0x100) as u8);
    out.push((v / 0x100_0000_0000 % 0x100) as u8);
    out.push((v / 0x1_0000_0000_0000 % 0x100) as u8);
    out.push((v / 0x100_0000_0000_0000 % 0x100) as u8);
    proof {
        assert(out@ =~= old(out)@ + u64_le_bytes(v));
    }
}

/// Builds the wire encoding of `program`.
pub fn encode_program(program: &[Instruction]) -> (r: Vec<u8>)
    ensures
        r@ == program_bytes(program@),
        r@.len() == 9 * program@.len(),
{
    let n: usize = program.len();
    let mut out: Vec<u8> = Vec::new();
    let mut i: usize = 0;
    while i < n
        invariant
            n == program@.len(),
            i <= n,
            out@ == program_bytes(program@.take(i as int)),
            out@.len() == 9 * i,
        decreases n - i,
    {
        let ins = program[i];
        let op: u8 = match ins.opcode {
            Opcode::Mint => 0,
            Opcode::Transfer => 1,
            Opcode::Burn => 2,
        };
        out.push(op);
        let v: u64 = if ins.amount >= 0 {
            ins.amount as u64
        } else {
            ((ins.amount as i128) + 0x1_0000_0000_0000_0000i128) as u64
        };
        assert(v == u64_of_i64(ins.amount));
        push_le_bytes(&mut out, v);
        proof {
            assert(program@.take(i + 1).drop_last() =~= program@.take(i as int));
            assert(program@.take(i + 1).last() == ins);
            assert(out@ =~= program_bytes(program@.take(i + 1)));
        }
        i = i + 1;
    }
    proof {
        assert(program@.take(n as int) =~= program@);
    }
    out
}

/// The 32-byte content-addressed root of a program: the SHA-256 digest of its
/// wire encoding. Equal programs have equal roots.
pub fn program_root(program: &[Instruction]) -> (r: Vec<u8>)
    requires
        program@.len() < 0x100_0000_0000_0000,
    ensures
        r@ == sha256_of(program_bytes(program@)),
        r@.len() == 32,
{
    let encoded = encode_program(program);
    assert(encoded@.len() <= MAX_HASH_INPUT);
    sha256(encoded.as_slice())
}

} // verus!
