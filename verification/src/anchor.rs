//! Anchoring pipeline: the canonical JSON batch payload, its content root,
//! and the in-memory anchoring client whose transcript records every
//! submission in order.
use vstd::prelude::*;
use vstd::string::StringExecFns;

use base64::engine::general_purpose;
use base64::Engine as _;

use crate::curve::{Instruction, Opcode};
use crate::digest::{hex_bytes, hex_of, lemma_hex_of_ascii, sha256, sha256_of};
use crate::text::{dec_int, i64_dec, lemma_dec_digits_len, lit_bytes, push_ascii};

verus! {

/// Longest program a batch payload may carry; keeps the payload bytes well
/// under the hashing and encoding limits of the machine.
pub const MAX_BLOCK_PROGRAM: u64 = 0x1000_0000_0000;

/// The string that base64 standard encoding (with padding) returns on a
/// byte string. The encoding is a pure function of the input bytes.
pub uninterp spec fn base64_of(bytes: Seq<u8>) -> Seq<char>;

/// Relies on base64's `STANDARD` engine: padded encoding over the standard
/// alphabet, four characters for every started group of three bytes.
#[verifier::external_body]
fn b64_encode(bytes: &[u8]) -> (r: String)
    requires
        bytes@.len() < 0x4000_0000_0000_0000,
    ensures
        r@ == base64_of(bytes@),
        r@.len() == 4 * ((bytes@.len() + 2) / 3),
{
    general_purpose::STANDARD.encode(bytes)
}

/// The upper-case mnemonic of a curve opcode.
pub open spec fn mnemonic_chars(op: Opcode) -> Seq<char> {
    match op {
        Opcode::Buy => "BUY"@,
        Opcode::Sell => "SELL"@,
        Opcode::AddLiquidity => "ADD_LIQUIDITY"@,
        Opcode::MigrateToAmm => "MIGRATE_TO_AMM"@,
    }
}

/// One instruction as a JSON object, keys in lexicographic order:
/// `{"arg":<operand>,"op":"<MNEMONIC>"}`.
pub open spec fn instr_json(ins: Instruction) -> Seq<u8> {
    lit_bytes("{\"arg\":"@) + dec_int(ins.operand as int) + lit_bytes(",\"op\":\""@) + lit_bytes(
        mnemonic_chars(ins.opcode),
    ) + lit_bytes("\"}"@)
}

/// The comma-separated instruction objects of a program, in order.
pub open spec fn list_items(prog: Seq<Instruction>) -> Seq<u8>
    decreases prog.len(),
{
    if prog.len() == 0 {
        Seq::empty()
    } else if prog.len() == 1 {
        instr_json(prog[0])
    } else {
        list_items(prog.drop_last()) + lit_bytes(","@) + instr_json(prog.last())
    }
}

/// A program as a JSON array of instruction objects, in program order.
pub open spec fn list_json(prog: Seq<Instruction>) -> Seq<u8> {
    lit_bytes("["@) + list_items(prog) + lit_bytes("]"@)
}

/// The batch payload: the program array and the lowercase hex SHA-256 of
/// that array's own bytes, keys in lexicographic order.
pub open spec fn payload_bytes(prog: Seq<Instruction>) -> Seq<u8> {
    lit_bytes("{\"program\":"@) + list_json(prog) + lit_bytes(",\"root\":\""@) + hex_of(
        sha256_of(list_json(prog)),
    ) + lit_bytes("\"}"@)
}

/// An instruction object is at most 71 bytes.
proof fn lemma_instr_json_len(ins: Instruction)
    ensures
        instr_json(ins).len() <= 71,
{
    reveal_strlit("{\"arg\":");
    reveal_strlit(",\"op\":\"");
    reveal_strlit("\"}");
    reveal_strlit("BUY");
    reveal_strlit("SELL");
    reveal_strlit("ADD_LIQUIDITY");
    reveal_strlit("MIGRATE_TO_AMM");
    lemma_dec_digits_len(ins.operand as int);
}

/// The program array is at most `72 n + 2` bytes for `n` instructions.
proof fn lemma_list_json_len(prog: Seq<Instruction>)
    ensures
        list_items(prog).len() <= 72 * prog.len(),
        list_json(prog).len() <= 72 * prog.len() + 2,
    decreases prog.len(),
{
    reveal_strlit("[");
    reveal_strlit("]");
    reveal_strlit(",");
    if prog.len() == 1 {
        lemma_instr_json_len(prog[0]);
    } else if prog.len() > 1 {
        lemma_list_json_len(prog.drop_last());
        lemma_instr_json_len(prog.last());
    }
}

/// Appends one instruction's JSON object to `out`.
fn push_instr_json(out: &mut Vec<u8>, ins: &Instruction)
    ensures
        final(out)@ == old(out)@ + instr_json(*ins),
{
    proof {
        reveal_strlit("{\"arg\":");
        reveal_strlit(",\"op\":\"");
        reveal_strlit("\"}");
        reveal_strlit("BUY");
        reveal_strlit("SELL");
        reveal_strlit("ADD_LIQUIDITY");
        reveal_strlit("MIGRATE_TO_AMM");
    }
    push_ascii(out, "{\"arg\":");
    let mut ds = i64_dec(ins.operand);
    out.append(&mut ds);
    push_ascii(out, ",\"op\":\"");
    match ins.opcode {
        Opcode::Buy => push_ascii(out, "BUY"),
        Opcode::Sell => push_ascii(out, "SELL"),
        Opcode::AddLiquidity => push_ascii(out, "ADD_LIQUIDITY"),
        Opcode::MigrateToAmm => push_ascii(out, "MIGRATE_TO_AMM"),
    }
    push_ascii(out, "\"}");
    proof {
        assert(out@ =~= old(out)@ + instr_json(*ins));
    }
}

/// Builds the JSON array of a program's instructions.
fn build_list_json(program: &[Instruction]) -> (r: Vec<u8>)
    ensures
        r@ == list_json(program@),
{
    proof {
        reveal_strlit("[");
        reveal_strlit("]");
        reveal_strlit(",");
    }
    let mut out: Vec<u8> = Vec::new();
    push_ascii(&mut out, "[");
    let n: usize = program.len();
    let mut i: usize = 0;
    proof {
        assert(out@ =~= lit_bytes("["@) + list_items(program@.take(0)));
    }
    while i < n
        invariant
            i <= n,
            n == program@.len(),
            out@ == lit_bytes("["@) + list_items(program@.take(i as int)),
        decreases n - i,
    {
        proof {
            reveal_strlit(",");
            assert(program@.take(i + 1).drop_last() =~= program@.take(i as int));
            assert(program@.take(i + 1).last() == program@[i as int]);
        }
        if i > 0 {
            push_ascii(&mut out, ",");
        }
        push_instr_json(&mut out, &program[i]);
        proof {
            assert(out@ =~= lit_bytes("["@) + list_items(program@.take(i + 1)));
        }
        i = i + 1;
    }
    push_ascii(&mut out, "]");
    proof {
        assert(program@.take(n as int) =~= program@);
        assert(out@ =~= list_json(program@));
    }
    out
}

/// The in-memory anchoring client: every submission is base64-encoded and
/// appended to the `sent` transcript, and the encoding is the handle.
pub struct FakeSolanaClient {
    pub sent: Vec<String>,
}

impl FakeSolanaClient {
    /// A client with an empty transcript.
    pub fn new() -> (c: FakeSolanaClient)
        ensures
            c.sent@ =~= Seq::<String>::empty(),
    {
        FakeSolanaClient { sent: Vec::new() }
    }

    /// Encodes `data` in base64, appends the encoding to the transcript,
    /// and returns it as the transaction handle.
    pub fn send_transaction(&mut self, data: &[u8]) -> (r: String)
        requires
            data@.len() < 0x4000_0000_0000_0000,
        ensures
            r@ == base64_of(data@),
            r@.len() == 4 * ((data@.len() + 2) / 3),
            final(self).sent@.len() == old(self).sent@.len() + 1,
            final(self).sent@.last()@ == r@,
            forall|i: int|
                0 <= i < old(self).sent@.len() ==> final(self).sent@[i] == old(self).sent@[i],
    {
        let b64 = b64_encode(data);
        let b64_clone = b64.clone();
        self.sent.push(b64_clone);
        b64
    }
}

/// Builds the canonical batch payload for a program and submits it through
/// the anchoring client.
pub struct BatchPoster {
    pub client: FakeSolanaClient,
}

impl BatchPoster {
    /// A poster over the given client.
    pub fn new(client: FakeSolanaClient) -> (p: BatchPoster)
        ensures
            p.client == client,
    {
        BatchPoster { client }
    }

    /// Serializes `program` to the canonical payload, submits it, and
    /// returns the handle: the base64 encoding of the payload bytes.
    pub fn commit(&mut self, program: &[Instruction]) -> (r: String)
        requires
            program@.len() <= MAX_BLOCK_PROGRAM,
        ensures
            r@ == base64_of(payload_bytes(program@)),
            r@.len() > 0,
            final(self).client.sent@.len() == old(self).client.sent@.len() + 1,
            final(self).client.sent@.last()@ == r@,
            forall|i: int|
                0 <= i < old(self).client.sent@.len() ==> final(self).client.sent@[i] == old(
                    self,
                ).client.sent@[i],
    {
        proof {
            reveal_strlit("{\"program\":");
            reveal_strlit(",\"root\":\"");
            reveal_strlit("\"}");
            lemma_list_json_len(program@);
        }
        let list = build_list_json(program);
        let root = sha256(list.as_slice());
        let root_hex = hex_bytes(&root);
        proof {
            lemma_hex_of_ascii(root@);
        }
        let mut data: Vec<u8> = Vec::new();
        push_ascii(&mut data, "{\"program\":");
        let mut list_mut = list;
        data.append(&mut list_mut);
        push_ascii(&mut data, ",\"root\":\"");
        let mut hex_mut = root_hex;
        data.append(&mut hex_mut);
        push_ascii(&mut data, "\"}");
        proof {
            assert(data@ =~= payload_bytes(program@));
        }
        self.client.send_transaction(data.as_slice())
    }
}

/// The wire encoding of one curve instruction: its opcode byte, then the
/// operand in little-endian order.
pub open spec fn curve_instr_bytes(ins: Instruction) -> Seq<u8> {
    seq![curve_opcode_byte(ins.opcode)] + crate::asset::u64_le_bytes(
        crate::asset::u64_of_i64(ins.operand),
    )
}

/// The wire byte of a curve opcode.
pub open spec fn curve_opcode_byte(op: Opcode) -> u8 {
    match op {
        Opcode::Buy => 0,
        Opcode::Sell => 1,
        Opcode::AddLiquidity => 2,
        Opcode::MigrateToAmm => 3,
    }
}

/// The wire encoding of a curve program, instruction by instruction.
pub open spec fn curve_program_bytes(prog: Seq<Instruction>) -> Seq<u8>
    decreases prog.len(),
{
    if prog.len() == 0 {
        Seq::empty()
    } else {
        curve_program_bytes(prog.drop_last()) + curve_instr_bytes(prog.last())
    }
}

/// The nine wire bytes determine the curve instruction.
proof fn lemma_curve_instr_bytes_inj(a: Instruction, b: Instruction)
    requires
        curve_instr_bytes(a) == curve_instr_bytes(b),
    ensures
        a == b,
{
    let x = curve_instr_bytes(a);
    let y = curve_instr_bytes(b);
    assert(x[0] == curve_opcode_byte(a.opcode) && y[0] == curve_opcode_byte(b.opcode));
    assert(a.opcode == b.opcode);
    assert(crate::asset::u64_le_bytes(crate::asset::u64_of_i64(a.operand)) =~= x.subrange(1, 9));
    assert(crate::asset::u64_le_bytes(crate::asset::u64_of_i64(b.operand)) =~= y.subrange(1, 9));
    crate::asset::lemma_u64_le_bytes_inj(
        crate::asset::u64_of_i64(a.operand),
        crate::asset::u64_of_i64(b.operand),
    );
    crate::asset::lemma_u64_of_i64_inj(a.operand, b.operand);
}

/// The payload encoding of a curve program is nine bytes per instruction.
pub proof fn lemma_curve_program_bytes_len(prog: Seq<Instruction>)
    ensures
        curve_program_bytes(prog).len() == 9 * prog.len(),
    decreases prog.len(),
{
    if prog.len() > 0 {
        lemma_curve_program_bytes_len(prog.drop_last());
    }
}

/// The payload encoding is unambiguous: distinct curve programs encode to
/// distinct byte strings, so two payloads share a root only through a
/// SHA-256 collision itself.
pub proof fn lemma_curve_program_bytes_injective(p: Seq<Instruction>, q: Seq<Instruction>)
    requires
        p != q,
    ensures
        curve_program_bytes(p) != curve_program_bytes(q),
    decreases p.len(),
{
    lemma_curve_program_bytes_len(p);
    lemma_curve_program_bytes_len(q);
    if p.len() != q.len() {
        // The encodings differ in length already.
    } else if curve_program_bytes(p) == curve_program_bytes(q) {
        if p.len() == 0 {
            assert(p =~= q);
        } else {
            lemma_curve_program_bytes_len(p.drop_last());
            lemma_curve_program_bytes_len(q.drop_last());
            assert(curve_instr_bytes(p.last()) =~= curve_program_bytes(p).subrange(
                9 * (p.len() - 1),
                9 * p.len() as int,
            ));
            assert(curve_instr_bytes(q.last()) =~= curve_program_bytes(q).subrange(
                9 * (q.len() - 1),
                9 * q.len() as int,
            ));
            lemma_curve_instr_bytes_inj(p.last(), q.last());
            assert(curve_program_bytes(p.drop_last()) =~= curve_program_bytes(p).subrange(
                0,
                9 * (p.len() - 1),
            ));
            assert(curve_program_bytes(q.drop_last()) =~= curve_program_bytes(q).subrange(
                0,
                9 * (q.len() - 1),
            ));
            if p.drop_last() == q.drop_last() {
                assert forall|i: int| 0 <= i < p.len() implies p[i] == q[i] by {
                    if i < p.len() - 1 {
                        assert(p.drop_last()[i] == p[i]);
                        assert(q.drop_last()[i] == q[i]);
                    }
                }
                assert(p =~= q);
            } else {
                lemma_curve_program_bytes_injective(p.drop_last(), q.drop_last());
            }
        }
    }
}

/// A content-addressed batch payload: the 32-byte root over the program's
/// wire encoding, and the program itself.
#[derive(Debug, Clone, PartialEq, Eq)]
pub struct Payload {
    pub root: Vec<u8>,
    pub program: Vec<Instruction>,
}

/// Builds the payload of a curve program: the SHA-256 digest of its wire
/// encoding, and a copy of the program.
pub fn serialize_program(program: &[Instruction]) -> (p: Payload)
    requires
        program@.len() < 0x100_0000_0000_0000,
    ensures
        p.root@ == sha256_of(curve_program_bytes(program@)),
        p.root@.len() == 32,
        p.program@ == program@,
{
    let n: usize = program.len();
    let mut encoded: Vec<u8> = Vec::new();
    let mut copy: Vec<Instruction> = Vec::new();
    let mut i: usize = 0;
    while i < n
        invariant
            i <= n,
            n == program@.len(),
            encoded@ == curve_program_bytes(program@.take(i as int)),
            encoded@.len() == 9 * i,
            copy@ == program@.take(i as int),
        decreases n - i,
    {
        let ins = program[i];
        let op: u8 = match ins.opcode {
            Opcode::Buy => 0,
            Opcode::Sell => 1,
            Opcode::AddLiquidity => 2,
            Opcode::MigrateToAmm => 3,
        };
        encoded.push(op);
        let v: u64 = if ins.operand >= 0 {
            ins.operand as u64
        } else {
            ((ins.operand as i128) + 0x1_0000_0000_0000_0000i128) as u64
        };
        assert(v == crate::asset::u64_of_i64(ins.operand));
        crate::asset::push_le_bytes(&mut encoded, v);
        copy.push(ins);
        proof {
            assert(program@.take(i + 1).drop_last() =~= program@.take(i as int));
            assert(program@.take(i + 1).last() == ins);
            assert(encoded@ =~= curve_program_bytes(program@.take(i + 1)));
            assert(copy@ =~= program@.take(i + 1));
        }
        i = i + 1;
    }
    proof {
        assert(program@.take(n as int) =~= program@);
    }
    let root = sha256(encoded.as_slice());
    Payload { root, program: copy }
}

/// A poster that ignores the program and returns a fixed handle.
pub struct FakePoster;

impl FakePoster {
    /// Returns the fixed handle `"sig"`.
    pub fn commit(&self, _program: &[Instruction]) -> (r: String)
        ensures
            r@ == "sig"@,
    {
        String::from_str("sig")
    }
}

} // verus!
