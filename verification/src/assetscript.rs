//! Line-oriented compiler for the asset instruction set: one statement per
//! line, `<OPCODE> <integer>`, opcodes case-insensitive, blank lines skipped.
use vstd::prelude::*;
use vstd::string::StrSliceExecFns;
use vstd::string::StringExecFns;

use crate::asset::{Instruction, Opcode};
use crate::compiler::{msg_invalid_amount, msg_invalid_statement};
use crate::text::{
    find_newline, find_nonspace, find_token_end, find_trim_back, lines_from, matches_keyword,
    parse_i64_range, range_matches_keyword, skip_spaces, spec_lines, spec_parse_i64, spec_tokens,
    spec_trim, str_eq_str, token_end, tokens_in,
};

verus! {

/// A parsed statement: an upper-cased opcode mnemonic and its amount.
#[derive(Debug, Clone, PartialEq, Eq)]
pub struct Command {
    pub opcode: String,
    pub amount: i64,
}

impl View for Command {
    type V = (Seq<char>, i64);

    open spec fn view(&self) -> (Seq<char>, i64) {
        (self.opcode@, self.amount)
    }
}

/// The views of a sequence of commands.
pub open spec fn view_asset_cmds(cmds: Seq<Command>) -> Seq<(Seq<char>, i64)> {
    cmds.map(|_i: int, c: Command| c@)
}

/// The canonical mnemonic that `tok` names, folding case, if any.
pub open spec fn asset_keyword(tok: Seq<char>) -> Option<Seq<char>> {
    if matches_keyword(tok, "MINT"@) {
        Some("MINT"@)
    } else if matches_keyword(tok, "TRANSFER"@) {
        Some("TRANSFER"@)
    } else if matches_keyword(tok, "BURN"@) {
        Some("BURN"@)
    } else {
        None
    }
}

/// What one line contributes: nothing for a blank line, a command for a
/// well-formed statement, or the first error.
pub open spec fn asset_line(line: Seq<char>) -> Result<Option<(Seq<char>, i64)>, Seq<char>> {
    let t = spec_trim(line);
    if t.len() == 0 {
        Ok(None)
    } else {
        let toks = spec_tokens(t);
        if toks.len() != 2 {
            Err(msg_invalid_statement(t))
        } else {
            match asset_keyword(toks[0]) {
                None => Err(msg_invalid_statement(t)),
                Some(op) => match spec_parse_i64(toks[1]) {
                    None => Err(msg_invalid_amount(t)),
                    Some(v) => Ok(Some((op, v))),
                },
            }
        }
    }
}

/// The commands of a sequence of lines, in order, or the first error.
pub open spec fn asset_cmds(lines: Seq<Seq<char>>) -> Result<Seq<(Seq<char>, i64)>, Seq<char>>
    decreases lines.len(),
{
    if lines.len() == 0 {
        Ok(seq![])
    } else {
        match asset_line(lines[0]) {
            Err(e) => Err(e),
            Ok(head) => match asset_cmds(lines.drop_first()) {
                Err(e) => Err(e),
                Ok(rest) => Ok(
                    match head {
                        Some(c) => seq![c] + rest,
                        None => rest,
                    },
                ),
            },
        }
    }
}

/// What `parse` returns on a script: its commands in line order, or the
/// first error in line order.
pub open spec fn spec_parse_asset(s: Seq<char>) -> Result<Seq<(Seq<char>, i64)>, Seq<char>> {
    asset_cmds(spec_lines(s))
}

/// Parses one line: trims it, skips it when blank, and otherwise demands
/// exactly an opcode mnemonic and an integer amount.
fn parse_asset_line(line_str: &str) -> (r: Result<Option<Command>, String>)
    ensures
        match r {
            Ok(None) => asset_line(line_str@) == Ok::<Option<(Seq<char>, i64)>, Seq<char>>(None),
            Ok(Some(c)) => asset_line(line_str@) == Ok::<Option<(Seq<char>, i64)>, Seq<char>>(
                Some(c@),
            ),
            Err(e) => asset_line(line_str@) == Err::<Option<(Seq<char>, i64)>, Seq<char>>(e@),
        },
{
    let ghost line = line_str@;
    let ln: usize = line_str.unicode_len();
    let ts = find_nonspace(line_str, 0, ln);
    let te = find_trim_back(line_str, ln);
    let ghost t = spec_trim(line);
    if ts >= te {
        proof {
            assert(t.len() == 0);
        }
        return Ok(None);
    }
    let t_str = line_str.substring_char(ts, te);
    proof {
        assert(t_str@ == t);
    }
    let tn: usize = te - ts;
    let ghost toks = spec_tokens(t);
    let b1 = find_token_end(t_str, 0, tn);
    proof {
        assert(!crate::text::is_space(t[0])) by {
            crate::text::lemma_skip_spaces_bounds(line, 0, ln as int);
        }
        assert(skip_spaces(t, 0, tn as int) == 0);
        assert(toks == seq![t.subrange(0, b1 as int)] + tokens_in(t, b1 as int, tn as int));
    }
    let a2 = find_nonspace(t_str, b1, tn);
    if a2 >= tn {
        proof {
            assert(tokens_in(t, b1 as int, tn as int) =~= Seq::<Seq<char>>::empty());
            assert(toks.len() == 1);
        }
        return Err(String::from_str("Invalid statement: ").concat(t_str));
    }
    let b2 = find_token_end(t_str, a2, tn);
    proof {
        assert(tokens_in(t, b1 as int, tn as int) == seq![t.subrange(a2 as int, b2 as int)]
            + tokens_in(t, b2 as int, tn as int));
    }
    let a3 = find_nonspace(t_str, b2, tn);
    if a3 < tn {
        proof {
            let after = tokens_in(t, b2 as int, tn as int);
            assert(after == seq![t.subrange(a3 as int, token_end(t, a3 as int, tn as int))]
                + tokens_in(t, token_end(t, a3 as int, tn as int), tn as int));
            assert(after.len() >= 1);
            assert(toks.len() >= 3);
        }
        return Err(String::from_str("Invalid statement: ").concat(t_str));
    }
    proof {
        assert(tokens_in(t, b2 as int, tn as int) =~= Seq::<Seq<char>>::empty());
        assert(toks =~= seq![t.subrange(0, b1 as int), t.subrange(a2 as int, b2 as int)]);
        assert(toks.len() == 2);
        assert(toks[0] == t.subrange(0, b1 as int));
        assert(toks[1] == t.subrange(a2 as int, b2 as int));
    }
    let kw: &str = if range_matches_keyword(t_str, 0, b1, "MINT") {
        "MINT"
    } else if range_matches_keyword(t_str, 0, b1, "TRANSFER") {
        "TRANSFER"
    } else if range_matches_keyword(t_str, 0, b1, "BURN") {
        "BURN"
    } else {
        proof {
            assert(asset_keyword(toks[0]) is None);
        }
        return Err(String::from_str("Invalid statement: ").concat(t_str));
    };
    proof {
        assert(asset_keyword(toks[0]) == Some(kw@));
    }
    match parse_i64_range(t_str, a2, b2) {
        None => Err(String::from_str("Invalid amount in: ").concat(t_str)),
        Some(v) => Ok(Some(Command { opcode: String::from_str(kw), amount: v })),
    }
}

/// Parses an asset script: one `<OPCODE> <integer>` statement per line,
/// opcodes `MINT`, `TRANSFER`, `BURN` in any case, blank lines skipped.
/// Returns the commands in line order, or the first offending line's error.
pub fn parse(script: &str) -> (r: Result<Vec<Command>, String>)
    ensures
        match r {
            Ok(cmds) => spec_parse_asset(script@) == Ok::<_, Seq<char>>(view_asset_cmds(cmds@))
                && cmds@.len() <= script@.len(),
            Err(e) => spec_parse_asset(script@) == Err::<Seq<(Seq<char>, i64)>, _>(e@),
        },
{
    let n: usize = script.unicode_len();
    let mut cmds: Vec<Command> = Vec::new();
    let mut pos: usize = 0;
    while pos < n
        invariant
            pos <= n,
            n == script@.len(),
            cmds@.len() <= pos,
            match asset_cmds(lines_from(script@, pos as int)) {
                Ok(rest) => spec_parse_asset(script@) == Ok::<_, Seq<char>>(
                    view_asset_cmds(cmds@) + rest,
                ),
                Err(e) => spec_parse_asset(script@) == Err::<Seq<(Seq<char>, i64)>, _>(e),
            },
        decreases n - pos,
    {
        let j = find_newline(script, pos, n);
        let line_str = script.substring_char(pos, j);
        let ghost line = script@.subrange(pos as int, j as int);
        let ghost rest_lines = lines_from(script@, j + 1);
        proof {
            assert(lines_from(script@, pos as int) == seq![line] + rest_lines);
            assert((seq![line] + rest_lines)[0] == line);
            assert((seq![line] + rest_lines).drop_first() =~= rest_lines);
        }
        match parse_asset_line(line_str) {
            Err(e) => {
                return Err(e);
            },
            Ok(Some(c)) => {
                let ghost prev = cmds@;
                cmds.push(c);
                proof {
                    assert(view_asset_cmds(cmds@) =~= view_asset_cmds(prev) + seq![c@]);
                    if asset_cmds(rest_lines) is Ok {
                        let rest = asset_cmds(rest_lines)->Ok_0;
                        assert(view_asset_cmds(prev) + (seq![c@] + rest) =~= view_asset_cmds(
                            cmds@,
                        ) + rest);
                    }
                }
            },
            Ok(None) => {},
        }
        pos = if j < n {
            j + 1
        } else {
            n
        };
        proof {
            if j == n {
                assert(lines_from(script@, n as int) =~= rest_lines);
            }
        }
    }
    proof {
        assert(lines_from(script@, pos as int) =~= Seq::<Seq<char>>::empty());
        assert(view_asset_cmds(cmds@) + Seq::<(Seq<char>, i64)>::empty() =~= view_asset_cmds(
            cmds@,
        ));
    }
    Ok(cmds)
}

/// What `compile` returns: the instruction for each command in order, or
/// `Unknown command` for the first opcode outside the mnemonic set.
pub open spec fn spec_compile_asset(cmds: Seq<(Seq<char>, i64)>) -> Result<
    Seq<Instruction>,
    Seq<char>,
>
    decreases cmds.len(),
{
    if cmds.len() == 0 {
        Ok(seq![])
    } else {
        let c = cmds[0];
        let op = if c.0 == "MINT"@ {
            Some(Opcode::Mint)
        } else if c.0 == "TRANSFER"@ {
            Some(Opcode::Transfer)
        } else if c.0 == "BURN"@ {
            Some(Opcode::Burn)
        } else {
            None
        };
        match op {
            None => Err("Unknown command: "@ + c.0),
            Some(op) => match spec_compile_asset(cmds.drop_first()) {
                Err(e) => Err(e),
                Ok(rest) => Ok(seq![Instruction { opcode: op, amount: c.1 }] + rest),
            },
        }
    }
}

/// Compiles parsed commands to asset instructions, one for one, in order;
/// the first opcode outside the mnemonic set is an `Unknown command` error.
pub fn compile(commands: &[Command]) -> (r: Result<Vec<Instruction>, String>)
    ensures
        match r {
            Ok(p) => spec_compile_asset(view_asset_cmds(commands@)) == Ok::<_, Seq<char>>(p@)
                && p@.len() == commands@.len(),
            Err(e) => spec_compile_asset(view_asset_cmds(commands@)) == Err::<Seq<Instruction>, _>(
                e@,
            ),
        },
{
    let n: usize = commands.len();
    let mut out: Vec<Instruction> = Vec::new();
    let mut i: usize = 0;
    proof {
        assert(commands@.skip(0) =~= commands@);
        if spec_compile_asset(view_asset_cmds(commands@)) is Ok {
            let whole = spec_compile_asset(view_asset_cmds(commands@))->Ok_0;
            assert(Seq::<Instruction>::empty() + whole =~= whole);
        }
    }
    while i < n
        invariant
            i <= n,
            n == commands@.len(),
            out@.len() == i,
            match spec_compile_asset(view_asset_cmds(commands@.skip(i as int))) {
                Ok(rest) => spec_compile_asset(view_asset_cmds(commands@)) == Ok::<_, Seq<char>>(
                    out@ + rest,
                ),
                Err(e) => spec_compile_asset(view_asset_cmds(commands@)) == Err::<
                    Seq<Instruction>,
                    _,
                >(e),
            },
        decreases n - i,
    {
        let cmd = &commands[i];
        let ghost rest_cmds = view_asset_cmds(commands@.skip(i + 1));
        proof {
            assert(view_asset_cmds(commands@.skip(i as int))[0] == commands@[i as int]@);
            assert(view_asset_cmds(commands@.skip(i as int)).drop_first() =~= rest_cmds);
        }
        let op: Opcode = if str_eq_str(cmd.opcode.as_str(), "MINT") {
            Opcode::Mint
        } else if str_eq_str(cmd.opcode.as_str(), "TRANSFER") {
            Opcode::Transfer
        } else if str_eq_str(cmd.opcode.as_str(), "BURN") {
            Opcode::Burn
        } else {
            return Err(String::from_str("Unknown command: ").concat(cmd.opcode.as_str()));
        };
        let ghost prev = out@;
        out.push(Instruction { opcode: op, amount: cmd.amount });
        proof {
            if spec_compile_asset(rest_cmds) is Ok {
                let rest = spec_compile_asset(rest_cmds)->Ok_0;
                assert(prev + (seq![Instruction { opcode: op, amount: cmd.amount }] + rest) =~= out@
                    + rest);
            }
        }
        i = i + 1;
    }
    proof {
        assert(view_asset_cmds(commands@.skip(n as int)) =~= Seq::<(Seq<char>, i64)>::empty());
        assert(out@ + Seq::<Instruction>::empty() =~= out@);
    }
    Ok(out)
}

} // verus!
