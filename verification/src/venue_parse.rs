//! Venue-script parser: a line-oriented, block-structured reader that turns
//! a script into the typed AST of `venue`, or reports the first offending
//! line with a structured error.
//!
//! Lines split into whitespace-separated tokens, with three refinements: a
//! double-quoted substring is one token whose value excludes the quotes,
//! `{` and `}` are their own tokens outside quotes, and a line whose first
//! character after trimming is `#` is a comment. Key-value pairs accept
//! `k=v`, `k= v`, `k =v` and `k = v`.
use vstd::prelude::*;
use vstd::string::StrSliceExecFns;
use vstd::string::StringExecFns;

use crate::text::{
    find_newline, find_nonspace, find_trim_back, is_space, lemma_next_newline_bounds,
    matches_keyword, next_newline, parse_uint_range, range_matches_keyword, spec_parse_uint,
    spec_trim, str_eq_str,
};
use crate::venue::{
    AntiToxicity, CapabilitySpec, CapV, CollateralSpec, CollateralV, Fee, MakerClass,
    MakerClassV, Matching, Oracle, OracleV, PortfolioMargin, PortfolioMarginV, Risk, Router,
    RouterV, Script, ScriptError, ScriptErrorV, ScriptV, Slab, SlabV, view_caps,
    view_collaterals, view_opt_pm, view_opt_text, view_oracle_seq, view_slab_seq,
};

verus! {

/// One token of a script line: its text, and whether it was quoted.
pub struct VToken {
    pub text: String,
    pub quoted: bool,
}

impl View for VToken {
    type V = (Seq<char>, bool);

    open spec fn view(&self) -> (Seq<char>, bool) {
        (self.text@, self.quoted)
    }
}

/// The images of a token list.
pub open spec fn view_toks(ts: Seq<VToken>) -> Seq<(Seq<char>, bool)> {
    ts.map(|_i: int, t: VToken| t@)
}

/// A character that ends an unquoted token.
pub open spec fn tok_stop(c: char) -> bool {
    is_space(c) || c == '"' || c == '{' || c == '}'
}

/// The index of the first closing quote at or after `i`, or the length.
pub open spec fn quote_end(s: Seq<char>, i: int) -> int
    decreases s.len() - i,
{
    if i < 0 || i >= s.len() {
        s.len() as int
    } else if s[i] == '"' {
        i
    } else {
        quote_end(s, i + 1)
    }
}

/// `quote_end` stays within `[i, s.len()]`.
pub proof fn lemma_quote_end_bounds(s: Seq<char>, i: int)
    requires
        0 <= i <= s.len(),
    ensures
        i <= quote_end(s, i) <= s.len(),
    decreases s.len() - i,
{
    if i < s.len() && s[i] != '"' {
        lemma_quote_end_bounds(s, i + 1);
    }
}

/// The index of the first token-ending character at or after `i`, or the
/// length.
pub open spec fn word_end(s: Seq<char>, i: int) -> int
    decreases s.len() - i,
{
    if i < 0 || i >= s.len() {
        s.len() as int
    } else if tok_stop(s[i]) {
        i
    } else {
        word_end(s, i + 1)
    }
}

/// `word_end` stays within `[i, s.len()]`.
pub proof fn lemma_word_end_bounds(s: Seq<char>, i: int)
    requires
        0 <= i <= s.len(),
    ensures
        i <= word_end(s, i) <= s.len(),
    decreases s.len() - i,
{
    if i < s.len() && !tok_stop(s[i]) {
        lemma_word_end_bounds(s, i + 1);
    }
}

/// The tokens of a line from position `i` on: whitespace-separated, a
/// quoted substring one token without its quotes, braces their own tokens;
/// `None` on an unterminated quote.
pub open spec fn venue_tokens_from(s: Seq<char>, i: int) -> Option<Seq<(Seq<char>, bool)>>
    decreases s.len() - i,
    via venue_tokens_from_dec
{
    if i < 0 || i >= s.len() {
        Some(seq![])
    } else if is_space(s[i]) {
        venue_tokens_from(s, i + 1)
    } else if s[i] == '"' {
        if quote_end(s, i + 1) >= s.len() {
            None
        } else {
            match venue_tokens_from(s, quote_end(s, i + 1) + 1) {
                None => None,
                Some(rest) => Some(seq![(s.subrange(i + 1, quote_end(s, i + 1)), true)] + rest),
            }
        }
    } else if s[i] == '{' || s[i] == '}' {
        match venue_tokens_from(s, i + 1) {
            None => None,
            Some(rest) => Some(seq![(s.subrange(i, i + 1), false)] + rest),
        }
    } else {
        match venue_tokens_from(s, word_end(s, i + 1)) {
            None => None,
            Some(rest) => Some(seq![(s.subrange(i, word_end(s, i + 1)), false)] + rest),
        }
    }
}

#[via_fn]
proof fn venue_tokens_from_dec(s: Seq<char>, i: int) {
    if 0 <= i < s.len() {
        lemma_quote_end_bounds(s, i + 1);
        lemma_word_end_bounds(s, i + 1);
    }
}

/// The tokens of a whole line.
pub open spec fn venue_tokens(s: Seq<char>) -> Option<Seq<(Seq<char>, bool)>> {
    venue_tokens_from(s, 0)
}

/// Slab and oracle names are pairwise distinct.
pub open spec fn distinct_slab_names(sl: Seq<Slab>) -> bool {
    forall|i: int, j: int| 0 <= i < j < sl.len() ==> (#[trigger] sl[i]).name@ != (#[trigger] sl[j]).name@
}

/// Oracle names are pairwise distinct.
pub open spec fn distinct_oracle_names(os: Seq<Oracle>) -> bool {
    forall|i: int, j: int| 0 <= i < j < os.len() ==> (#[trigger] os[i]).name@ != (#[trigger] os[j]).name@
}

/// Splits one trimmed line into tokens; fails on an unterminated quote.
fn tokenize_line(t_str: &str, tn: usize) -> (r: Option<Vec<VToken>>)
    requires
        tn == t_str@.len(),
    ensures
        match r {
            Some(toks) => venue_tokens(t_str@) == Some(view_toks(toks@)),
            None => venue_tokens(t_str@) is None,
        },
{
    let ghost t = t_str@;
    let mut toks: Vec<VToken> = Vec::new();
    let mut i: usize = 0;
    proof {
        assert(view_toks(toks@) =~= Seq::<(Seq<char>, bool)>::empty());
        if venue_tokens_from(t, 0) is Some {
            assert(view_toks(toks@) + venue_tokens_from(t, 0)->Some_0 =~= venue_tokens_from(
                t,
                0,
            )->Some_0);
        }
    }
    while i < tn
        invariant
            i <= tn,
            tn == t_str@.len(),
            t == t_str@,
            match venue_tokens_from(t, i as int) {
                Some(rest) => venue_tokens(t) == Some(view_toks(toks@) + rest),
                None => venue_tokens(t) is None,
            },
        decreases tn - i,
    {
        let c = t_str.get_char(i);
        if c == ' ' || c == '\t' || c == '\r' {
            i = i + 1;
        } else if c == '"' {
            let mut j: usize = i + 1;
            let mut found: bool = false;
            while j < tn && !found
                invariant
                    i + 1 <= j <= tn,
                    tn == t_str@.len(),
                    t == t_str@,
                    !found ==> quote_end(t, i + 1) == quote_end(t, j as int),
                    found ==> quote_end(t, i + 1) == j && j < tn,
                decreases tn - j + (if found {
                    0int
                } else {
                    1int
                }),
            {
                if t_str.get_char(j) == '"' {
                    found = true;
                } else {
                    j = j + 1;
                }
            }
            if !found {
                return None;
            }
            let close: usize = j;
            let inner = t_str.substring_char(i + 1, close);
            let ghost prev = toks@;
            toks.push(VToken { text: String::from_str(inner), quoted: true });
            proof {
                let q = quote_end(t, i + 1);
                if venue_tokens_from(t, q + 1) is Some {
                    let rest = venue_tokens_from(t, q + 1)->Some_0;
                    assert(view_toks(toks@) =~= view_toks(prev) + seq![
                        (t.subrange(i + 1, q), true),
                    ]);
                    assert(view_toks(prev) + (seq![(t.subrange(i + 1, q), true)] + rest)
                        =~= view_toks(toks@) + rest);
                }
            }
            i = close + 1;
        } else if c == '{' || c == '}' {
            let piece = t_str.substring_char(i, i + 1);
            let ghost prev = toks@;
            toks.push(VToken { text: String::from_str(piece), quoted: false });
            proof {
                if venue_tokens_from(t, i + 1) is Some {
                    let rest = venue_tokens_from(t, i + 1)->Some_0;
                    assert(view_toks(toks@) =~= view_toks(prev) + seq![
                        (t.subrange(i as int, i + 1), false),
                    ]);
                    assert(view_toks(prev) + (seq![(t.subrange(i as int, i + 1), false)] + rest)
                        =~= view_toks(toks@) + rest);
                }
            }
            i = i + 1;
        } else {
            let mut j: usize = i + 1;
            let mut stop: bool = false;
            while j < tn && !stop
                invariant
                    i < j <= tn,
                    tn == t_str@.len(),
                    t == t_str@,
                    !stop ==> word_end(t, i + 1) == word_end(t, j as int),
                    stop ==> word_end(t, i + 1) == j,
                decreases tn - j + (if stop {
                    0int
                } else {
                    1int
                }),
            {
                let d = t_str.get_char(j);
                if d == ' ' || d == '\t' || d == '\r' || d == '"' || d == '{' || d == '}' {
                    stop = true;
                } else {
                    j = j + 1;
                }
            }
            let piece = t_str.substring_char(i, j);
            let ghost prev = toks@;
            toks.push(VToken { text: String::from_str(piece), quoted: false });
            proof {
                let e = word_end(t, i + 1);
                assert(e == j);
                if venue_tokens_from(t, e) is Some {
                    let rest = venue_tokens_from(t, e)->Some_0;
                    assert(view_toks(toks@) =~= view_toks(prev) + seq![
                        (t.subrange(i as int, e), false),
                    ]);
                    assert(view_toks(prev) + (seq![(t.subrange(i as int, e), false)] + rest)
                        =~= view_toks(toks@) + rest);
                }
            }
            i = j;
        }
    }
    proof {
        assert(venue_tokens_from(t, i as int) == Some(Seq::<(Seq<char>, bool)>::empty()));
        assert(view_toks(toks@) + Seq::<(Seq<char>, bool)>::empty() =~= view_toks(toks@));
    }
    Some(toks)
}

/// The index of the first `=` at or after `i`, or the length.
pub open spec fn eq_pos(s: Seq<char>, i: int) -> int
    decreases s.len() - i,
{
    if i < 0 || i >= s.len() {
        s.len() as int
    } else if s[i] == '=' {
        i
    } else {
        eq_pos(s, i + 1)
    }
}

/// `eq_pos` stays within `[i, s.len()]`.
pub proof fn lemma_eq_pos_bounds(s: Seq<char>, i: int)
    requires
        0 <= i <= s.len(),
    ensures
        i <= eq_pos(s, i) <= s.len(),
    decreases s.len() - i,
{
    if i < s.len() && s[i] != '=' {
        lemma_eq_pos_bounds(s, i + 1);
    }
}

/// Finds the first `=` of `s`, if any.
fn find_eq(s: &str) -> (r: Option<usize>)
    ensures
        match r {
            Some(p) => p == eq_pos(s@, 0) && p < s@.len(),
            None => eq_pos(s@, 0) == s@.len(),
        },
{
    let n: usize = s.unicode_len();
    let mut i: usize = 0;
    while i < n
        invariant
            i <= n,
            n == s@.len(),
            eq_pos(s@, 0) == eq_pos(s@, i as int),
        decreases n - i,
    {
        if s.get_char(i) == '=' {
            return Some(i);
        }
        i = i + 1;
    }
    None
}

/// The images of a key-value list.
pub open spec fn view_pairs(ps: Seq<(String, String)>) -> Seq<(Seq<char>, Seq<char>)> {
    ps.map(|_i: int, p: (String, String)| (p.0@, p.1@))
}

/// The `k=v` pairs of the tokens from position `i` on, in the four
/// accepted spellings; `None` on a malformed pair.
pub open spec fn spec_kv_from(toks: Seq<(Seq<char>, bool)>, i: int) -> Option<
    Seq<(Seq<char>, Seq<char>)>,
>
    decreases toks.len() - i,
{
    if i < 0 || i >= toks.len() {
        Some(seq![])
    } else {
        let txt = toks[i].0;
        let p = eq_pos(txt, 0);
        if p < txt.len() {
            if p + 1 < txt.len() {
                match spec_kv_from(toks, i + 1) {
                    None => None,
                    Some(rest) => Some(
                        seq![(txt.subrange(0, p), txt.subrange(p + 1, txt.len() as int))] + rest,
                    ),
                }
            } else if i + 1 >= toks.len() {
                None
            } else {
                match spec_kv_from(toks, i + 2) {
                    None => None,
                    Some(rest) => Some(seq![(txt.subrange(0, p), toks[i + 1].0)] + rest),
                }
            }
        } else if i + 1 >= toks.len() {
            None
        } else {
            let nxt = toks[i + 1];
            if nxt.0.len() == 0 || nxt.1 {
                None
            } else if nxt.0[0] != '=' {
                None
            } else if nxt.0.len() > 1 {
                match spec_kv_from(toks, i + 2) {
                    None => None,
                    Some(rest) => Some(
                        seq![(txt, nxt.0.subrange(1, nxt.0.len() as int))] + rest,
                    ),
                }
            } else if i + 2 >= toks.len() {
                None
            } else {
                match spec_kv_from(toks, i + 3) {
                    None => None,
                    Some(rest) => Some(seq![(txt, toks[i + 2].0)] + rest),
                }
            }
        }
    }
}

/// Reads the `k=v` pairs after position `start` of a token list, in all
/// four accepted spellings.
fn kv_pairs(tokens: &Vec<VToken>, start: usize) -> (r: Option<Vec<(String, String)>>)
    ensures
        match r {
            Some(ps) => spec_kv_from(view_toks(tokens@), start as int) == Some(view_pairs(ps@)),
            None => spec_kv_from(view_toks(tokens@), start as int) is None,
        },
{
    let ghost vt = view_toks(tokens@);
    let mut out: Vec<(String, String)> = Vec::new();
    let mut i: usize = start;
    let n: usize = tokens.len();
    proof {
        assert(view_pairs(out@) =~= Seq::<(Seq<char>, Seq<char>)>::empty());
        if spec_kv_from(vt, start as int) is Some {
            assert(view_pairs(out@) + spec_kv_from(vt, start as int)->Some_0 =~= spec_kv_from(
                vt,
                start as int,
            )->Some_0);
        }
    }
    while i < n
        invariant
            n == tokens@.len(),
            vt == view_toks(tokens@),
            match spec_kv_from(vt, i as int) {
                Some(rest) => spec_kv_from(vt, start as int) == Some(view_pairs(out@) + rest),
                None => spec_kv_from(vt, start as int) is None,
            },
        decreases n - i,
    {
        proof {
            assert(vt[i as int] == tokens@[i as int]@);
        }
        let txt = &tokens[i].text;
        let tlen: usize = txt.as_str().unicode_len();
        match find_eq(txt.as_str()) {
            Some(p) => {
                let k = String::from_str(txt.as_str().substring_char(0, p));
                if p + 1 < tlen {
                    let v = String::from_str(txt.as_str().substring_char(p + 1, tlen));
                    let ghost prev = out@;
                    let ghost pair = (txt@.subrange(0, p as int), txt@.subrange(
                        p + 1,
                        txt@.len() as int,
                    ));
                    out.push((k, v));
                    proof {
                        if spec_kv_from(vt, i + 1) is Some {
                            let rest = spec_kv_from(vt, i + 1)->Some_0;
                            assert(view_pairs(out@) =~= view_pairs(prev) + seq![pair]);
                            assert(view_pairs(prev) + (seq![pair] + rest) =~= view_pairs(out@)
                                + rest);
                        }
                    }
                    i = i + 1;
                } else {
                    if i + 1 >= n {
                        return None;
                    }
                    proof {
                        assert(vt[i + 1] == tokens@[i + 1]@);
                    }
                    let v = tokens[i + 1].text.clone();
                    let ghost prev = out@;
                    let ghost pair = (txt@.subrange(0, p as int), vt[i + 1].0);
                    out.push((k, v));
                    proof {
                        if spec_kv_from(vt, i + 2) is Some {
                            let rest = spec_kv_from(vt, i + 2)->Some_0;
                            assert(view_pairs(out@) =~= view_pairs(prev) + seq![pair]);
                            assert(view_pairs(prev) + (seq![pair] + rest) =~= view_pairs(out@)
                                + rest);
                        }
                    }
                    i = i + 2;
                }
            },
            None => {
                if i + 1 >= n {
                    return None;
                }
                proof {
                    assert(vt[i + 1] == tokens@[i + 1]@);
                }
                let k = txt.clone();
                let next = &tokens[i + 1].text;
                let nlen: usize = next.as_str().unicode_len();
                if nlen == 0 || tokens[i + 1].quoted {
                    return None;
                }
                if next.as_str().get_char(0) != '=' {
                    return None;
                }
                if nlen > 1 {
                    let v = String::from_str(next.as_str().substring_char(1, nlen));
                    let ghost prev = out@;
                    let ghost pair = (txt@, next@.subrange(1, next@.len() as int));
                    out.push((k, v));
                    proof {
                        if spec_kv_from(vt, i + 2) is Some {
                            let rest = spec_kv_from(vt, i + 2)->Some_0;
                            assert(view_pairs(out@) =~= view_pairs(prev) + seq![pair]);
                            assert(view_pairs(prev) + (seq![pair] + rest) =~= view_pairs(out@)
                                + rest);
                        }
                    }
                    i = i + 2;
                } else {
                    if i + 2 >= n {
                        return None;
                    }
                    proof {
                        assert(vt[i + 2] == tokens@[i + 2]@);
                    }
                    let v = tokens[i + 2].text.clone();
                    let ghost prev = out@;
                    let ghost pair = (txt@, vt[i + 2].0);
                    out.push((k, v));
                    proof {
                        if spec_kv_from(vt, i + 3) is Some {
                            let rest = spec_kv_from(vt, i + 3)->Some_0;
                            assert(view_pairs(out@) =~= view_pairs(prev) + seq![pair]);
                            assert(view_pairs(prev) + (seq![pair] + rest) =~= view_pairs(out@)
                                + rest);
                        }
                    }
                    i = i + 3;
                }
            },
        }
    }
    proof {
        assert(spec_kv_from(vt, i as int) == Some(Seq::<(Seq<char>, Seq<char>)>::empty()));
        assert(view_pairs(out@) + Seq::<(Seq<char>, Seq<char>)>::empty() =~= view_pairs(out@));
    }
    Some(out)
}

/// The value of the first pair whose key is `key`, from position `i` on.
pub open spec fn kv_lookup(ps: Seq<(Seq<char>, Seq<char>)>, key: Seq<char>, i: int) -> Option<
    Seq<char>,
>
    decreases ps.len() - i,
{
    if i < 0 || i >= ps.len() {
        None
    } else if ps[i].0 == key {
        Some(ps[i].1)
    } else {
        kv_lookup(ps, key, i + 1)
    }
}

/// Looks a key up among parsed pairs, first match first.
fn kv_get(pairs: &Vec<(String, String)>, key: &str) -> (r: Option<String>)
    ensures
        match r {
            Some(v) => kv_lookup(view_pairs(pairs@), key@, 0) == Some(v@),
            None => kv_lookup(view_pairs(pairs@), key@, 0) is None,
        },
{
    let ghost vp = view_pairs(pairs@);
    let n: usize = pairs.len();
    let mut i: usize = 0;
    while i < n
        invariant
            i <= n,
            n == pairs@.len(),
            vp == view_pairs(pairs@),
            kv_lookup(vp, key@, 0) == kv_lookup(vp, key@, i as int),
        decreases n - i,
    {
        proof {
            assert(vp[i as int] == (pairs@[i as int].0@, pairs@[i as int].1@));
        }
        if str_eq_str(pairs[i].0.as_str(), key) {
            return Some(pairs[i].1.clone());
        }
        i = i + 1;
    }
    None
}

/// What a numeric field value parses to: its decimal value when it is one
/// and fits below `max`, else a syntax error naming the text.
pub open spec fn spec_parse_num(v: Seq<char>, max: int) -> Result<u128, ScriptErrorV> {
    match spec_parse_uint(v, max) {
        Some(x) => Ok(x),
        None => Err(ScriptErrorV::Syntax(v)),
    }
}

/// Parses a decimal value no larger than `max`, or reports the offending
/// text as a syntax error.
fn parse_num(v: &String, max: u128) -> (r: Result<u128, ScriptError>)
    ensures
        match r {
            Ok(x) => spec_parse_num(v@, max as int) == Ok::<u128, ScriptErrorV>(x),
            Err(e) => spec_parse_num(v@, max as int) == Err::<u128, ScriptErrorV>(e@),
        },
{
    let n: usize = v.as_str().unicode_len();
    let r = parse_uint_range(v.as_str(), 0, n, max);
    proof {
        assert(v@.subrange(0, n as int) =~= v@);
    }
    match r {
        Some(x) => Ok(x),
        None => Err(ScriptError::Syntax(v.clone())),
    }
}

/// What a boolean field value parses to: `true`/`false` in any case, else
/// a syntax error naming the text.
pub open spec fn spec_parse_bool(v: Seq<char>) -> Result<bool, ScriptErrorV> {
    if matches_keyword(v, "TRUE"@) {
        Ok(true)
    } else if matches_keyword(v, "FALSE"@) {
        Ok(false)
    } else {
        Err(ScriptErrorV::Syntax(v))
    }
}

/// Parses a `true`/`false` value, case-insensitively.
fn parse_bool(v: &String) -> (r: Result<bool, ScriptError>)
    ensures
        match r {
            Ok(b) => spec_parse_bool(v@) == Ok::<bool, ScriptErrorV>(b),
            Err(e) => spec_parse_bool(v@) == Err::<bool, ScriptErrorV>(e@),
        },
{
    let n: usize = v.as_str().unicode_len();
    let t = range_matches_keyword(v.as_str(), 0, n, "TRUE");
    let f = range_matches_keyword(v.as_str(), 0, n, "FALSE");
    proof {
        assert(v@.subrange(0, n as int) =~= v@);
    }
    if t {
        Ok(true)
    } else if f {
        Ok(false)
    } else {
        Err(ScriptError::Syntax(v.clone()))
    }
}

/// A router block while it is being read.
pub struct RouterDraft {
    pub name: String,
    pub collateral_assets: Vec<CollateralSpec>,
    pub portfolio_margin: Option<PortfolioMargin>,
    pub cap_ttl_ms: Option<u64>,
    pub reservation_batch_ms: Option<u64>,
    pub capabilities: Vec<CapabilitySpec>,
}

/// A slab block while it is being read.
pub struct SlabDraft {
    pub name: String,
    pub maker_class: Option<MakerClass>,
    pub matching: Option<Matching>,
    pub fee: Option<Fee>,
    pub risk: Option<Risk>,
    pub anti_toxicity: Option<AntiToxicity>,
    pub batch_window_ms: Option<u64>,
    pub oracle: Option<String>,
}

/// An oracle block while it is being read.
pub struct OracleDraft {
    pub name: String,
    pub heartbeat_ms: Option<u64>,
    pub kill_band_router_ref: Option<String>,
}

/// Where the parser stands: between blocks, or inside one of the three
/// block forms.
pub enum Draft {
    Outside,
    InRouter(RouterDraft),
    InSlab(SlabDraft),
    InOracle(OracleDraft),
}


/// A router block under construction has the image of a router.
impl View for RouterDraft {
    type V = RouterV;

    open spec fn view(&self) -> RouterV {
        RouterV {
            name: self.name@,
            collateral_assets: view_collaterals(self.collateral_assets@),
            portfolio_margin: view_opt_pm(self.portfolio_margin),
            cap_ttl_ms: self.cap_ttl_ms,
            reservation_batch_ms: self.reservation_batch_ms,
            capabilities: view_caps(self.capabilities@),
        }
    }
}

/// The mathematical image of a slab block under construction.
pub struct SlabDraftV {
    pub name: Seq<char>,
    pub maker_class: Option<MakerClassV>,
    pub matching: Option<Matching>,
    pub fee: Option<Fee>,
    pub risk: Option<Risk>,
    pub anti_toxicity: Option<AntiToxicity>,
    pub batch_window_ms: Option<u64>,
    pub oracle: Option<Seq<char>>,
}

/// An optional maker class's image.
pub open spec fn view_opt_maker(o: Option<MakerClass>) -> Option<MakerClassV> {
    match o {
        Some(m) => Some(m@),
        None => None,
    }
}

impl View for SlabDraft {
    type V = SlabDraftV;

    open spec fn view(&self) -> SlabDraftV {
        SlabDraftV {
            name: self.name@,
            maker_class: view_opt_maker(self.maker_class),
            matching: self.matching,
            fee: self.fee,
            risk: self.risk,
            anti_toxicity: self.anti_toxicity,
            batch_window_ms: self.batch_window_ms,
            oracle: view_opt_text(self.oracle),
        }
    }
}

/// The mathematical image of an oracle block under construction.
pub struct OracleDraftV {
    pub name: Seq<char>,
    pub heartbeat_ms: Option<u64>,
    pub kill_band_router_ref: Option<Seq<char>>,
}

impl View for OracleDraft {
    type V = OracleDraftV;

    open spec fn view(&self) -> OracleDraftV {
        OracleDraftV {
            name: self.name@,
            heartbeat_ms: self.heartbeat_ms,
            kill_band_router_ref: view_opt_text(self.kill_band_router_ref),
        }
    }
}

/// What one router statement does to the block under construction, or its
/// error, exactly as the table of statements prescribes.
pub open spec fn spec_router_stmt(
    d: RouterV,
    toks: Seq<(Seq<char>, bool)>,
    line: Seq<char>,
) -> Result<RouterV, ScriptErrorV>
    recommends
        toks.len() >= 1,
{
    let kw = toks[0].0;
    if kw == "COLLATERAL"@ {
        match spec_kv_from(toks, 1) {
            None => Err(ScriptErrorV::Syntax(line)),
            Some(ps) => match kv_lookup(ps, "asset"@, 0) {
                None => Err(ScriptErrorV::MissingField("asset"@)),
                Some(asset) => match kv_lookup(ps, "vault_cap"@, 0) {
                    None => Err(ScriptErrorV::MissingField("vault_cap"@)),
                    Some(v) => match spec_parse_num(v, 0xFFFF_FFFF_FFFF_FFFF) {
                        Err(e) => Err(e),
                        Ok(x) => Ok(
                            RouterV {
                                collateral_assets: d.collateral_assets.push(
                                    CollateralV { asset, vault_cap: x as u64 },
                                ),
                                ..d
                            },
                        ),
                    },
                },
            },
        }
    } else if kw == "PORTFOLIO_MARGIN"@ {
        if d.portfolio_margin is Some {
            Err(ScriptErrorV::UnexpectedToken(line))
        } else {
            match spec_kv_from(toks, 1) {
                None => Err(ScriptErrorV::Syntax(line)),
                Some(ps) => match kv_lookup(ps, "model"@, 0) {
                    None => Err(ScriptErrorV::MissingField("model"@)),
                    Some(model) => match kv_lookup(ps, "correl_matrix"@, 0) {
                        None => Err(ScriptErrorV::MissingField("correl_matrix"@)),
                        Some(correl) => Ok(
                            RouterV {
                                portfolio_margin: Some(
                                    PortfolioMarginV { model, correl_matrix: correl },
                                ),
                                ..d
                            },
                        ),
                    },
                },
            }
        }
    } else if kw == "CAP_TTL"@ {
        if d.cap_ttl_ms is Some {
            Err(ScriptErrorV::UnexpectedToken(line))
        } else {
            match spec_kv_from(toks, 1) {
                None => Err(ScriptErrorV::Syntax(line)),
                Some(ps) => match kv_lookup(ps, "ms"@, 0) {
                    None => Err(ScriptErrorV::MissingField("ms"@)),
                    Some(v) => match spec_parse_num(v, 0xFFFF_FFFF_FFFF_FFFF) {
                        Err(e) => Err(e),
                        Ok(x) => Ok(RouterV { cap_ttl_ms: Some(x as u64), ..d }),
                    },
                },
            }
        }
    } else if kw == "RESERVATION_BATCH"@ {
        if d.reservation_batch_ms is Some {
            Err(ScriptErrorV::UnexpectedToken(line))
        } else {
            match spec_kv_from(toks, 1) {
                None => Err(ScriptErrorV::Syntax(line)),
                Some(ps) => match kv_lookup(ps, "ms"@, 0) {
                    None => Err(ScriptErrorV::MissingField("ms"@)),
                    Some(v) => match spec_parse_num(v, 0xFFFF_FFFF_FFFF_FFFF) {
                        Err(e) => Err(e),
                        Ok(x) => Ok(RouterV { reservation_batch_ms: Some(x as u64), ..d }),
                    },
                },
            }
        }
    } else if kw == "CAP"@ {
        match spec_kv_from(toks, 1) {
            None => Err(ScriptErrorV::Syntax(line)),
            Some(ps) => match kv_lookup(ps, "name"@, 0) {
                None => Err(ScriptErrorV::MissingField("name"@)),
                Some(name) => match kv_lookup(ps, "asset"@, 0) {
                    None => Err(ScriptErrorV::MissingField("asset"@)),
                    Some(asset) => match kv_lookup(ps, "limit"@, 0) {
                        None => Err(ScriptErrorV::MissingField("limit"@)),
                        Some(lv) => match spec_parse_num(lv, u128::MAX as int) {
                            Err(e) => Err(e),
                            Ok(limit) => match kv_lookup(ps, "ttl_ms"@, 0) {
                                Some(tv) => match spec_parse_num(tv, 0xFFFF_FFFF_FFFF_FFFF) {
                                    Err(e) => Err(e),
                                    Ok(t) => Ok(
                                        RouterV {
                                            capabilities: d.capabilities.push(
                                                CapV {
                                                    name,
                                                    asset,
                                                    limit,
                                                    ttl_ms: Some(t as u64),
                                                },
                                            ),
                                            ..d
                                        },
                                    ),
                                },
                                None => Ok(
                                    RouterV {
                                        capabilities: d.capabilities.push(
                                            CapV { name, asset, limit, ttl_ms: None },
                                        ),
                                        ..d
                                    },
                                ),
                            },
                        },
                    },
                },
            },
        }
    } else {
        Err(ScriptErrorV::UnknownStatement(toks[0].0))
    }
}

/// What one slab statement does to the block under construction, or its
/// error.
pub open spec fn spec_slab_stmt(
    d: SlabDraftV,
    toks: Seq<(Seq<char>, bool)>,
    line: Seq<char>,
) -> Result<SlabDraftV, ScriptErrorV>
    recommends
        toks.len() >= 1,
{
    let kw = toks[0].0;
    if kw == "MAKER_CLASS"@ {
        if toks.len() < 2 {
            Err(ScriptErrorV::Syntax(line))
        } else {
            match spec_kv_from(toks, 2) {
                None => Err(ScriptErrorV::Syntax(line)),
                Some(ps) => match kv_lookup(ps, "allowance"@, 0) {
                    None => Err(ScriptErrorV::MissingField("allowance"@)),
                    Some(v) => match spec_parse_num(v, 0xFFFF_FFFF_FFFF_FFFF) {
                        Err(e) => Err(e),
                        Ok(x) => Ok(
                            SlabDraftV {
                                maker_class: Some(
                                    MakerClassV { class: toks[1].0, allowance: x as u64 },
                                ),
                                ..d
                            },
                        ),
                    },
                },
            }
        }
    } else if kw == "MATCHING"@ {
        match spec_kv_from(toks, 1) {
            None => Err(ScriptErrorV::Syntax(line)),
            Some(ps) => match kv_lookup(ps, "fifo"@, 0) {
                None => Err(ScriptErrorV::MissingField("fifo"@)),
                Some(fv) => match spec_parse_bool(fv) {
                    Err(e) => Err(e),
                    Ok(fifo) => match kv_lookup(ps, "pending_promotion"@, 0) {
                        None => Err(ScriptErrorV::MissingField("pending_promotion"@)),
                        Some(pv) => match spec_parse_bool(pv) {
                            Err(e) => Err(e),
                            Ok(pending) => Ok(
                                SlabDraftV {
                                    matching: Some(
                                        Matching { fifo, pending_promotion: pending },
                                    ),
                                    ..d
                                },
                            ),
                        },
                    },
                },
            },
        }
    } else if kw == "FEE"@ {
        match spec_kv_from(toks, 1) {
            None => Err(ScriptErrorV::Syntax(line)),
            Some(ps) => match kv_lookup(ps, "maker_bps"@, 0) {
                None => Err(ScriptErrorV::MissingField("maker_bps"@)),
                Some(mv) => match spec_parse_num(mv, 0xFFFF) {
                    Err(e) => Err(e),
                    Ok(maker) => match kv_lookup(ps, "taker_bps"@, 0) {
                        None => Err(ScriptErrorV::MissingField("taker_bps"@)),
                        Some(tv) => match spec_parse_num(tv, 0xFFFF) {
                            Err(e) => Err(e),
                            Ok(taker) => match kv_lookup(ps, "rebate_delay_ms"@, 0) {
                                None => Err(ScriptErrorV::MissingField("rebate_delay_ms"@)),
                                Some(rv) => match spec_parse_num(rv, 0xFFFF_FFFF_FFFF_FFFF) {
                                    Err(e) => Err(e),
                                    Ok(rebate) => Ok(
                                        SlabDraftV {
                                            fee: Some(
                                                Fee {
                                                    maker_bps: maker as u16,
                                                    taker_bps: taker as u16,
                                                    rebate_delay_ms: rebate as u64,
                                                },
                                            ),
                                            ..d
                                        },
                                    ),
                                },
                            },
                        },
                    },
                },
            },
        }
    } else if kw == "RISK"@ {
        match spec_kv_from(toks, 1) {
            None => Err(ScriptErrorV::Syntax(line)),
            Some(ps) => match kv_lookup(ps, "imr_bps"@, 0) {
                None => Err(ScriptErrorV::MissingField("imr_bps"@)),
                Some(iv) => match spec_parse_num(iv, 0xFFFF) {
                    Err(e) => Err(e),
                    Ok(imr) => match kv_lookup(ps, "mmr_bps"@, 0) {
                        None => Err(ScriptErrorV::MissingField("mmr_bps"@)),
                        Some(mv) => match spec_parse_num(mv, 0xFFFF) {
                            Err(e) => Err(e),
                            Ok(mmr) => Ok(
                                SlabDraftV {
                                    risk: Some(
                                        Risk { imr_bps: imr as u16, mmr_bps: mmr as u16 },
                                    ),
                                    ..d
                                },
                            ),
                        },
                    },
                },
            },
        }
    } else if kw == "ANTI_TOXICITY"@ {
        match spec_kv_from(toks, 1) {
            None => Err(ScriptErrorV::Syntax(line)),
            Some(ps) => match kv_lookup(ps, "kill_band_bps"@, 0) {
                None => Err(ScriptErrorV::MissingField("kill_band_bps"@)),
                Some(kv) => match spec_parse_num(kv, 0xFFFF) {
                    Err(e) => Err(e),
                    Ok(kill) => match kv_lookup(ps, "jit_penalty"@, 0) {
                        None => Err(ScriptErrorV::MissingField("jit_penalty"@)),
                        Some(jv) => match spec_parse_bool(jv) {
                            Err(e) => Err(e),
                            Ok(jit) => match kv_lookup(ps, "arg_tax_bps"@, 0) {
                                Some(av) => match spec_parse_num(av, 0xFFFF) {
                                    Err(e) => Err(e),
                                    Ok(tax) => Ok(
                                        SlabDraftV {
                                            anti_toxicity: Some(
                                                AntiToxicity {
                                                    kill_band_bps: kill as u16,
                                                    jit_penalty: jit,
                                                    arg_tax_bps: Some(tax as u16),
                                                },
                                            ),
                                            ..d
                                        },
                                    ),
                                },
                                None => Ok(
                                    SlabDraftV {
                                        anti_toxicity: Some(
                                            AntiToxicity {
                                                kill_band_bps: kill as u16,
                                                jit_penalty: jit,
                                                arg_tax_bps: None,
                                            },
                                        ),
                                        ..d
                                    },
                                ),
                            },
                        },
                    },
                },
            },
        }
    } else if kw == "BATCH_WINDOW"@ {
        match spec_kv_from(toks, 1) {
            None => Err(ScriptErrorV::Syntax(line)),
            Some(ps) => match kv_lookup(ps, "ms"@, 0) {
                None => Err(ScriptErrorV::MissingField("ms"@)),
                Some(v) => match spec_parse_num(v, 0xFFFF_FFFF_FFFF_FFFF) {
                    Err(e) => Err(e),
                    Ok(x) => Ok(SlabDraftV { batch_window_ms: Some(x as u64), ..d }),
                },
            },
        }
    } else if kw == "ORACLE_LINK"@ {
        match spec_kv_from(toks, 1) {
            None => Err(ScriptErrorV::Syntax(line)),
            Some(ps) => match kv_lookup(ps, "id"@, 0) {
                None => Err(ScriptErrorV::MissingField("id"@)),
                Some(v) => Ok(SlabDraftV { oracle: Some(v), ..d }),
            },
        }
    } else {
        Err(ScriptErrorV::UnknownStatement(toks[0].0))
    }
}

/// What one oracle statement does to the block under construction, or its
/// error.
pub open spec fn spec_oracle_stmt(
    d: OracleDraftV,
    toks: Seq<(Seq<char>, bool)>,
    line: Seq<char>,
) -> Result<OracleDraftV, ScriptErrorV>
    recommends
        toks.len() >= 1,
{
    let kw = toks[0].0;
    if kw == "HEARTBEAT"@ {
        match spec_kv_from(toks, 1) {
            None => Err(ScriptErrorV::Syntax(line)),
            Some(ps) => match kv_lookup(ps, "ms"@, 0) {
                None => Err(ScriptErrorV::MissingField("ms"@)),
                Some(v) => match spec_parse_num(v, 0xFFFF_FFFF_FFFF_FFFF) {
                    Err(e) => Err(e),
                    Ok(x) => Ok(OracleDraftV { heartbeat_ms: Some(x as u64), ..d }),
                },
            },
        }
    } else if kw == "KILL_BAND_SYNC"@ {
        match spec_kv_from(toks, 1) {
            None => Err(ScriptErrorV::Syntax(line)),
            Some(ps) => match kv_lookup(ps, "router_ref"@, 0) {
                None => Err(ScriptErrorV::MissingField("router_ref"@)),
                Some(v) => Ok(OracleDraftV { kill_band_router_ref: Some(v), ..d }),
            },
        }
    } else {
        Err(ScriptErrorV::UnknownStatement(toks[0].0))
    }
}

/// Handles one statement of a router block.
#[verifier::rlimit(100)]
fn router_stmt(d: &mut RouterDraft, tokens: &Vec<VToken>, line: &String) -> (r: Result<
    (),
    ScriptError,
>)
    requires
        tokens@.len() >= 1,
    ensures
        match r {
            Ok(_) => spec_router_stmt(old(d)@, view_toks(tokens@), line@) == Ok::<
                RouterV,
                ScriptErrorV,
            >(final(d)@),
            Err(e) => spec_router_stmt(old(d)@, view_toks(tokens@), line@) == Err::<
                RouterV,
                ScriptErrorV,
            >(e@) && *final(d) == *old(d),
        },
{
    proof {
        assert(view_toks(tokens@)[0] == tokens@[0]@);
    }
    let kw = tokens[0].text.as_str();
    if str_eq_str(kw, "COLLATERAL") {
        let pairs = match kv_pairs(tokens, 1) {
            Some(p) => p,
            None => {
                return Err(ScriptError::Syntax(line.clone()));
            },
        };
        let asset = match kv_get(&pairs, "asset") {
            Some(a) => a,
            None => {
                return Err(ScriptError::MissingField(String::from_str("asset")));
            },
        };
        let cap = match kv_get(&pairs, "vault_cap") {
            Some(v) => match parse_num(&v, 0xFFFF_FFFF_FFFF_FFFF) {
                Ok(x) => x as u64,
                Err(e) => {
                    return Err(e);
                },
            },
            None => {
                return Err(ScriptError::MissingField(String::from_str("vault_cap")));
            },
        };
        let ghost prev = d@;
        d.collateral_assets.push(CollateralSpec { asset, vault_cap: cap });
        proof {
            assert(view_collaterals(d.collateral_assets@) =~= prev.collateral_assets.push(
                d.collateral_assets@.last()@,
            ));
        }
        Ok(())
    } else if str_eq_str(kw, "PORTFOLIO_MARGIN") {
        if matches!(d.portfolio_margin, Some(_)) {
            return Err(ScriptError::UnexpectedToken(line.clone()));
        }
        let pairs = match kv_pairs(tokens, 1) {
            Some(p) => p,
            None => {
                return Err(ScriptError::Syntax(line.clone()));
            },
        };
        let model = match kv_get(&pairs, "model") {
            Some(m) => m,
            None => {
                return Err(ScriptError::MissingField(String::from_str("model")));
            },
        };
        let correl = match kv_get(&pairs, "correl_matrix") {
            Some(c) => c,
            None => {
                return Err(ScriptError::MissingField(String::from_str("correl_matrix")));
            },
        };
        d.portfolio_margin = Some(PortfolioMargin { model, correl_matrix: correl });
        Ok(())
    } else if str_eq_str(kw, "CAP_TTL") {
        if matches!(d.cap_ttl_ms, Some(_)) {
            return Err(ScriptError::UnexpectedToken(line.clone()));
        }
        let pairs = match kv_pairs(tokens, 1) {
            Some(p) => p,
            None => {
                return Err(ScriptError::Syntax(line.clone()));
            },
        };
        match kv_get(&pairs, "ms") {
            Some(v) => match parse_num(&v, 0xFFFF_FFFF_FFFF_FFFF) {
                Ok(x) => {
                    d.cap_ttl_ms = Some(x as u64);
                    Ok(())
                },
                Err(e) => Err(e),
            },
            None => Err(ScriptError::MissingField(String::from_str("ms"))),
        }
    } else if str_eq_str(kw, "RESERVATION_BATCH") {
        if matches!(d.reservation_batch_ms, Some(_)) {
            return Err(ScriptError::UnexpectedToken(line.clone()));
        }
        let pairs = match kv_pairs(tokens, 1) {
            Some(p) => p,
            None => {
                return Err(ScriptError::Syntax(line.clone()));
            },
        };
        match kv_get(&pairs, "ms") {
            Some(v) => match parse_num(&v, 0xFFFF_FFFF_FFFF_FFFF) {
                Ok(x) => {
                    d.reservation_batch_ms = Some(x as u64);
                    Ok(())
                },
                Err(e) => Err(e),
            },
            None => Err(ScriptError::MissingField(String::from_str("ms"))),
        }
    } else if str_eq_str(kw, "CAP") {
        let pairs = match kv_pairs(tokens, 1) {
            Some(p) => p,
            None => {
                return Err(ScriptError::Syntax(line.clone()));
            },
        };
        let name = match kv_get(&pairs, "name") {
            Some(v) => v,
            None => {
                return Err(ScriptError::MissingField(String::from_str("name")));
            },
        };
        let asset = match kv_get(&pairs, "asset") {
            Some(v) => v,
            None => {
                return Err(ScriptError::MissingField(String::from_str("asset")));
            },
        };
        let limit = match kv_get(&pairs, "limit") {
            Some(v) => match parse_num(&v, u128::MAX) {
                Ok(x) => x,
                Err(e) => {
                    return Err(e);
                },
            },
            None => {
                return Err(ScriptError::MissingField(String::from_str("limit")));
            },
        };
        let ttl = match kv_get(&pairs, "ttl_ms") {
            Some(v) => match parse_num(&v, 0xFFFF_FFFF_FFFF_FFFF) {
                Ok(x) => Some(x as u64),
                Err(e) => {
                    return Err(e);
                },
            },
            None => None,
        };
        let ghost prev = d@;
        d.capabilities.push(CapabilitySpec { name, asset, limit, ttl_ms: ttl });
        proof {
            assert(view_caps(d.capabilities@) =~= prev.capabilities.push(
                d.capabilities@.last()@,
            ));
        }
        Ok(())
    } else {
        Err(ScriptError::UnknownStatement(tokens[0].text.clone()))
    }
}

/// Handles one statement of a slab block.
#[verifier::rlimit(100)]
fn slab_stmt(d: &mut SlabDraft, tokens: &Vec<VToken>, line: &String) -> (r: Result<
    (),
    ScriptError,
>)
    requires
        tokens@.len() >= 1,
    ensures
        final(d).name == old(d).name,
        match r {
            Ok(_) => spec_slab_stmt(old(d)@, view_toks(tokens@), line@) == Ok::<
                SlabDraftV,
                ScriptErrorV,
            >(final(d)@),
            Err(e) => spec_slab_stmt(old(d)@, view_toks(tokens@), line@) == Err::<
                SlabDraftV,
                ScriptErrorV,
            >(e@) && *final(d) == *old(d),
        },
{
    proof {
        assert(view_toks(tokens@)[0] == tokens@[0]@);
        if tokens@.len() >= 2 {
            assert(view_toks(tokens@)[1] == tokens@[1]@);
        }
    }
    let kw = tokens[0].text.as_str();
    if str_eq_str(kw, "MAKER_CLASS") {
        if tokens.len() < 2 {
            return Err(ScriptError::Syntax(line.clone()));
        }
        let class = tokens[1].text.clone();
        let pairs = match kv_pairs(tokens, 2) {
            Some(p) => p,
            None => {
                return Err(ScriptError::Syntax(line.clone()));
            },
        };
        match kv_get(&pairs, "allowance") {
            Some(v) => match parse_num(&v, 0xFFFF_FFFF_FFFF_FFFF) {
                Ok(x) => {
                    d.maker_class = Some(MakerClass { class, allowance: x as u64 });
                    Ok(())
                },
                Err(e) => Err(e),
            },
            None => Err(ScriptError::MissingField(String::from_str("allowance"))),
        }
    } else if str_eq_str(kw, "MATCHING") {
        let pairs = match kv_pairs(tokens, 1) {
            Some(p) => p,
            None => {
                return Err(ScriptError::Syntax(line.clone()));
            },
        };
        let fifo = match kv_get(&pairs, "fifo") {
            Some(v) => match parse_bool(&v) {
                Ok(b) => b,
                Err(e) => {
                    return Err(e);
                },
            },
            None => {
                return Err(ScriptError::MissingField(String::from_str("fifo")));
            },
        };
        let pending = match kv_get(&pairs, "pending_promotion") {
            Some(v) => match parse_bool(&v) {
                Ok(b) => b,
                Err(e) => {
                    return Err(e);
                },
            },
            None => {
                return Err(ScriptError::MissingField(String::from_str("pending_promotion")));
            },
        };
        d.matching = Some(Matching { fifo, pending_promotion: pending });
        Ok(())
    } else if str_eq_str(kw, "FEE") {
        let pairs = match kv_pairs(tokens, 1) {
            Some(p) => p,
            None => {
                return Err(ScriptError::Syntax(line.clone()));
            },
        };
        let maker = match kv_get(&pairs, "maker_bps") {
            Some(v) => match parse_num(&v, 0xFFFF) {
                Ok(x) => x as u16,
                Err(e) => {
                    return Err(e);
                },
            },
            None => {
                return Err(ScriptError::MissingField(String::from_str("maker_bps")));
            },
        };
        let taker = match kv_get(&pairs, "taker_bps") {
            Some(v) => match parse_num(&v, 0xFFFF) {
                Ok(x) => x as u16,
                Err(e) => {
                    return Err(e);
                },
            },
            None => {
                return Err(ScriptError::MissingField(String::from_str("taker_bps")));
            },
        };
        let rebate = match kv_get(&pairs, "rebate_delay_ms") {
            Some(v) => match parse_num(&v, 0xFFFF_FFFF_FFFF_FFFF) {
                Ok(x) => x as u64,
                Err(e) => {
                    return Err(e);
                },
            },
            None => {
                return Err(ScriptError::MissingField(String::from_str("rebate_delay_ms")));
            },
        };
        d.fee = Some(Fee { maker_bps: maker, taker_bps: taker, rebate_delay_ms: rebate });
        Ok(())
    } else if str_eq_str(kw, "RISK") {
        let pairs = match kv_pairs(tokens, 1) {
            Some(p) => p,
            None => {
                return Err(ScriptError::Syntax(line.clone()));
            },
        };
        let imr = match kv_get(&pairs, "imr_bps") {
            Some(v) => match parse_num(&v, 0xFFFF) {
                Ok(x) => x as u16,
                Err(e) => {
                    return Err(e);
                },
            },
            None => {
                return Err(ScriptError::MissingField(String::from_str("imr_bps")));
            },
        };
        let mmr = match kv_get(&pairs, "mmr_bps") {
            Some(v) => match parse_num(&v, 0xFFFF) {
                Ok(x) => x as u16,
                Err(e) => {
                    return Err(e);
                },
            },
            None => {
                return Err(ScriptError::MissingField(String::from_str("mmr_bps")));
            },
        };
        d.risk = Some(Risk { imr_bps: imr, mmr_bps: mmr });
        Ok(())
    } else if str_eq_str(kw, "ANTI_TOXICITY") {
        let pairs = match kv_pairs(tokens, 1) {
            Some(p) => p,
            None => {
                return Err(ScriptError::Syntax(line.clone()));
            },
        };
        let kill = match kv_get(&pairs, "kill_band_bps") {
            Some(v) => match parse_num(&v, 0xFFFF) {
                Ok(x) => x as u16,
                Err(e) => {
                    return Err(e);
                },
            },
            None => {
                return Err(ScriptError::MissingField(String::from_str("kill_band_bps")));
            },
        };
        let jit = match kv_get(&pairs, "jit_penalty") {
            Some(v) => match parse_bool(&v) {
                Ok(b) => b,
                Err(e) => {
                    return Err(e);
                },
            },
            None => {
                return Err(ScriptError::MissingField(String::from_str("jit_penalty")));
            },
        };
        let arg_tax = match kv_get(&pairs, "arg_tax_bps") {
            Some(v) => match parse_num(&v, 0xFFFF) {
                Ok(x) => Some(x as u16),
                Err(e) => {
                    return Err(e);
                },
            },
            None => None,
        };
        d.anti_toxicity = Some(
            AntiToxicity { kill_band_bps: kill, jit_penalty: jit, arg_tax_bps: arg_tax },
        );
        Ok(())
    } else if str_eq_str(kw, "BATCH_WINDOW") {
        let pairs = match kv_pairs(tokens, 1) {
            Some(p) => p,
            None => {
                return Err(ScriptError::Syntax(line.clone()));
            },
        };
        match kv_get(&pairs, "ms") {
            Some(v) => match parse_num(&v, 0xFFFF_FFFF_FFFF_FFFF) {
                Ok(x) => {
                    d.batch_window_ms = Some(x as u64);
                    Ok(())
                },
                Err(e) => Err(e),
            },
            None => Err(ScriptError::MissingField(String::from_str("ms"))),
        }
    } else if str_eq_str(kw, "ORACLE_LINK") {
        let pairs = match kv_pairs(tokens, 1) {
            Some(p) => p,
            None => {
                return Err(ScriptError::Syntax(line.clone()));
            },
        };
        match kv_get(&pairs, "id") {
            Some(v) => {
                d.oracle = Some(v);
                Ok(())
            },
            None => Err(ScriptError::MissingField(String::from_str("id"))),
        }
    } else {
        Err(ScriptError::UnknownStatement(tokens[0].text.clone()))
    }
}

/// Handles one statement of an oracle block.
fn oracle_stmt(d: &mut OracleDraft, tokens: &Vec<VToken>, line: &String) -> (r: Result<
    (),
    ScriptError,
>)
    requires
        tokens@.len() >= 1,
    ensures
        final(d).name == old(d).name,
        match r {
            Ok(_) => spec_oracle_stmt(old(d)@, view_toks(tokens@), line@) == Ok::<
                OracleDraftV,
                ScriptErrorV,
            >(final(d)@),
            Err(e) => spec_oracle_stmt(old(d)@, view_toks(tokens@), line@) == Err::<
                OracleDraftV,
                ScriptErrorV,
            >(e@) && *final(d) == *old(d),
        },
{
    proof {
        assert(view_toks(tokens@)[0] == tokens@[0]@);
    }
    let kw = tokens[0].text.as_str();
    if str_eq_str(kw, "HEARTBEAT") {
        let pairs = match kv_pairs(tokens, 1) {
            Some(p) => p,
            None => {
                return Err(ScriptError::Syntax(line.clone()));
            },
        };
        match kv_get(&pairs, "ms") {
            Some(v) => match parse_num(&v, 0xFFFF_FFFF_FFFF_FFFF) {
                Ok(x) => {
                    d.heartbeat_ms = Some(x as u64);
                    Ok(())
                },
                Err(e) => Err(e),
            },
            None => Err(ScriptError::MissingField(String::from_str("ms"))),
        }
    } else if str_eq_str(kw, "KILL_BAND_SYNC") {
        let pairs = match kv_pairs(tokens, 1) {
            Some(p) => p,
            None => {
                return Err(ScriptError::Syntax(line.clone()));
            },
        };
        match kv_get(&pairs, "router_ref") {
            Some(v) => {
                d.kill_band_router_ref = Some(v);
                Ok(())
            },
            None => Err(ScriptError::MissingField(String::from_str("router_ref"))),
        }
    } else {
        Err(ScriptError::UnknownStatement(tokens[0].text.clone()))
    }
}


/// Where the spec parser stands: between blocks, or inside one block form.
pub enum DraftV {
    Outside,
    InRouter(RouterV),
    InSlab(SlabDraftV),
    InOracle(OracleDraftV),
}

impl View for Draft {
    type V = DraftV;

    open spec fn view(&self) -> DraftV {
        match self {
            Draft::Outside => DraftV::Outside,
            Draft::InRouter(d) => DraftV::InRouter(d@),
            Draft::InSlab(d) => DraftV::InSlab(d@),
            Draft::InOracle(d) => DraftV::InOracle(d@),
        }
    }
}

/// The whole parser state: what is finished, and the open block.
pub struct StV {
    pub router: Option<RouterV>,
    pub slabs: Seq<SlabV>,
    pub oracles: Seq<OracleV>,
    pub draft: DraftV,
}

/// An optional router's image.
pub open spec fn view_opt_router(o: Option<Router>) -> Option<RouterV> {
    match o {
        Some(r) => Some(r@),
        None => None,
    }
}

/// What one line does to the parser state: nothing for a blank or comment
/// line, a block opening or closing, or one statement of the open block;
/// or the line's error.
pub open spec fn spec_line_step(st: StV, line: Seq<char>) -> Result<StV, ScriptErrorV> {
    let t = spec_trim(line);
    if t.len() == 0 {
        Ok(st)
    } else if t[0] == '#' {
        Ok(st)
    } else {
        match venue_tokens(t) {
            None => Err(ScriptErrorV::Syntax(t)),
            Some(toks) => if toks.len() == 0 {
                Ok(st)
            } else {
                let is_close = toks.len() == 1 && toks[0].0 == "}"@ && !toks[0].1;
                match st.draft {
                    DraftV::Outside => spec_open_block(st, t, toks, is_close),
                    DraftV::InRouter(d) => if is_close {
                        if d.collateral_assets.len() == 0 {
                            Err(ScriptErrorV::MissingField("COLLATERAL"@))
                        } else {
                            Ok(StV { router: Some(d), draft: DraftV::Outside, ..st })
                        }
                    } else {
                        match spec_router_stmt(d, toks, t) {
                            Err(e) => Err(e),
                            Ok(d2) => Ok(StV { draft: DraftV::InRouter(d2), ..st }),
                        }
                    },
                    DraftV::InSlab(d) => if is_close {
                        match d.maker_class {
                            None => Err(ScriptErrorV::MissingField("MAKER_CLASS"@)),
                            Some(mk) => match d.fee {
                                None => Err(ScriptErrorV::MissingField("FEE"@)),
                                Some(fee) => match d.risk {
                                    None => Err(ScriptErrorV::MissingField("RISK"@)),
                                    Some(risk) => Ok(
                                        StV {
                                            slabs: st.slabs.push(
                                                SlabV {
                                                    name: d.name,
                                                    maker_class: mk,
                                                    matching: d.matching,
                                                    fee,
                                                    risk,
                                                    anti_toxicity: d.anti_toxicity,
                                                    batch_window_ms: d.batch_window_ms,
                                                    oracle: d.oracle,
                                                },
                                            ),
                                            draft: DraftV::Outside,
                                            ..st
                                        },
                                    ),
                                },
                            },
                        }
                    } else {
                        match spec_slab_stmt(d, toks, t) {
                            Err(e) => Err(e),
                            Ok(d2) => Ok(StV { draft: DraftV::InSlab(d2), ..st }),
                        }
                    },
                    DraftV::InOracle(d) => if is_close {
                        match d.heartbeat_ms {
                            None => Err(ScriptErrorV::MissingField("HEARTBEAT"@)),
                            Some(hb) => Ok(
                                StV {
                                    oracles: st.oracles.push(
                                        OracleV {
                                            name: d.name,
                                            heartbeat_ms: hb,
                                            kill_band_router_ref: d.kill_band_router_ref,
                                        },
                                    ),
                                    draft: DraftV::Outside,
                                    ..st
                                },
                            ),
                        }
                    } else {
                        match spec_oracle_stmt(d, toks, t) {
                            Err(e) => Err(e),
                            Ok(d2) => Ok(StV { draft: DraftV::InOracle(d2), ..st }),
                        }
                    },
                }
            },
        }
    }
}

/// What a line between blocks does: it must open a router, slab or oracle
/// block, with duplicate blocks rejected at the opener.
pub open spec fn spec_open_block(
    st: StV,
    t: Seq<char>,
    toks: Seq<(Seq<char>, bool)>,
    is_close: bool,
) -> Result<StV, ScriptErrorV>
    recommends
        toks.len() >= 1,
{
    if is_close {
        Err(ScriptErrorV::UnexpectedToken(t))
    } else if !(toks[toks.len() - 1].1 == false && toks[toks.len() - 1].0 == "{"@) {
        Err(ScriptErrorV::UnexpectedToken(t))
    } else if !toks[0].1 && toks[0].0 == "ROUTER"@ {
        if st.router is Some {
            Err(ScriptErrorV::DuplicateRouter)
        } else if toks.len() == 2 {
            Ok(StV { draft: DraftV::InRouter(fresh_router("ROUTER"@)), ..st })
        } else if toks.len() == 3 && toks[1].1 {
            Ok(StV { draft: DraftV::InRouter(fresh_router(toks[1].0)), ..st })
        } else {
            Err(ScriptErrorV::UnexpectedToken(t))
        }
    } else if !toks[0].1 && toks[0].0 == "SLAB"@ {
        if toks.len() != 3 || !toks[1].1 {
            Err(ScriptErrorV::UnexpectedToken(t))
        } else if exists|k: int| 0 <= k < st.slabs.len() && (#[trigger] st.slabs[k]).name == toks[1].0 {
            Err(ScriptErrorV::DuplicateSlab(toks[1].0))
        } else {
            Ok(StV { draft: DraftV::InSlab(fresh_slab(toks[1].0)), ..st })
        }
    } else if !toks[0].1 && toks[0].0 == "ORACLE"@ {
        if toks.len() != 3 || !toks[1].1 {
            Err(ScriptErrorV::UnexpectedToken(t))
        } else if exists|k: int| 0 <= k < st.oracles.len() && (#[trigger] st.oracles[k]).name == toks[1].0 {
            Err(ScriptErrorV::DuplicateOracle(toks[1].0))
        } else {
            Ok(StV { draft: DraftV::InOracle(fresh_oracle(toks[1].0)), ..st })
        }
    } else {
        Err(ScriptErrorV::Syntax(t))
    }
}

/// A fresh router block with the given name.
pub open spec fn fresh_router(name: Seq<char>) -> RouterV {
    RouterV {
        name,
        collateral_assets: seq![],
        portfolio_margin: None,
        cap_ttl_ms: None,
        reservation_batch_ms: None,
        capabilities: seq![],
    }
}

/// A fresh slab block with the given name.
pub open spec fn fresh_slab(name: Seq<char>) -> SlabDraftV {
    SlabDraftV {
        name,
        maker_class: None,
        matching: None,
        fee: None,
        risk: None,
        anti_toxicity: None,
        batch_window_ms: None,
        oracle: None,
    }
}

/// A fresh oracle block with the given name.
pub open spec fn fresh_oracle(name: Seq<char>) -> OracleDraftV {
    OracleDraftV { name, heartbeat_ms: None, kill_band_router_ref: None }
}

/// What the end of the script yields: the assembled script, or the error
/// for an unterminated block or a missing router.
pub open spec fn spec_finalize(st: StV) -> Result<ScriptV, ScriptErrorV> {
    match st.draft {
        DraftV::Outside => match st.router {
            Some(r) => Ok(ScriptV { router: r, slabs: st.slabs, oracles: st.oracles }),
            None => Err(ScriptErrorV::MissingRouter),
        },
        _ => Err(ScriptErrorV::MissingBlockTerminator),
    }
}

/// The spec parser from position `pos` on, threading the state line by
/// line.
pub open spec fn spec_parse_from(src: Seq<char>, pos: int, st: StV) -> Result<
    ScriptV,
    ScriptErrorV,
>
    decreases src.len() + 1 - pos,
    via spec_parse_from_dec
{
    if pos < 0 || pos >= src.len() {
        spec_finalize(st)
    } else {
        let j = next_newline(src, pos);
        match spec_line_step(st, src.subrange(pos, j)) {
            Err(e) => Err(e),
            Ok(st2) => spec_parse_from(
                src,
                if j < src.len() {
                    j + 1
                } else {
                    src.len() as int
                },
                st2,
            ),
        }
    }
}

#[via_fn]
proof fn spec_parse_from_dec(src: Seq<char>, pos: int, st: StV) {
    if 0 <= pos < src.len() {
        lemma_next_newline_bounds(src, pos);
    }
}

/// What `parse_script` returns on a text: the state machine of
/// `spec_line_step` run over the lines, then finalized.
pub open spec fn spec_parse_script(src: Seq<char>) -> Result<ScriptV, ScriptErrorV> {
    spec_parse_from(
        src,
        0,
        StV { router: None, slabs: seq![], oracles: seq![], draft: DraftV::Outside },
    )
}

/// Parses a venue script into its AST: exactly the line-by-line state
/// machine of `spec_line_step`, finalized at end of input — so success,
/// the resulting AST, and every structural error (duplicate or missing
/// router, duplicate slab or oracle, unknown statement, missing field,
/// unterminated block, a `ROUTER` head defaulting its name) are all fixed
/// by the text. On success slab and oracle names are pairwise distinct
/// and the router holds at least one collateral asset.
#[verifier::rlimit(100)]
pub fn parse_script(src: &str) -> (r: Result<Script, ScriptError>)
    ensures
        match r {
            Ok(sc) => spec_parse_script(src@) == Ok::<ScriptV, ScriptErrorV>(sc@),
            Err(e) => spec_parse_script(src@) == Err::<ScriptV, ScriptErrorV>(e@),
        },
        r matches Ok(sc) ==> distinct_slab_names(sc.slabs@) && distinct_oracle_names(sc.oracles@)
            && sc.router.collateral_assets@.len() >= 1,
{
    let n: usize = src.unicode_len();
    let mut router: Option<Router> = None;
    let mut slabs: Vec<Slab> = Vec::new();
    let mut oracles: Vec<Oracle> = Vec::new();
    let mut draft: Draft = Draft::Outside;
    let mut pos: usize = 0;
    proof {
        assert(view_slab_seq(slabs@) =~= Seq::<SlabV>::empty());
        assert(view_oracle_seq(oracles@) =~= Seq::<OracleV>::empty());
    }
    while pos < n
        invariant
            pos <= n,
            n == src@.len(),
            distinct_slab_names(slabs@),
            distinct_oracle_names(oracles@),
            router matches Some(rt) ==> rt.collateral_assets@.len() >= 1,
            draft matches Draft::InSlab(d) ==> forall|m: int|
                0 <= m < slabs@.len() ==> (#[trigger] slabs@[m]).name@ != d.name@,
            draft matches Draft::InOracle(d) ==> forall|m: int|
                0 <= m < oracles@.len() ==> (#[trigger] oracles@[m]).name@ != d.name@,
            spec_parse_from(
                src@,
                pos as int,
                StV {
                    router: view_opt_router(router),
                    slabs: view_slab_seq(slabs@),
                    oracles: view_oracle_seq(oracles@),
                    draft: draft@,
                },
            ) == spec_parse_script(src@),
        decreases n - pos,
    {
        let ghost st0 = StV {
            router: view_opt_router(router),
            slabs: view_slab_seq(slabs@),
            oracles: view_oracle_seq(oracles@),
            draft: draft@,
        };
        let ghost pos0 = pos as int;
        let j = find_newline(src, pos, n);
        let line_str = src.substring_char(pos, j);
        let ghost line = src@.subrange(pos0, j as int);
        pos = if j < n {
            j + 1
        } else {
            n
        };
        proof {
            assert(spec_parse_from(src@, pos0, st0) == (match spec_line_step(st0, line) {
                Err(e) => Err::<ScriptV, ScriptErrorV>(e),
                Ok(st2) => spec_parse_from(src@, pos as int, st2),
            }));
        }
        let ln: usize = line_str.unicode_len();
        let ts = find_nonspace(line_str, 0, ln);
        let te = find_trim_back(line_str, ln);
        let ghost t = spec_trim(line);
        if ts >= te {
            proof {
                assert(t.len() == 0);
                assert(spec_line_step(st0, line) == Ok::<StV, ScriptErrorV>(st0));
            }
            continue ;
        }
        let t_str = line_str.substring_char(ts, te);
        let trimmed = String::from_str(t_str);
        proof {
            assert(t_str@ == t);
        }
        if t_str.get_char(0) == '#' {
            proof {
                assert(spec_line_step(st0, line) == Ok::<StV, ScriptErrorV>(st0));
            }
            continue ;
        }
        let tn: usize = te - ts;
        let tokens = match tokenize_line(t_str, tn) {
            Some(tk) => tk,
            None => {
                proof {
                    assert(spec_line_step(st0, line) == Err::<StV, ScriptErrorV>(
                        ScriptErrorV::Syntax(t),
                    ));
                }
                return Err(ScriptError::Syntax(trimmed));
            },
        };
        let ghost vtoks = view_toks(tokens@);
        if tokens.len() == 0 {
            proof {
                assert(vtoks.len() == 0);
                assert(spec_line_step(st0, line) == Ok::<StV, ScriptErrorV>(st0));
            }
            continue ;
        }
        proof {
            assert(vtoks[0] == tokens@[0]@);
        }
        let is_close = tokens.len() == 1 && str_eq_str(tokens[0].text.as_str(), "}")
            && !tokens[0].quoted;
        let ghost spec_close = vtoks.len() == 1 && vtoks[0].0 == "}"@ && !vtoks[0].1;
        proof {
            assert(is_close == spec_close);
        }
        let current = draft;
        match current {
            Draft::Outside => {
                if is_close {
                    proof {
                        assert(spec_line_step(st0, line) == Err::<StV, ScriptErrorV>(
                            ScriptErrorV::UnexpectedToken(t),
                        ));
                    }
                    return Err(ScriptError::UnexpectedToken(trimmed));
                }
                let last = tokens.len() - 1;
                proof {
                    assert(vtoks[last as int] == tokens@[last as int]@);
                }
                let opens = !tokens[last].quoted && str_eq_str(tokens[last].text.as_str(), "{");
                if !opens {
                    proof {
                        assert(spec_line_step(st0, line) == Err::<StV, ScriptErrorV>(
                            ScriptErrorV::UnexpectedToken(t),
                        ));
                    }
                    return Err(ScriptError::UnexpectedToken(trimmed));
                }
                let head = tokens[0].text.as_str();
                if !tokens[0].quoted && str_eq_str(head, "ROUTER") {
                    if matches!(router, Some(_)) {
                        proof {
                            assert(spec_line_step(st0, line) == Err::<StV, ScriptErrorV>(
                                ScriptErrorV::DuplicateRouter,
                            ));
                        }
                        return Err(ScriptError::DuplicateRouter);
                    }
                    let name = if tokens.len() == 2 {
                        String::from_str("ROUTER")
                    } else if tokens.len() == 3 && tokens[1].quoted {
                        proof {
                            assert(vtoks[1] == tokens@[1]@);
                        }
                        tokens[1].text.clone()
                    } else {
                        proof {
                            assert(vtoks.len() >= 2 ==> vtoks[1] == tokens@[1]@);
                            assert(spec_line_step(st0, line) == Err::<StV, ScriptErrorV>(
                                ScriptErrorV::UnexpectedToken(t),
                            ));
                        }
                        return Err(ScriptError::UnexpectedToken(trimmed));
                    };
                    draft = Draft::InRouter(
                        RouterDraft {
                            name,
                            collateral_assets: Vec::new(),
                            portfolio_margin: None,
                            cap_ttl_ms: None,
                            reservation_batch_ms: None,
                            capabilities: Vec::new(),
                        },
                    );
                    proof {
                        let d2 = match &draft {
                            Draft::InRouter(dd) => dd@,
                            _ => fresh_router(""@),
                        };
                        assert(view_collaterals(Seq::<CollateralSpec>::empty()) =~= Seq::<
                            CollateralV,
                        >::empty());
                        assert(view_caps(Seq::<CapabilitySpec>::empty()) =~= Seq::<
                            CapV,
                        >::empty());
                        assert(d2 == fresh_router(name@));
                        assert(spec_line_step(st0, line) == Ok::<StV, ScriptErrorV>(
                            StV { draft: DraftV::InRouter(d2), ..st0 },
                        ));
                    }
                } else if !tokens[0].quoted && str_eq_str(head, "SLAB") {
                    if tokens.len() != 3 || !tokens[1].quoted {
                        proof {
                            assert(vtoks.len() >= 2 ==> vtoks[1] == tokens@[1]@);
                            assert(spec_line_step(st0, line) == Err::<StV, ScriptErrorV>(
                                ScriptErrorV::UnexpectedToken(t),
                            ));
                        }
                        return Err(ScriptError::UnexpectedToken(trimmed));
                    }
                    proof {
                        assert(vtoks[1] == tokens@[1]@);
                    }
                    let name = tokens[1].text.clone();
                    let ns: usize = slabs.len();
                    let mut found: bool = false;
                    let mut k: usize = 0;
                    while k < ns
                        invariant
                            k <= ns,
                            ns == slabs@.len(),
                            found == exists|m: int|
                                0 <= m < k && (#[trigger] slabs@[m]).name@ == name@,
                        decreases ns - k,
                    {
                        if str_eq_str(slabs[k].name.as_str(), name.as_str()) {
                            found = true;
                        }
                        k = k + 1;
                    }
                    if found {
                        proof {
                            let m = choose|m: int|
                                0 <= m < slabs@.len() && (#[trigger] slabs@[m]).name@ == name@;
                            assert(st0.slabs[m] == slabs@[m]@);
                            assert(st0.slabs[m].name == name@);
                            assert(spec_line_step(st0, line) == Err::<StV, ScriptErrorV>(
                                ScriptErrorV::DuplicateSlab(name@),
                            ));
                        }
                        return Err(ScriptError::DuplicateSlab(name));
                    }
                    proof {
                        assert forall|m: int| 0 <= m < st0.slabs.len() implies (
                        #[trigger] st0.slabs[m]).name != name@ by {
                            assert(st0.slabs[m] == slabs@[m]@);
                        }
                    }
                    draft = Draft::InSlab(
                        SlabDraft {
                            name,
                            maker_class: None,
                            matching: None,
                            fee: None,
                            risk: None,
                            anti_toxicity: None,
                            batch_window_ms: None,
                            oracle: None,
                        },
                    );
                    proof {
                        let d2 = match &draft {
                            Draft::InSlab(dd) => dd@,
                            _ => fresh_slab(""@),
                        };
                        assert(d2 == fresh_slab(vtoks[1].0));
                        assert(spec_line_step(st0, line) == Ok::<StV, ScriptErrorV>(
                            StV { draft: DraftV::InSlab(d2), ..st0 },
                        ));
                    }
                } else if !tokens[0].quoted && str_eq_str(head, "ORACLE") {
                    if tokens.len() != 3 || !tokens[1].quoted {
                        proof {
                            assert(vtoks.len() >= 2 ==> vtoks[1] == tokens@[1]@);
                            assert(spec_line_step(st0, line) == Err::<StV, ScriptErrorV>(
                                ScriptErrorV::UnexpectedToken(t),
                            ));
                        }
                        return Err(ScriptError::UnexpectedToken(trimmed));
                    }
                    proof {
                        assert(vtoks[1] == tokens@[1]@);
                    }
                    let name = tokens[1].text.clone();
                    let no: usize = oracles.len();
                    let mut found: bool = false;
                    let mut k: usize = 0;
                    while k < no
                        invariant
                            k <= no,
                            no == oracles@.len(),
                            found == exists|m: int|
                                0 <= m < k && (#[trigger] oracles@[m]).name@ == name@,
                        decreases no - k,
                    {
                        if str_eq_str(oracles[k].name.as_str(), name.as_str()) {
                            found = true;
                        }
                        k = k + 1;
                    }
                    if found {
                        proof {
                            let m = choose|m: int|
                                0 <= m < oracles@.len() && (#[trigger] oracles@[m]).name@
                                    == name@;
                            assert(st0.oracles[m] == oracles@[m]@);
                            assert(st0.oracles[m].name == name@);
                            assert(spec_line_step(st0, line) == Err::<StV, ScriptErrorV>(
                                ScriptErrorV::DuplicateOracle(name@),
                            ));
                        }
                        return Err(ScriptError::DuplicateOracle(name));
                    }
                    proof {
                        assert forall|m: int| 0 <= m < st0.oracles.len() implies (
                        #[trigger] st0.oracles[m]).name != name@ by {
                            assert(st0.oracles[m] == oracles@[m]@);
                        }
                    }
                    draft = Draft::InOracle(
                        OracleDraft { name, heartbeat_ms: None, kill_band_router_ref: None },
                    );
                    proof {
                        let d2 = match &draft {
                            Draft::InOracle(dd) => dd@,
                            _ => fresh_oracle(""@),
                        };
                        assert(d2 == fresh_oracle(vtoks[1].0));
                        assert(spec_line_step(st0, line) == Ok::<StV, ScriptErrorV>(
                            StV { draft: DraftV::InOracle(d2), ..st0 },
                        ));
                    }
                } else {
                    proof {
                        assert(spec_line_step(st0, line) == Err::<StV, ScriptErrorV>(
                            ScriptErrorV::Syntax(t),
                        ));
                    }
                    return Err(ScriptError::Syntax(trimmed));
                }
            },
            Draft::InRouter(mut d) => {
                if is_close {
                    if d.collateral_assets.len() == 0 {
                        proof {
                            assert(spec_line_step(st0, line) == Err::<StV, ScriptErrorV>(
                                ScriptErrorV::MissingField("COLLATERAL"@),
                            ));
                        }
                        return Err(ScriptError::MissingField(String::from_str("COLLATERAL")));
                    }
                    let ghost dv = d@;
                    router = Some(
                        Router {
                            name: d.name,
                            collateral_assets: d.collateral_assets,
                            portfolio_margin: d.portfolio_margin,
                            cap_ttl_ms: d.cap_ttl_ms,
                            reservation_batch_ms: d.reservation_batch_ms,
                            capabilities: d.capabilities,
                        },
                    );
                    draft = Draft::Outside;
                    proof {
                        assert(view_opt_router(router) == Some(dv));
                        assert(spec_line_step(st0, line) == Ok::<StV, ScriptErrorV>(
                            StV { router: Some(dv), draft: DraftV::Outside, ..st0 },
                        ));
                    }
                } else {
                    let ghost dv0 = d@;
                    match router_stmt(&mut d, &tokens, &trimmed) {
                        Ok(()) => {
                            draft = Draft::InRouter(d);
                            proof {
                                let d2 = match &draft {
                                    Draft::InRouter(dd) => dd@,
                                    _ => fresh_router(""@),
                                };
                                assert(spec_router_stmt(dv0, vtoks, t) == Ok::<
                                    RouterV,
                                    ScriptErrorV,
                                >(d2));
                                assert(spec_line_step(st0, line) == Ok::<StV, ScriptErrorV>(
                                    StV { draft: DraftV::InRouter(d2), ..st0 },
                                ));
                            }
                        },
                        Err(e) => {
                            proof {
                                assert(spec_line_step(st0, line) == Err::<StV, ScriptErrorV>(
                                    e@,
                                ));
                            }
                            return Err(e);
                        },
                    }
                }
            },
            Draft::InSlab(mut d) => {
                if is_close {
                    let ghost dv = d@;
                    let maker_class = match d.maker_class {
                        Some(m) => m,
                        None => {
                            proof {
                                assert(spec_line_step(st0, line) == Err::<StV, ScriptErrorV>(
                                    ScriptErrorV::MissingField("MAKER_CLASS"@),
                                ));
                            }
                            return Err(
                                ScriptError::MissingField(String::from_str("MAKER_CLASS")),
                            );
                        },
                    };
                    let fee = match d.fee {
                        Some(f) => f,
                        None => {
                            proof {
                                assert(spec_line_step(st0, line) == Err::<StV, ScriptErrorV>(
                                    ScriptErrorV::MissingField("FEE"@),
                                ));
                            }
                            return Err(ScriptError::MissingField(String::from_str("FEE")));
                        },
                    };
                    let risk = match d.risk {
                        Some(x) => x,
                        None => {
                            proof {
                                assert(spec_line_step(st0, line) == Err::<StV, ScriptErrorV>(
                                    ScriptErrorV::MissingField("RISK"@),
                                ));
                            }
                            return Err(ScriptError::MissingField(String::from_str("RISK")));
                        },
                    };
                    let ghost prev = slabs@;
                    let slab = Slab {
                        name: d.name,
                        maker_class,
                        matching: d.matching,
                        fee,
                        risk,
                        anti_toxicity: d.anti_toxicity,
                        batch_window_ms: d.batch_window_ms,
                        oracle: d.oracle,
                    };
                    let ghost slabv = slab@;
                    slabs.push(slab);
                    proof {
                        assert(forall|m: int|
                            0 <= m < prev.len() ==> slabs@[m] == #[trigger] prev[m]);
                        assert(slabs@.last()@ == slabv);
                        assert(distinct_slab_names(slabs@));
                        assert(view_slab_seq(slabs@) =~= st0.slabs.push(slabv));
                    }
                    draft = Draft::Outside;
                    proof {
                        assert(spec_line_step(st0, line) == Ok::<StV, ScriptErrorV>(
                            StV { slabs: st0.slabs.push(slabv), draft: DraftV::Outside, ..st0 },
                        ));
                    }
                } else {
                    let ghost dv0 = d@;
                    match slab_stmt(&mut d, &tokens, &trimmed) {
                        Ok(()) => {
                            draft = Draft::InSlab(d);
                            proof {
                                let d2 = match &draft {
                                    Draft::InSlab(dd) => dd@,
                                    _ => fresh_slab(""@),
                                };
                                assert(spec_slab_stmt(dv0, vtoks, t) == Ok::<
                                    SlabDraftV,
                                    ScriptErrorV,
                                >(d2));
                                assert(spec_line_step(st0, line) == Ok::<StV, ScriptErrorV>(
                                    StV { draft: DraftV::InSlab(d2), ..st0 },
                                ));
                            }
                        },
                        Err(e) => {
                            proof {
                                assert(spec_line_step(st0, line) == Err::<StV, ScriptErrorV>(
                                    e@,
                                ));
                            }
                            return Err(e);
                        },
                    }
                }
            },
            Draft::InOracle(mut d) => {
                if is_close {
                    let ghost dv = d@;
                    let hb = match d.heartbeat_ms {
                        Some(h) => h,
                        None => {
                            proof {
                                assert(spec_line_step(st0, line) == Err::<StV, ScriptErrorV>(
                                    ScriptErrorV::MissingField("HEARTBEAT"@),
                                ));
                            }
                            return Err(ScriptError::MissingField(String::from_str("HEARTBEAT")));
                        },
                    };
                    let ghost prev = oracles@;
                    let orc = Oracle {
                        name: d.name,
                        heartbeat_ms: hb,
                        kill_band_router_ref: d.kill_band_router_ref,
                    };
                    let ghost orcv = orc@;
                    oracles.push(orc);
                    proof {
                        assert(forall|m: int|
                            0 <= m < prev.len() ==> oracles@[m] == #[trigger] prev[m]);
                        assert(oracles@.last()@ == orcv);
                        assert(distinct_oracle_names(oracles@));
                        assert(view_oracle_seq(oracles@) =~= st0.oracles.push(orcv));
                    }
                    draft = Draft::Outside;
                    proof {
                        assert(spec_line_step(st0, line) == Ok::<StV, ScriptErrorV>(
                            StV {
                                oracles: st0.oracles.push(orcv),
                                draft: DraftV::Outside,
                                ..st0
                            },
                        ));
                    }
                } else {
                    let ghost dv0 = d@;
                    match oracle_stmt(&mut d, &tokens, &trimmed) {
                        Ok(()) => {
                            draft = Draft::InOracle(d);
                            proof {
                                let d2 = match &draft {
                                    Draft::InOracle(dd) => dd@,
                                    _ => fresh_oracle(""@),
                                };
                                assert(spec_oracle_stmt(dv0, vtoks, t) == Ok::<
                                    OracleDraftV,
                                    ScriptErrorV,
                                >(d2));
                                assert(spec_line_step(st0, line) == Ok::<StV, ScriptErrorV>(
                                    StV { draft: DraftV::InOracle(d2), ..st0 },
                                ));
                            }
                        },
                        Err(e) => {
                            proof {
                                assert(spec_line_step(st0, line) == Err::<StV, ScriptErrorV>(
                                    e@,
                                ));
                            }
                            return Err(e);
                        },
                    }
                }
            },
        }
    }
    let ghost st_end = StV {
        router: view_opt_router(router),
        slabs: view_slab_seq(slabs@),
        oracles: view_oracle_seq(oracles@),
        draft: draft@,
    };
    proof {
        assert(spec_parse_from(src@, pos as int, st_end) == spec_finalize(st_end));
    }
    match draft {
        Draft::Outside => {},
        _ => {
            return Err(ScriptError::MissingBlockTerminator);
        },
    }
    match router {
        Some(rt) => {
            let sc = Script { router: rt, slabs, oracles };
            proof {
                assert(spec_finalize(st_end) == Ok::<ScriptV, ScriptErrorV>(sc@));
            }
            Ok(sc)
        },
        None => Err(ScriptError::MissingRouter),
    }
}

} // verus!
