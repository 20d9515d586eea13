//! Manifest emitter: the deterministic projection of a parsed venue script
//! into call descriptors and capability schemas, rendered as pretty-printed
//! JSON with two-space indentation and keys in lexicographic order within
//! every object. The output is a pure function of the AST: two emissions of
//! one script are byte-identical.
//!
//! Names are rendered verbatim between quotes; the parser's quoted tokens
//! can never contain a quote character.
use vstd::prelude::*;
use vstd::string::StringExecFns;

use crate::text::{
    ascii_to_string, chars_of_ascii, dec_digits, lemma_dec_digits_ascii, u128_dec, u64_dec,
};
use crate::venue::{id_of, route_id, CapabilitySpec, CollateralSpec, Oracle, Router, Script,
    Slab, MAX_ID_NAME};

verus! {

/// A JSON string: the text between quotes, verbatim.
pub open spec fn jstr(s: Seq<char>) -> Seq<char> {
    "\""@ + s + "\""@
}

/// A JSON number.
pub open spec fn jnum(n: int) -> Seq<char> {
    chars_of_ascii(dec_digits(n))
}

/// An optional JSON number: `null` when absent.
pub open spec fn jopt_num(o: Option<u64>) -> Seq<char> {
    match o {
        Some(v) => jnum(v as int),
        None => "null"@,
    }
}

/// The lifetime a capability ends up with: its own, else the router-wide
/// cap, else zero.
pub open spec fn resolved_ttl(c: CapabilitySpec, router_ttl: Option<u64>) -> u64 {
    match c.ttl_ms {
        Some(t) => t,
        None => match router_ttl {
            Some(rt) => rt,
            None => 0,
        },
    }
}

/// One capability entry, as an element of the capability list.
pub open spec fn cap_json(c: CapabilitySpec, router_ttl: Option<u64>) -> Seq<char> {
    "{\n        \"asset\": "@ + jstr(c.asset@) + ",\n        \"limit\": "@ + jnum(c.limit as int)
        + ",\n        \"name\": "@ + jstr(c.name@) + ",\n        \"ttl_ms\": "@ + jnum(
        resolved_ttl(c, router_ttl) as int,
    ) + "\n      }"@
}

/// The capability elements, separated as list items.
pub open spec fn caps_items(cs: Seq<CapabilitySpec>, router_ttl: Option<u64>) -> Seq<char>
    decreases cs.len(),
{
    if cs.len() == 0 {
        Seq::empty()
    } else if cs.len() == 1 {
        cap_json(cs[0], router_ttl)
    } else {
        caps_items(cs.drop_last(), router_ttl) + ",\n      "@ + cap_json(cs.last(), router_ttl)
    }
}

/// The capability list of the router.
pub open spec fn caps_json(cs: Seq<CapabilitySpec>, router_ttl: Option<u64>) -> Seq<char> {
    if cs.len() == 0 {
        "[]"@
    } else {
        "[\n      "@ + caps_items(cs, router_ttl) + "\n    ]"@
    }
}

/// The router's account list: its state account, then one vault per
/// collateral asset, in declared order.
pub open spec fn router_accounts_items(cols: Seq<CollateralSpec>) -> Seq<char>
    decreases cols.len(),
{
    if cols.len() == 0 {
        jstr("router_state"@)
    } else {
        router_accounts_items(cols.drop_last()) + ",\n          "@ + jstr(
            "vault::"@ + cols.last().asset@,
        )
    }
}

/// One router call descriptor with the shared account list.
pub open spec fn router_desc_json(
    accounts: Seq<char>,
    entry: Seq<char>,
    args: Seq<char>,
) -> Seq<char> {
    "{\n        \"accounts\": [\n          "@ + accounts + "\n        ],\n        \"args\": "@
        + args + ",\n        \"entrypoint\": "@ + jstr(entry)
        + ",\n        \"module\": \"router\"\n      }"@
}

/// The router manifest: capabilities with resolved lifetimes, the four call
/// descriptors in fixed order, the derived identifier, and the batch
/// setting.
pub open spec fn router_json(r: Router) -> Seq<char> {
    let accounts = router_accounts_items(r.collateral_assets@);
    "{\n    \"capabilities\": "@ + caps_json(r.capabilities@, r.cap_ttl_ms)
        + ",\n    \"cpi_descriptors\": [\n      "@ + router_desc_json(
        accounts,
        "reserve"@,
        "[\n          \"user: Pubkey\",\n          \"slab: Hash\",\n          \"qty: u64\"\n        ]"@,
    ) + ",\n      "@ + router_desc_json(
        accounts,
        "commit"@,
        "[\n          \"reservation: Hash\",\n          \"fill: Fill\"\n        ]"@,
    ) + ",\n      "@ + router_desc_json(
        accounts,
        "cancel"@,
        "[\n          \"reservation: Hash\"\n        ]"@,
    ) + ",\n      "@ + router_desc_json(
        accounts,
        "liquidation_call"@,
        "[\n          \"user: Pubkey\",\n          \"slab: Hash\"\n        ]"@,
    ) + "\n    ],\n    \"id\": "@ + jstr(id_of(vstd::utf8::encode_utf8(r.name@)))
        + ",\n    \"reservation_batch_ms\": "@ + jopt_num(r.reservation_batch_ms) + "\n  }"@
}

/// One slab call descriptor; the module is the slab's name.
pub open spec fn slab_desc_json(name: Seq<char>, entry: Seq<char>, args: Seq<char>) -> Seq<
    char,
> {
    "{\n          \"accounts\": [\n            \"slab::"@ + name + "\",\n            \"escrow::"@
        + name + "\"\n          ],\n          \"args\": "@ + args
        + ",\n          \"entrypoint\": "@ + jstr(entry) + ",\n          \"module\": "@ + jstr(
        name,
    ) + "\n        }"@
}

/// One slab manifest: its two accounts, its three call descriptors in
/// fixed order (the reserve arguments carry the oracle price exactly when
/// the slab links an oracle), its derived identifier, and its name.
pub open spec fn slab_json(sl: Slab) -> Seq<char> {
    let reserve_args = if sl.oracle is Some {
        "[\n            \"user: Pubkey\",\n            \"qty: u64\",\n            \"oracle_price: i64\"\n          ]"@
    } else {
        "[\n            \"user: Pubkey\",\n            \"qty: u64\"\n          ]"@
    };
    "{\n      \"accounts\": [\n        \"slab::"@ + sl.name@ + "\",\n        \"escrow::"@
        + sl.name@ + "\"\n      ],\n      \"cpi_descriptors\": [\n        "@ + slab_desc_json(
        sl.name@,
        "reserve"@,
        reserve_args,
    ) + ",\n        "@ + slab_desc_json(
        sl.name@,
        "commit"@,
        "[\n            \"reservation: Hash\",\n            \"fill: Fill\"\n          ]"@,
    ) + ",\n        "@ + slab_desc_json(
        sl.name@,
        "cancel"@,
        "[\n            \"reservation: Hash\"\n          ]"@,
    ) + "\n      ],\n      \"id\": "@ + jstr(id_of(vstd::utf8::encode_utf8(sl.name@)))
        + ",\n      \"name\": "@ + jstr(sl.name@) + "\n    }"@
}

/// The slab elements, separated as list items.
pub open spec fn slabs_items(sls: Seq<Slab>) -> Seq<char>
    decreases sls.len(),
{
    if sls.len() == 0 {
        Seq::empty()
    } else if sls.len() == 1 {
        slab_json(sls[0])
    } else {
        slabs_items(sls.drop_last()) + ",\n    "@ + slab_json(sls.last())
    }
}

/// The slab list of the manifest.
pub open spec fn slabs_json(sls: Seq<Slab>) -> Seq<char> {
    if sls.len() == 0 {
        "[]"@
    } else {
        "[\n    "@ + slabs_items(sls) + "\n  ]"@
    }
}

/// One oracle entry, as an element of the oracle list.
pub open spec fn oracle_json(o: Oracle) -> Seq<char> {
    "{\n      \"heartbeat_ms\": "@ + jnum(o.heartbeat_ms as int)
        + ",\n      \"kill_band_router_ref\": "@ + (match o.kill_band_router_ref {
        Some(x) => jstr(x@),
        None => "null"@,
    }) + ",\n      \"name\": "@ + jstr(o.name@) + "\n    }"@
}

/// The oracle elements, separated as list items.
pub open spec fn oracles_items(os: Seq<Oracle>) -> Seq<char>
    decreases os.len(),
{
    if os.len() == 0 {
        Seq::empty()
    } else if os.len() == 1 {
        oracle_json(os[0])
    } else {
        oracles_items(os.drop_last()) + ",\n    "@ + oracle_json(os.last())
    }
}

/// The oracle list of the manifest.
pub open spec fn oracles_json(os: Seq<Oracle>) -> Seq<char> {
    if os.len() == 0 {
        "[]"@
    } else {
        "[\n    "@ + oracles_items(os) + "\n  ]"@
    }
}

/// The whole manifest, top-level keys in lexicographic order, two-space
/// indentation throughout.
pub open spec fn manifest_chars(s: Script) -> Seq<char> {
    "{\n  \"oracles\": "@ + oracles_json(s.oracles@) + ",\n  \"router\": "@ + router_json(
        s.router,
    ) + ",\n  \"slabs\": "@ + slabs_json(s.slabs@) + "\n}"@
}

/// Every name an identifier is derived from is within the hashing bound.
pub open spec fn names_bounded(s: &Script) -> bool {
    s.router.name@.len() <= MAX_ID_NAME && forall|i: int|
        0 <= i < s.slabs@.len() ==> (#[trigger] s.slabs@[i]).name@.len() <= MAX_ID_NAME
}

/// Appends a JSON string.
fn push_jstr(out: &mut String, s: &str)
    ensures
        final(out)@ == old(out)@ + jstr(s@),
{
    out.append("\"");
    out.append(s);
    out.append("\"");
    proof {
        assert(out@ =~= old(out)@ + jstr(s@));
    }
}

/// Appends a JSON number from a `u64`.
fn push_num_u64(out: &mut String, n: u64)
    ensures
        final(out)@ == old(out)@ + jnum(n as int),
{
    proof {
        lemma_dec_digits_ascii(n as int);
    }
    let ds = ascii_to_string(u64_dec(n));
    out.append(ds.as_str());
    proof {
        assert(out@ =~= old(out)@ + jnum(n as int));
    }
}

/// Appends a JSON number from a `u128`.
fn push_num_u128(out: &mut String, n: u128)
    ensures
        final(out)@ == old(out)@ + jnum(n as int),
{
    proof {
        lemma_dec_digits_ascii(n as int);
    }
    let ds = ascii_to_string(u128_dec(n));
    out.append(ds.as_str());
    proof {
        assert(out@ =~= old(out)@ + jnum(n as int));
    }
}

/// Appends an optional JSON number, `null` when absent.
fn push_opt_num(out: &mut String, o: &Option<u64>)
    ensures
        final(out)@ == old(out)@ + jopt_num(*o),
{
    match o {
        Some(v) => push_num_u64(out, *v),
        None => {
            out.append("null");
        },
    }
}

/// Appends the router's shared account list, without the brackets.
fn push_router_accounts(out: &mut String, cols: &Vec<CollateralSpec>)
    ensures
        final(out)@ == old(out)@ + router_accounts_items(cols@),
{
    push_jstr(out, "router_state");
    let n: usize = cols.len();
    let mut i: usize = 0;
    proof {
        assert(out@ =~= old(out)@ + router_accounts_items(cols@.take(0)));
    }
    while i < n
        invariant
            i <= n,
            n == cols@.len(),
            out@ == old(out)@ + router_accounts_items(cols@.take(i as int)),
        decreases n - i,
    {
        proof {
            assert(cols@.take(i + 1).drop_last() =~= cols@.take(i as int));
            assert(cols@.take(i + 1).last() == cols@[i as int]);
        }
        out.append(",\n          ");
        out.append("\"");
        out.append("vault::");
        out.append(cols[i].asset.as_str());
        out.append("\"");
        proof {
            assert(out@ =~= old(out)@ + router_accounts_items(cols@.take(i + 1)));
        }
        i = i + 1;
    }
    proof {
        assert(cols@.take(n as int) =~= cols@);
    }
}

/// Appends one router call descriptor.
fn push_router_desc(out: &mut String, cols: &Vec<CollateralSpec>, entry: &str, args: &str)
    ensures
        final(out)@ == old(out)@ + router_desc_json(
            router_accounts_items(cols@),
            entry@,
            args@,
        ),
{
    out.append("{\n        \"accounts\": [\n          ");
    push_router_accounts(out, cols);
    out.append("\n        ],\n        \"args\": ");
    out.append(args);
    out.append(",\n        \"entrypoint\": ");
    push_jstr(out, entry);
    out.append(",\n        \"module\": \"router\"\n      }");
    proof {
        assert(out@ =~= old(out)@ + router_desc_json(
            router_accounts_items(cols@),
            entry@,
            args@,
        ));
    }
}

/// Appends one slab call descriptor.
fn push_slab_desc(out: &mut String, name: &str, entry: &str, args: &str)
    ensures
        final(out)@ == old(out)@ + slab_desc_json(name@, entry@, args@),
{
    out.append("{\n          \"accounts\": [\n            \"slab::");
    out.append(name);
    out.append("\",\n            \"escrow::");
    out.append(name);
    out.append("\"\n          ],\n          \"args\": ");
    out.append(args);
    out.append(",\n          \"entrypoint\": ");
    push_jstr(out, entry);
    out.append(",\n          \"module\": ");
    push_jstr(out, name);
    out.append("\n        }");
    proof {
        assert(out@ =~= old(out)@ + slab_desc_json(name@, entry@, args@));
    }
}

/// Appends one oracle entry.
fn push_oracle(out: &mut String, o: &Oracle)
    ensures
        final(out)@ == old(out)@ + oracle_json(*o),
{
    out.append("{\n      \"heartbeat_ms\": ");
    push_num_u64(out, o.heartbeat_ms);
    out.append(",\n      \"kill_band_router_ref\": ");
    match &o.kill_band_router_ref {
        Some(x) => push_jstr(out, x.as_str()),
        None => {
            out.append("null");
        },
    }
    out.append(",\n      \"name\": ");
    push_jstr(out, o.name.as_str());
    out.append("\n    }");
    proof {
        assert(out@ =~= old(out)@ + oracle_json(*o));
    }
}

/// Appends one capability entry with its resolved lifetime.
fn push_cap(out: &mut String, c: &CapabilitySpec, router_ttl: &Option<u64>)
    ensures
        final(out)@ == old(out)@ + cap_json(*c, *router_ttl),
{
    out.append("{\n        \"asset\": ");
    push_jstr(out, c.asset.as_str());
    out.append(",\n        \"limit\": ");
    push_num_u128(out, c.limit);
    out.append(",\n        \"name\": ");
    push_jstr(out, c.name.as_str());
    out.append(",\n        \"ttl_ms\": ");
    let ttl: u64 = match c.ttl_ms {
        Some(t) => t,
        None => match router_ttl {
            Some(rt) => *rt,
            None => 0,
        },
    };
    push_num_u64(out, ttl);
    out.append("\n      }");
    proof {
        assert(out@ =~= old(out)@ + cap_json(*c, *router_ttl));
    }
}

/// Appends one slab manifest.
#[verifier::rlimit(100)]
fn push_slab(out: &mut String, sl: &Slab)
    requires
        sl.name@.len() <= MAX_ID_NAME,
    ensures
        final(out)@ == old(out)@ + slab_json(*sl),
{
    let name = sl.name.as_str();
    out.append("{\n      \"accounts\": [\n        \"slab::");
    out.append(name);
    out.append("\",\n        \"escrow::");
    out.append(name);
    out.append("\"\n      ],\n      \"cpi_descriptors\": [\n        ");
    if matches!(sl.oracle, Some(_)) {
        push_slab_desc(
            out,
            name,
            "reserve",
            "[\n            \"user: Pubkey\",\n            \"qty: u64\",\n            \"oracle_price: i64\"\n          ]",
        );
    } else {
        push_slab_desc(
            out,
            name,
            "reserve",
            "[\n            \"user: Pubkey\",\n            \"qty: u64\"\n          ]",
        );
    }
    out.append(",\n        ");
    push_slab_desc(
        out,
        name,
        "commit",
        "[\n            \"reservation: Hash\",\n            \"fill: Fill\"\n          ]",
    );
    out.append(",\n        ");
    push_slab_desc(out, name, "cancel", "[\n            \"reservation: Hash\"\n          ]");
    out.append("\n      ],\n      \"id\": ");
    let sid = route_id(name);
    push_jstr(out, sid.as_str());
    out.append(",\n      \"name\": ");
    push_jstr(out, name);
    out.append("\n    }");
    proof {
        assert(out@ =~= old(out)@ + slab_json(*sl));
    }
}

/// Appends the oracle list.
#[verifier::rlimit(100)]
fn push_oracles(out: &mut String, os: &Vec<Oracle>)
    ensures
        final(out)@ == old(out)@ + oracles_json(os@),
{
    let no: usize = os.len();
    if no == 0 {
        out.append("[]");
        return ;
    }
    out.append("[\n    ");
    let ghost before_items = out@;
    let mut i: usize = 0;
    proof {
        assert(out@ =~= before_items + oracles_items(os@.take(0)));
    }
    while i < no
        invariant
            0 < no == os@.len(),
            i <= no,
            out@ == before_items + oracles_items(os@.take(i as int)),
        decreases no - i,
    {
        proof {
            assert(os@.take(i + 1).drop_last() =~= os@.take(i as int));
            assert(os@.take(i + 1).last() == os@[i as int]);
        }
        if i > 0 {
            out.append(",\n    ");
        }
        push_oracle(out, &os[i]);
        proof {
            assert(out@ =~= before_items + oracles_items(os@.take(i + 1)));
        }
        i = i + 1;
    }
    out.append("\n  ]");
    proof {
        assert(os@.take(no as int) =~= os@);
        assert(out@ =~= old(out)@ + oracles_json(os@));
    }
}

/// Appends the capability list.
#[verifier::rlimit(100)]
fn push_caps(out: &mut String, cs: &Vec<CapabilitySpec>, router_ttl: &Option<u64>)
    ensures
        final(out)@ == old(out)@ + caps_json(cs@, *router_ttl),
{
    let nc: usize = cs.len();
    if nc == 0 {
        out.append("[]");
        return ;
    }
    out.append("[\n      ");
    let ghost before_items = out@;
    let mut i: usize = 0;
    proof {
        assert(out@ =~= before_items + caps_items(cs@.take(0), *router_ttl));
    }
    while i < nc
        invariant
            0 < nc == cs@.len(),
            i <= nc,
            out@ == before_items + caps_items(cs@.take(i as int), *router_ttl),
        decreases nc - i,
    {
        proof {
            assert(cs@.take(i + 1).drop_last() =~= cs@.take(i as int));
            assert(cs@.take(i + 1).last() == cs@[i as int]);
        }
        if i > 0 {
            out.append(",\n      ");
        }
        push_cap(out, &cs[i], router_ttl);
        proof {
            assert(out@ =~= before_items + caps_items(cs@.take(i + 1), *router_ttl));
        }
        i = i + 1;
    }
    out.append("\n    ]");
    proof {
        assert(cs@.take(nc as int) =~= cs@);
        assert(out@ =~= old(out)@ + caps_json(cs@, *router_ttl));
    }
}

/// Appends the router manifest.
#[verifier::rlimit(100)]
fn push_router(out: &mut String, r: &Router)
    requires
        r.name@.len() <= MAX_ID_NAME,
    ensures
        final(out)@ == old(out)@ + router_json(*r),
{
    out.append("{\n    \"capabilities\": ");
    push_caps(out, &r.capabilities, &r.cap_ttl_ms);
    out.append(",\n    \"cpi_descriptors\": [\n      ");
    push_router_desc(
        out,
        &r.collateral_assets,
        "reserve",
        "[\n          \"user: Pubkey\",\n          \"slab: Hash\",\n          \"qty: u64\"\n        ]",
    );
    out.append(",\n      ");
    push_router_desc(
        out,
        &r.collateral_assets,
        "commit",
        "[\n          \"reservation: Hash\",\n          \"fill: Fill\"\n        ]",
    );
    out.append(",\n      ");
    push_router_desc(
        out,
        &r.collateral_assets,
        "cancel",
        "[\n          \"reservation: Hash\"\n        ]",
    );
    out.append(",\n      ");
    push_router_desc(
        out,
        &r.collateral_assets,
        "liquidation_call",
        "[\n          \"user: Pubkey\",\n          \"slab: Hash\"\n        ]",
    );
    out.append("\n    ],\n    \"id\": ");
    let rid = route_id(r.name.as_str());
    push_jstr(out, rid.as_str());
    out.append(",\n    \"reservation_batch_ms\": ");
    push_opt_num(out, &r.reservation_batch_ms);
    out.append("\n  }");
    proof {
        assert(out@ =~= old(out)@ + router_json(*r));
    }
}

/// Appends the slab list.
#[verifier::rlimit(100)]
fn push_slabs(out: &mut String, sls: &Vec<Slab>)
    requires
        forall|i: int| 0 <= i < sls@.len() ==> (#[trigger] sls@[i]).name@.len() <= MAX_ID_NAME,
    ensures
        final(out)@ == old(out)@ + slabs_json(sls@),
{
    let ns: usize = sls.len();
    if ns == 0 {
        out.append("[]");
        return ;
    }
    out.append("[\n    ");
    let ghost before_items = out@;
    let mut i: usize = 0;
    proof {
        assert(out@ =~= before_items + slabs_items(sls@.take(0)));
    }
    while i < ns
        invariant
            0 < ns == sls@.len(),
            i <= ns,
            forall|k: int| 0 <= k < sls@.len() ==> (#[trigger] sls@[k]).name@.len()
                <= MAX_ID_NAME,
            out@ == before_items + slabs_items(sls@.take(i as int)),
        decreases ns - i,
    {
        proof {
            assert(sls@.take(i + 1).drop_last() =~= sls@.take(i as int));
            assert(sls@.take(i + 1).last() == sls@[i as int]);
        }
        if i > 0 {
            out.append(",\n    ");
        }
        push_slab(out, &sls[i]);
        proof {
            assert(out@ =~= before_items + slabs_items(sls@.take(i + 1)));
        }
        i = i + 1;
    }
    out.append("\n  ]");
    proof {
        assert(sls@.take(ns as int) =~= sls@);
        assert(out@ =~= old(out)@ + slabs_json(sls@));
    }
}

/// Emits the manifest of a parsed script: capabilities with resolved
/// lifetimes, the four router descriptors and three descriptors per slab
/// in fixed order, identifiers derived from names, and every list in
/// declaration order. The output is a pure function of the script.
pub fn emit_manifest(s: &Script) -> (r: String)
    requires
        names_bounded(s),
    ensures
        r@ == manifest_chars(*s),
{
    let mut out = String::new();
    out.append("{\n  \"oracles\": ");
    push_oracles(&mut out, &s.oracles);
    out.append(",\n  \"router\": ");
    push_router(&mut out, &s.router);
    out.append(",\n  \"slabs\": ");
    push_slabs(&mut out, &s.slabs);
    out.append("\n}");
    proof {
        assert(out@ =~= manifest_chars(*s));
    }
    out
}

/// The manifest is deterministic: two emissions of one script are
/// byte-identical.
pub proof fn lemma_manifest_deterministic(a: Seq<char>, b: Seq<char>, s: Script)
    requires
        a == manifest_chars(s),
        b == manifest_chars(s),
    ensures
        a == b,
{
}

/// Identifier derivation is stable: two derivations from one name are
/// identical.
pub proof fn lemma_id_stable(a: Seq<char>, b: Seq<char>, bytes: Seq<u8>)
    requires
        a == id_of(bytes),
        b == id_of(bytes),
    ensures
        a == b,
{
}

} // verus!
