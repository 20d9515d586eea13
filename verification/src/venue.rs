//! Venue-configuration model: the typed AST of a venue script, the script
//! and validation errors, the deterministic identifier derivation, and the
//! cross-block validator.
use vstd::prelude::*;
use vstd::string::StrSliceExecFns;
use vstd::string::StringExecFns;

use crate::digest::{hex_of, hex_bytes, lemma_hex_of_ascii, sha256, sha256_of};
use crate::text::{ascii_to_string, chars_of_ascii, push_ascii, lit_bytes};

verus! {

/// One collateral asset of the router with its vault cap.
#[derive(Debug, Clone, PartialEq, Eq)]
pub struct CollateralSpec {
    pub asset: String,
    pub vault_cap: u64,
}

/// A named, asset-scoped, quantity-bounded, optionally time-limited grant.
#[derive(Debug, Clone, PartialEq, Eq)]
pub struct CapabilitySpec {
    pub name: String,
    pub asset: String,
    pub limit: u128,
    pub ttl_ms: Option<u64>,
}

/// The router's portfolio-margin model declaration.
#[derive(Debug, Clone, PartialEq, Eq)]
pub struct PortfolioMargin {
    pub model: String,
    pub correl_matrix: String,
}

/// The capital and capability-management surface of the venue.
#[derive(Debug, Clone, PartialEq, Eq)]
pub struct Router {
    pub name: String,
    pub collateral_assets: Vec<CollateralSpec>,
    pub portfolio_margin: Option<PortfolioMargin>,
    pub cap_ttl_ms: Option<u64>,
    pub reservation_batch_ms: Option<u64>,
    pub capabilities: Vec<CapabilitySpec>,
}

/// A slab's maker-class declaration.
#[derive(Debug, Clone, PartialEq, Eq)]
pub struct MakerClass {
    pub class: String,
    pub allowance: u64,
}

/// A slab's matching flags.
#[derive(Debug, Clone, PartialEq, Eq)]
pub struct Matching {
    pub fifo: bool,
    pub pending_promotion: bool,
}

/// A slab's fee schedule.
#[derive(Debug, Clone, PartialEq, Eq)]
pub struct Fee {
    pub maker_bps: u16,
    pub taker_bps: u16,
    pub rebate_delay_ms: u64,
}

/// A slab's margin requirements.
#[derive(Debug, Clone, PartialEq, Eq)]
pub struct Risk {
    pub imr_bps: u16,
    pub mmr_bps: u16,
}

/// A slab's anti-toxicity settings.
#[derive(Debug, Clone, PartialEq, Eq)]
pub struct AntiToxicity {
    pub kill_band_bps: u16,
    pub jit_penalty: bool,
    pub arg_tax_bps: Option<u16>,
}

/// A declared market instance within the router.
#[derive(Debug, Clone, PartialEq, Eq)]
pub struct Slab {
    pub name: String,
    pub maker_class: MakerClass,
    pub matching: Option<Matching>,
    pub fee: Fee,
    pub risk: Risk,
    pub anti_toxicity: Option<AntiToxicity>,
    pub batch_window_ms: Option<u64>,
    pub oracle: Option<String>,
}

/// A declared oracle with its heartbeat and optional router binding.
#[derive(Debug, Clone, PartialEq, Eq)]
pub struct Oracle {
    pub name: String,
    pub heartbeat_ms: u64,
    pub kill_band_router_ref: Option<String>,
}

/// A parsed venue script: one router, its slabs, and its oracles, each in
/// declaration order.
#[derive(Debug, Clone, PartialEq, Eq)]
pub struct Script {
    pub router: Router,
    pub slabs: Vec<Slab>,
    pub oracles: Vec<Oracle>,
}

/// Everything a venue script can be rejected for: structural errors from
/// the parser, and cross-block errors from the validator, each naming the
/// offending line or entity.
#[derive(Debug, Clone, PartialEq, Eq)]
pub enum ScriptError {
    Syntax(String),
    UnexpectedToken(String),
    DuplicateRouter,
    MissingRouter,
    MissingBlockTerminator,
    DuplicateSlab(String),
    DuplicateOracle(String),
    UnknownStatement(String),
    MissingField(String),
    UnknownOracleReference(String),
    RouterReferenceMismatch(String),
    BatchToleranceExceeded(String),
    CapabilityTtlExceeded(String),
}


/// The mathematical image of a collateral entry.
pub struct CollateralV {
    pub asset: Seq<char>,
    pub vault_cap: u64,
}

/// The mathematical image of a capability.
pub struct CapV {
    pub name: Seq<char>,
    pub asset: Seq<char>,
    pub limit: u128,
    pub ttl_ms: Option<u64>,
}

/// The mathematical image of a portfolio-margin declaration.
pub struct PortfolioMarginV {
    pub model: Seq<char>,
    pub correl_matrix: Seq<char>,
}

/// The mathematical image of a maker-class declaration.
pub struct MakerClassV {
    pub class: Seq<char>,
    pub allowance: u64,
}

/// The mathematical image of the router.
pub struct RouterV {
    pub name: Seq<char>,
    pub collateral_assets: Seq<CollateralV>,
    pub portfolio_margin: Option<PortfolioMarginV>,
    pub cap_ttl_ms: Option<u64>,
    pub reservation_batch_ms: Option<u64>,
    pub capabilities: Seq<CapV>,
}

/// The mathematical image of a slab.
pub struct SlabV {
    pub name: Seq<char>,
    pub maker_class: MakerClassV,
    pub matching: Option<Matching>,
    pub fee: Fee,
    pub risk: Risk,
    pub anti_toxicity: Option<AntiToxicity>,
    pub batch_window_ms: Option<u64>,
    pub oracle: Option<Seq<char>>,
}

/// The mathematical image of an oracle.
pub struct OracleV {
    pub name: Seq<char>,
    pub heartbeat_ms: u64,
    pub kill_band_router_ref: Option<Seq<char>>,
}

/// The mathematical image of a whole script.
pub struct ScriptV {
    pub router: RouterV,
    pub slabs: Seq<SlabV>,
    pub oracles: Seq<OracleV>,
}

/// The mathematical image of a script error.
pub enum ScriptErrorV {
    Syntax(Seq<char>),
    UnexpectedToken(Seq<char>),
    DuplicateRouter,
    MissingRouter,
    MissingBlockTerminator,
    DuplicateSlab(Seq<char>),
    DuplicateOracle(Seq<char>),
    UnknownStatement(Seq<char>),
    MissingField(Seq<char>),
    UnknownOracleReference(Seq<char>),
    RouterReferenceMismatch(Seq<char>),
    BatchToleranceExceeded(Seq<char>),
    CapabilityTtlExceeded(Seq<char>),
}

/// An optional string's image.
pub open spec fn view_opt_text(o: Option<String>) -> Option<Seq<char>> {
    match o {
        Some(x) => Some(x@),
        None => None,
    }
}

impl View for CollateralSpec {
    type V = CollateralV;

    open spec fn view(&self) -> CollateralV {
        CollateralV { asset: self.asset@, vault_cap: self.vault_cap }
    }
}

impl View for CapabilitySpec {
    type V = CapV;

    open spec fn view(&self) -> CapV {
        CapV { name: self.name@, asset: self.asset@, limit: self.limit, ttl_ms: self.ttl_ms }
    }
}

impl View for PortfolioMargin {
    type V = PortfolioMarginV;

    open spec fn view(&self) -> PortfolioMarginV {
        PortfolioMarginV { model: self.model@, correl_matrix: self.correl_matrix@ }
    }
}

impl View for MakerClass {
    type V = MakerClassV;

    open spec fn view(&self) -> MakerClassV {
        MakerClassV { class: self.class@, allowance: self.allowance }
    }
}

/// The images of a collateral list.
pub open spec fn view_collaterals(cs: Seq<CollateralSpec>) -> Seq<CollateralV> {
    cs.map(|_i: int, c: CollateralSpec| c@)
}

/// The images of a capability list.
pub open spec fn view_caps(cs: Seq<CapabilitySpec>) -> Seq<CapV> {
    cs.map(|_i: int, c: CapabilitySpec| c@)
}

/// An optional portfolio margin's image.
pub open spec fn view_opt_pm(o: Option<PortfolioMargin>) -> Option<PortfolioMarginV> {
    match o {
        Some(x) => Some(x@),
        None => None,
    }
}

impl View for Router {
    type V = RouterV;

    open spec fn view(&self) -> RouterV {
        RouterV {
            name: self.name@,
            collateral_assets: view_collaterals(self.collateral_assets@),
            portfolio_margin: view_opt_pm(self.portfolio_margin),
            cap_ttl_ms: self.cap_ttl_ms,
            reservation_batch_ms: self.reservation_batch_ms,
            capabilities: view_caps(self.capabilities@),
        }
    }
}

impl View for Slab {
    type V = SlabV;

    open spec fn view(&self) -> SlabV {
        SlabV {
            name: self.name@,
            maker_class: self.maker_class@,
            matching: self.matching,
            fee: self.fee,
            risk: self.risk,
            anti_toxicity: self.anti_toxicity,
            batch_window_ms: self.batch_window_ms,
            oracle: view_opt_text(self.oracle),
        }
    }
}

impl View for Oracle {
    type V = OracleV;

    open spec fn view(&self) -> OracleV {
        OracleV {
            name: self.name@,
            heartbeat_ms: self.heartbeat_ms,
            kill_band_router_ref: view_opt_text(self.kill_band_router_ref),
        }
    }
}

/// The images of a slab list.
pub open spec fn view_slab_seq(ss: Seq<Slab>) -> Seq<SlabV> {
    ss.map(|_i: int, x: Slab| x@)
}

/// The images of an oracle list.
pub open spec fn view_oracle_seq(os: Seq<Oracle>) -> Seq<OracleV> {
    os.map(|_i: int, x: Oracle| x@)
}

impl View for Script {
    type V = ScriptV;

    open spec fn view(&self) -> ScriptV {
        ScriptV {
            router: self.router@,
            slabs: view_slab_seq(self.slabs@),
            oracles: view_oracle_seq(self.oracles@),
        }
    }
}

impl View for ScriptError {
    type V = ScriptErrorV;

    open spec fn view(&self) -> ScriptErrorV {
        match self {
            ScriptError::Syntax(x) => ScriptErrorV::Syntax(x@),
            ScriptError::UnexpectedToken(x) => ScriptErrorV::UnexpectedToken(x@),
            ScriptError::DuplicateRouter => ScriptErrorV::DuplicateRouter,
            ScriptError::MissingRouter => ScriptErrorV::MissingRouter,
            ScriptError::MissingBlockTerminator => ScriptErrorV::MissingBlockTerminator,
            ScriptError::DuplicateSlab(x) => ScriptErrorV::DuplicateSlab(x@),
            ScriptError::DuplicateOracle(x) => ScriptErrorV::DuplicateOracle(x@),
            ScriptError::UnknownStatement(x) => ScriptErrorV::UnknownStatement(x@),
            ScriptError::MissingField(x) => ScriptErrorV::MissingField(x@),
            ScriptError::UnknownOracleReference(x) => ScriptErrorV::UnknownOracleReference(x@),
            ScriptError::RouterReferenceMismatch(x) => ScriptErrorV::RouterReferenceMismatch(x@),
            ScriptError::BatchToleranceExceeded(x) => ScriptErrorV::BatchToleranceExceeded(x@),
            ScriptError::CapabilityTtlExceeded(x) => ScriptErrorV::CapabilityTtlExceeded(x@),
        }
    }
}

/// The deterministic 128-bit identifier of a byte string: lowercase hex of
/// the first sixteen bytes of its SHA-256 digest.
pub open spec fn id_of(bytes: Seq<u8>) -> Seq<char> {
    chars_of_ascii(hex_of(sha256_of(bytes).take(16)))
}

/// UTF-8 encoding takes at most four bytes per character.
pub proof fn lemma_encode_utf8_len(chars: Seq<char>)
    ensures
        vstd::utf8::encode_utf8(chars).len() <= 4 * chars.len(),
    decreases chars.len(),
{
    if chars.len() > 0 {
        lemma_encode_utf8_len(chars.drop_first());
    }
}

/// Longest name an identifier is derived from; keeps the hash input within
/// the machine's bounds.
pub const MAX_ID_NAME: u64 = 0x100_0000_0000_0000;

/// Derives the first sixteen digest bytes of `bytes` as lowercase hex.
fn short_id(bytes: &Vec<u8>) -> (r: String)
    requires
        bytes@.len() <= 0x1000_0000_0000_0000,
    ensures
        r@ == id_of(bytes@),
{
    let digest = sha256(bytes.as_slice());
    let mut head: Vec<u8> = Vec::new();
    let mut i: usize = 0;
    while i < 16
        invariant
            i <= 16,
            digest@.len() == 32,
            head@ == digest@.take(i as int),
        decreases 16 - i,
    {
        head.push(digest[i]);
        proof {
            assert(head@ =~= digest@.take(i + 1));
        }
        i = i + 1;
    }
    let hx = hex_bytes(&head);
    proof {
        lemma_hex_of_ascii(head@);
    }
    ascii_to_string(hx)
}

/// The route identifier of a name: lowercase hex of the first sixteen
/// bytes of the SHA-256 digest of the name's UTF-8 bytes.
pub fn route_id(name: &str) -> (r: String)
    requires
        name@.len() <= MAX_ID_NAME,
    ensures
        r@ == id_of(vstd::utf8::encode_utf8(name@)),
{
    proof {
        lemma_encode_utf8_len(name@);
    }
    let bytes = name.as_bytes_vec();
    short_id(&bytes)
}

/// The hold identifier of a user and a slab: the identifier of the UTF-8
/// bytes of `user`, `"::"`, and `slab`, concatenated.
pub fn hold_id(user: &str, slab: &str) -> (r: String)
    requires
        user@.len() <= MAX_ID_NAME,
        slab@.len() <= MAX_ID_NAME,
    ensures
        r@ == id_of(
            vstd::utf8::encode_utf8(user@) + lit_bytes("::"@) + vstd::utf8::encode_utf8(slab@),
        ),
{
    proof {
        lemma_encode_utf8_len(user@);
        lemma_encode_utf8_len(slab@);
        reveal_strlit("::");
        assert(vstd::string::is_ascii("::")) by {
            reveal_strlit("::");
        }
    }
    let mut bytes = user.as_bytes_vec();
    push_ascii(&mut bytes, "::");
    let mut tail = slab.as_bytes_vec();
    bytes.append(&mut tail);
    short_id(&bytes)
}

/// Every slab's oracle link names a declared oracle.
pub open spec fn ok_oracle_refs(s: &Script) -> bool {
    forall|i: int|
        0 <= i < s.slabs@.len() ==> match (#[trigger] s.slabs@[i]).oracle {
            Some(n) => exists|j: int|
                0 <= j < s.oracles@.len() && (#[trigger] s.oracles@[j]).name@ == n@,
            None => true,
        }
}

/// Every oracle's router binding names the router verbatim.
pub open spec fn ok_router_refs(s: &Script) -> bool {
    forall|j: int|
        0 <= j < s.oracles@.len() ==> match (#[trigger] s.oracles@[j]).kill_band_router_ref {
            Some(r) => r@ == s.router.name@,
            None => true,
        }
}

/// Wherever both are set, a slab's batch window is within ten
/// milliseconds of the router's reservation batch.
pub open spec fn ok_batch(s: &Script) -> bool {
    forall|i: int|
        0 <= i < s.slabs@.len() ==> match (
        s.router.reservation_batch_ms,
        (#[trigger] s.slabs@[i]).batch_window_ms,
        ) {
            (Some(r), Some(w)) => -10 <= r - w <= 10,
            _ => true,
        }
}

/// If the router caps capability lifetimes, every explicit capability
/// lifetime respects the cap.
pub open spec fn ok_cap_ttl(s: &Script) -> bool {
    match s.router.cap_ttl_ms {
        Some(c) => forall|i: int|
            0 <= i < s.router.capabilities@.len() ==> match (
            #[trigger] s.router.capabilities@[i]).ttl_ms {
                Some(t) => t <= c,
                None => true,
            },
        None => true,
    }
}

/// All four cross-block checks pass.
pub open spec fn script_valid(s: &Script) -> bool {
    ok_oracle_refs(s) && ok_router_refs(s) && ok_batch(s) && ok_cap_ttl(s)
}

/// Checks the cross-block rules of a parsed script, in order: oracle
/// links resolve, router bindings match, batch windows are within
/// tolerance, capability lifetimes respect the router cap. Returns the
/// first violation's error, and succeeds exactly on valid scripts. Never
/// changes the script.
pub fn validate(s: &Script) -> (r: Result<(), ScriptError>)
    ensures
        r is Ok <==> script_valid(s),
        r matches Err(e) ==> match e {
            ScriptError::UnknownOracleReference(_) => !ok_oracle_refs(s),
            ScriptError::RouterReferenceMismatch(_) => ok_oracle_refs(s) && !ok_router_refs(s),
            ScriptError::BatchToleranceExceeded(_) => ok_oracle_refs(s) && ok_router_refs(s)
                && !ok_batch(s),
            ScriptError::CapabilityTtlExceeded(_) => ok_oracle_refs(s) && ok_router_refs(s)
                && ok_batch(s) && !ok_cap_ttl(s),
            _ => false,
        },
{
    let ns: usize = s.slabs.len();
    let mut i: usize = 0;
    while i < ns
        invariant
            i <= ns,
            ns == s.slabs@.len(),
            forall|k: int|
                0 <= k < i ==> match (#[trigger] s.slabs@[k]).oracle {
                    Some(n) => exists|j: int|
                        0 <= j < s.oracles@.len() && (#[trigger] s.oracles@[j]).name@ == n@,
                    None => true,
                },
        decreases ns - i,
    {
        match &s.slabs[i].oracle {
            Some(n) => {
                let mut found: bool = false;
                let no: usize = s.oracles.len();
                let mut j: usize = 0;
                while j < no
                    invariant
                        j <= no,
                        no == s.oracles@.len(),
                        found ==> exists|k: int|
                            0 <= k < s.oracles@.len() && (#[trigger] s.oracles@[k]).name@ == n@,
                        !found ==> forall|k: int|
                            0 <= k < j ==> (#[trigger] s.oracles@[k]).name@ != n@,
                    decreases no - j,
                {
                    if s.oracles[j].name.eq(n) {
                        found = true;
                    }
                    j = j + 1;
                }
                if !found {
                    proof {
                        assert(s.slabs@[i as int].oracle matches Some(m) && m@ == n@);
                        assert(!ok_oracle_refs(s));
                    }
                    return Err(ScriptError::UnknownOracleReference(n.clone()));
                }
            },
            None => {},
        }
        i = i + 1;
    }
    let no: usize = s.oracles.len();
    let mut j: usize = 0;
    while j < no
        invariant
            j <= no,
            no == s.oracles@.len(),
            ok_oracle_refs(s),
            forall|k: int|
                0 <= k < j ==> match (#[trigger] s.oracles@[k]).kill_band_router_ref {
                    Some(r) => r@ == s.router.name@,
                    None => true,
                },
        decreases no - j,
    {
        match &s.oracles[j].kill_band_router_ref {
            Some(r) => {
                if !r.eq(&s.router.name) {
                    return Err(ScriptError::RouterReferenceMismatch(s.oracles[j].name.clone()));
                }
            },
            None => {},
        }
        j = j + 1;
    }
    match s.router.reservation_batch_ms {
        Some(rb) => {
            let mut i: usize = 0;
            while i < ns
                invariant
                    i <= ns,
                    ns == s.slabs@.len(),
                    ok_oracle_refs(s),
                    ok_router_refs(s),
                    s.router.reservation_batch_ms == Some(rb),
                    forall|k: int|
                        0 <= k < i ==> match (#[trigger] s.slabs@[k]).batch_window_ms {
                            Some(w) => -10 <= rb - w <= 10,
                            None => true,
                        },
                decreases ns - i,
            {
                match s.slabs[i].batch_window_ms {
                    Some(w) => {
                        let over = if rb >= w {
                            rb - w > 10
                        } else {
                            w - rb > 10
                        };
                        if over {
                            return Err(ScriptError::BatchToleranceExceeded(s.slabs[i].name.clone()));
                        }
                    },
                    None => {},
                }
                i = i + 1;
            }
        },
        None => {},
    }
    match s.router.cap_ttl_ms {
        Some(c) => {
            let nc: usize = s.router.capabilities.len();
            let mut i: usize = 0;
            while i < nc
                invariant
                    i <= nc,
                    nc == s.router.capabilities@.len(),
                    ok_oracle_refs(s),
                    ok_router_refs(s),
                    ok_batch(s),
                    s.router.cap_ttl_ms == Some(c),
                    forall|k: int|
                        0 <= k < i ==> match (#[trigger] s.router.capabilities@[k]).ttl_ms {
                            Some(t) => t <= c,
                            None => true,
                        },
                decreases nc - i,
            {
                match s.router.capabilities[i].ttl_ms {
                    Some(t) => {
                        if t > c {
                            return Err(
                                ScriptError::CapabilityTtlExceeded(
                                    s.router.capabilities[i].name.clone(),
                                ),
                            );
                        }
                    },
                    None => {},
                }
                i = i + 1;
            }
        },
        None => {},
    }
    Ok(())
}

} // verus!
