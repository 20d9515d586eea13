//! Venue-script tests: parsing the canonical script, cross-block
//! validation errors, identifier stability, and manifest determinism.
use sha2::{Digest, Sha256};

use venue_rollup::venue::{hold_id, route_id, validate, ScriptError};
use venue_rollup::venue_manifest::emit_manifest;
use venue_rollup::venue_parse::parse_script;

fn canonical_script() -> &'static str {
    "# Canonical venue configuration\n\
     ROUTER \"router\" {\n\
       COLLATERAL asset=USDC vault_cap=1000000\n\
       CAP_TTL ms=60000\n\
       RESERVATION_BATCH ms=50\n\
       CAP name=maker asset=USDC limit=500000 ttl_ms=30000\n\
     }\n\
     SLAB \"perp:SOL-PERP\" {\n\
       MAKER_CLASS tier1 allowance=250000\n\
       MATCHING fifo=true pending_promotion=false\n\
       FEE maker_bps=2 taker_bps=5 rebate_delay_ms=1000\n\
       RISK imr_bps=500 mmr_bps=300\n\
       ANTI_TOXICITY kill_band_bps=50 jit_penalty=true\n\
       BATCH_WINDOW ms=55\n\
       ORACLE_LINK id=\"pyth:SOLUSD\"\n\
     }\n\
     ORACLE \"pyth:SOLUSD\" {\n\
       HEARTBEAT ms=400\n\
       KILL_BAND_SYNC router_ref=\"router\"\n\
     }\n"
}

#[test]
fn canonical_script_parses_and_validates() {
    let script = parse_script(canonical_script()).unwrap();
    validate(&script).unwrap();
    assert_eq!(script.router.name, "router");
    assert_eq!(script.router.collateral_assets.len(), 1);
    assert_eq!(script.router.collateral_assets[0].asset, "USDC");
    assert_eq!(script.router.collateral_assets[0].vault_cap, 1_000_000);
    assert_eq!(script.router.capabilities.len(), 1);
    assert_eq!(script.router.cap_ttl_ms, Some(60_000));
    assert_eq!(script.router.reservation_batch_ms, Some(50));
    assert_eq!(script.slabs.len(), 1);
    assert_eq!(script.slabs[0].name, "perp:SOL-PERP");
    assert_eq!(script.slabs[0].oracle.as_deref(), Some("pyth:SOLUSD"));
    assert_eq!(script.slabs[0].fee.maker_bps, 2);
    assert_eq!(script.slabs[0].risk.mmr_bps, 300);
    assert_eq!(script.slabs[0].batch_window_ms, Some(55));
    assert_eq!(script.oracles.len(), 1);
    assert_eq!(script.oracles[0].name, "pyth:SOLUSD");
    assert_eq!(script.oracles[0].heartbeat_ms, 400);
    assert_eq!(script.oracles[0].kill_band_router_ref.as_deref(), Some("router"));
}

#[test]
fn manifest_is_deterministic() {
    let script = parse_script(canonical_script()).unwrap();
    validate(&script).unwrap();
    let m1 = emit_manifest(&script);
    let m2 = emit_manifest(&script);
    assert_eq!(m1, m2);
    assert!(!m1.is_empty());
    let script2 = parse_script(canonical_script()).unwrap();
    let m3 = emit_manifest(&script2);
    assert_eq!(m1, m3);
    // The emission is exactly the canonical pretty rendering of its own
    // value: two-space indent, keys in lexicographic order.
    let v: serde_json::Value = serde_json::from_str(&m1).unwrap();
    assert_eq!(m1, serde_json::to_string_pretty(&v).unwrap());
}

#[test]
fn manifest_contains_resolved_ttl_and_ids() {
    let script = parse_script(
        "ROUTER \"router\" {\n\
           COLLATERAL asset=USDC vault_cap=7\n\
           CAP_TTL ms=60000\n\
           CAP name=a asset=USDC limit=5\n\
           CAP name=b asset=USDC limit=6 ttl_ms=1000\n\
         }\n",
    )
    .unwrap();
    let manifest = emit_manifest(&script);
    let v: serde_json::Value = serde_json::from_str(&manifest).unwrap();
    let router = v.get("router").unwrap();
    // Capability `a` inherits the router-wide lifetime; `b` keeps its own.
    let caps = router.get("capabilities").unwrap().as_array().unwrap();
    assert_eq!(caps[0].get("name").unwrap().as_str(), Some("a"));
    assert_eq!(caps[0].get("limit").unwrap().as_u64(), Some(5));
    assert_eq!(caps[0].get("ttl_ms").unwrap().as_u64(), Some(60_000));
    assert_eq!(caps[1].get("name").unwrap().as_str(), Some("b"));
    assert_eq!(caps[1].get("ttl_ms").unwrap().as_u64(), Some(1_000));
    assert_eq!(router.get("id").unwrap().as_str().unwrap(), route_id("router"));
    let descriptors = router.get("cpi_descriptors").unwrap().as_array().unwrap();
    let accounts = descriptors[0].get("accounts").unwrap().as_array().unwrap();
    assert_eq!(accounts[0].as_str(), Some("router_state"));
    assert_eq!(accounts[1].as_str(), Some("vault::USDC"));
}

#[test]
fn manifest_is_valid_json_with_expected_shape() {
    let script = parse_script(canonical_script()).unwrap();
    validate(&script).unwrap();
    let manifest = emit_manifest(&script);
    let v: serde_json::Value = serde_json::from_str(&manifest).unwrap();
    let router = v.get("router").unwrap();
    assert_eq!(router.get("id").unwrap().as_str().unwrap(), route_id("router"));
    assert_eq!(router.get("reservation_batch_ms").unwrap().as_u64(), Some(50));
    assert_eq!(router.get("capabilities").unwrap().as_array().unwrap().len(), 1);
    let descriptors = router.get("cpi_descriptors").unwrap().as_array().unwrap();
    assert_eq!(descriptors.len(), 4);
    assert_eq!(descriptors[0].get("entrypoint").unwrap().as_str(), Some("reserve"));
    assert_eq!(descriptors[3].get("entrypoint").unwrap().as_str(), Some("liquidation_call"));
    let slabs = v.get("slabs").unwrap().as_array().unwrap();
    assert_eq!(slabs.len(), 1);
    assert_eq!(slabs[0].get("id").unwrap().as_str().unwrap(), route_id("perp:SOL-PERP"));
    let slab_descs = slabs[0].get("cpi_descriptors").unwrap().as_array().unwrap();
    assert_eq!(slab_descs.len(), 3);
    // The slab links an oracle, so reserve carries the oracle price.
    let args = slab_descs[0].get("args").unwrap().as_array().unwrap();
    assert_eq!(args.len(), 3);
    assert_eq!(args[2].as_str(), Some("oracle_price: i64"));
    let oracles = v.get("oracles").unwrap().as_array().unwrap();
    assert_eq!(oracles.len(), 1);
    assert_eq!(oracles[0].get("heartbeat_ms").unwrap().as_u64(), Some(400));
}

#[test]
fn route_and_hold_ids_are_stable() {
    assert_eq!(route_id("router"), route_id("router"));
    assert_eq!(hold_id("alice", "perp:SOL-PERP"), hold_id("alice", "perp:SOL-PERP"));
    assert_ne!(route_id("router"), route_id("router2"));

    let mut hasher = Sha256::new();
    hasher.update("router".as_bytes());
    let digest = hasher.finalize();
    let expected: String = digest[..16].iter().map(|b| format!("{:02x}", b)).collect();
    assert_eq!(route_id("router"), expected);

    let mut hasher = Sha256::new();
    hasher.update("alice::perp:SOL-PERP".as_bytes());
    let digest = hasher.finalize();
    let expected: String = digest[..16].iter().map(|b| format!("{:02x}", b)).collect();
    assert_eq!(hold_id("alice", "perp:SOL-PERP"), expected);
}

#[test]
fn batch_tolerance_exceeded() {
    let script = parse_script(
        "ROUTER {\n\
           COLLATERAL asset=USDC vault_cap=1\n\
           RESERVATION_BATCH ms=50\n\
         }\n\
         SLAB \"s\" {\n\
           MAKER_CLASS t allowance=1\n\
           FEE maker_bps=1 taker_bps=1 rebate_delay_ms=1\n\
           RISK imr_bps=1 mmr_bps=1\n\
           BATCH_WINDOW ms=100\n\
         }\n",
    )
    .unwrap();
    let err = validate(&script).unwrap_err();
    assert!(matches!(err, ScriptError::BatchToleranceExceeded(_)));
}

#[test]
fn capability_ttl_exceeded() {
    let script = parse_script(
        "ROUTER {\n\
           COLLATERAL asset=USDC vault_cap=1\n\
           CAP_TTL ms=60000\n\
           CAP name=big asset=USDC limit=1 ttl_ms=120000\n\
         }\n",
    )
    .unwrap();
    let err = validate(&script).unwrap_err();
    assert!(matches!(err, ScriptError::CapabilityTtlExceeded(_)));
}

#[test]
fn unknown_oracle_reference() {
    let script = parse_script(
        "ROUTER {\n\
           COLLATERAL asset=USDC vault_cap=1\n\
         }\n\
         SLAB \"s\" {\n\
           MAKER_CLASS t allowance=1\n\
           FEE maker_bps=1 taker_bps=1 rebate_delay_ms=1\n\
           RISK imr_bps=1 mmr_bps=1\n\
           ORACLE_LINK id=\"missing\"\n\
         }\n",
    )
    .unwrap();
    let err = validate(&script).unwrap_err();
    assert!(matches!(err, ScriptError::UnknownOracleReference(_)));
}

#[test]
fn router_reference_mismatch() {
    let script = parse_script(
        "ROUTER \"router\" {\n\
           COLLATERAL asset=USDC vault_cap=1\n\
         }\n\
         ORACLE \"o\" {\n\
           HEARTBEAT ms=100\n\
           KILL_BAND_SYNC router_ref=\"other\"\n\
         }\n",
    )
    .unwrap();
    let err = validate(&script).unwrap_err();
    assert!(matches!(err, ScriptError::RouterReferenceMismatch(_)));
}

#[test]
fn duplicate_slab_rejected() {
    let err = parse_script(
        "ROUTER {\n\
           COLLATERAL asset=USDC vault_cap=1\n\
         }\n\
         SLAB \"x\" {\n\
           MAKER_CLASS t allowance=1\n\
           FEE maker_bps=1 taker_bps=1 rebate_delay_ms=1\n\
           RISK imr_bps=1 mmr_bps=1\n\
         }\n\
         SLAB \"x\" {\n\
           MAKER_CLASS t allowance=1\n\
           FEE maker_bps=1 taker_bps=1 rebate_delay_ms=1\n\
           RISK imr_bps=1 mmr_bps=1\n\
         }\n",
    )
    .unwrap_err();
    assert!(matches!(err, ScriptError::DuplicateSlab(_)));
}

#[test]
fn structural_parse_errors() {
    assert!(matches!(parse_script(""), Err(ScriptError::MissingRouter)));
    assert!(matches!(
        parse_script("ROUTER {\nCOLLATERAL asset=USDC vault_cap=1\n"),
        Err(ScriptError::MissingBlockTerminator)
    ));
    assert!(matches!(
        parse_script("ROUTER {\nCOLLATERAL asset=USDC vault_cap=1\n}\nROUTER {\n}\n"),
        Err(ScriptError::DuplicateRouter)
    ));
    assert!(matches!(
        parse_script("ROUTER {\n}\n"),
        Err(ScriptError::MissingField(_))
    ));
    assert!(matches!(
        parse_script("ROUTER {\nSPREAD x=1\n}\n"),
        Err(ScriptError::UnknownStatement(_))
    ));
    assert!(matches!(
        parse_script("ROUTER {\nCOLLATERAL asset=USDC vault_cap=abc\n}\n"),
        Err(ScriptError::Syntax(_))
    ));
    assert!(matches!(
        parse_script("ROUTER\nCOLLATERAL asset=USDC vault_cap=1\n}\n"),
        Err(ScriptError::UnexpectedToken(_))
    ));
    assert!(matches!(
        parse_script(
            "ORACLE \"o\" {\nHEARTBEAT ms=1\n}\nORACLE \"o\" {\nHEARTBEAT ms=1\n}\n"
        ),
        Err(ScriptError::DuplicateOracle(_))
    ));
}

#[test]
fn key_value_spellings_are_equivalent() {
    let a = parse_script(
        "ROUTER {\nCOLLATERAL asset=USDC vault_cap=5\n}\n",
    )
    .unwrap();
    let b = parse_script(
        "ROUTER {\nCOLLATERAL asset= USDC vault_cap =5\n}\n",
    )
    .unwrap();
    let c = parse_script(
        "ROUTER {\nCOLLATERAL asset = USDC vault_cap = 5\n}\n",
    )
    .unwrap();
    assert_eq!(a.router.collateral_assets, b.router.collateral_assets);
    assert_eq!(a.router.collateral_assets, c.router.collateral_assets);
}
