// Tests for the verified library pieces: the reward tiers, the stable
// text format, the state inspector's decisions, and the error paths.

use depinzcash_prover::calculate_sync_bonus;
use depinzcash_prover::decode;
use depinzcash_prover::default_api_endpoint;
use depinzcash_prover::encode;
use depinzcash_prover::verify_proof;
use depinzcash_prover::AttestationBackend;
use depinzcash_prover::Config;
use depinzcash_prover::ConfigError;
use depinzcash_prover::InspectError;
use depinzcash_prover::MockBackend;
use depinzcash_prover::NodeInfo;
use depinzcash_prover::NodeMetrics;
use depinzcash_prover::PrivateWitness;
use depinzcash_prover::Proof;
use depinzcash_prover::ProofError;
use depinzcash_prover::ProofGenerator;
use depinzcash_prover::ProofMetrics;
use depinzcash_prover::PublicAttestation;
use depinzcash_prover::StateObservations;
use depinzcash_prover::Wallets;
use depinzcash_prover::ZebraReader;

fn small_proof() -> Proof {
    Proof {
        version: "1.0".to_string(),
        timestamp: 5,
        node_info: NodeInfo {
            zebra_version: "z".to_string(),
            zebra_binary_hash: "h".to_string(),
            network: "testnet".to_string(),
            node_id: None,
        },
        metrics: ProofMetrics {
            block_height: 42,
            sync_milli_percent: 100_000,
            uptime_milli_hours: 2_000,
            peer_count: 3,
            blocks_served: 7,
        },
        halo2_proof: "blob".to_string(),
        public_inputs: vec!["42".to_string(), "5".to_string()],
        wallets: Wallets {
            solana: "sol".to_string(),
            zcash: "t1z".to_string(),
        },
        signature: "sig".to_string(),
    }
}

#[test]
fn test_sync_bonus_tiers_exact() {
    assert_eq!(calculate_sync_bonus(100_000), 50_000_000);
    assert_eq!(calculate_sync_bonus(123_456), 50_000_000); // above 100% counts as full
    assert_eq!(calculate_sync_bonus(99_000), 37_500_000);
    assert_eq!(calculate_sync_bonus(90_000), 37_500_000);
    assert_eq!(calculate_sync_bonus(89_999), 25_000_000);
    assert_eq!(calculate_sync_bonus(75_000), 25_000_000);
    assert_eq!(calculate_sync_bonus(74_999), 0);
    assert_eq!(calculate_sync_bonus(0), 0);
}

#[test]
fn test_reward_formula_exact() {
    // 100% sync, 720 hours, peers: 0.5 + 0.72 * 1.5 = 1.58 ZEC exactly.
    let mut p = small_proof();
    p.metrics.sync_milli_percent = 100_000;
    p.metrics.uptime_milli_hours = 720_000;
    p.metrics.peer_count = 2;
    let r = p.calculate_reward();
    assert_eq!(r.sync_bonus_zat, 50_000_000);
    assert_eq!(r.uptime_reward_zat, 72_000_000);
    assert_eq!(r.multiplier_tenths, 15);
    assert_eq!(r.total_zat, 158_000_000);
    assert_eq!(
        r.total_zat,
        r.sync_bonus_zat + r.uptime_reward_zat * r.multiplier_tenths / 10
    );
}

#[test]
fn test_uptime_reward_rate_exact() {
    // uptime reward is 100 zatoshi per thousandth of an hour, exactly.
    let mut p = small_proof();
    p.metrics.peer_count = 0;
    for milli_hours in [0u64, 1, 24_000, 720_000] {
        p.metrics.uptime_milli_hours = milli_hours;
        let r = p.calculate_reward();
        assert_eq!(r.uptime_reward_zat, milli_hours * 100);
    }
}

#[test]
fn test_encode_stable_text() {
    let text = encode(&small_proof());
    let expected = "version 3 1.0\ntimestamp 5\nzebra_version 1 z\nzebra_binary_hash 1 h\nnetwork 7 testnet\nnode_id none\nblock_height 42\nsync_milli_percent 100000\nuptime_milli_hours 2000\npeer_count 3\nblocks_served 7\nhalo2_proof 4 blob\npublic_inputs 2\n2 42\n1 5\nsolana_wallet 3 sol\nzcash_address 3 t1z\nsignature 3 sig\n";
    assert_eq!(text, expected);
}

#[test]
fn test_round_trip_with_node_id_and_negative_timestamp() {
    let mut p = small_proof();
    p.node_info.node_id = Some("node one\nwith newline".to_string());
    p.timestamp = -12345;
    p.wallets.zcash = "z-shielded \u{1F993} address".to_string();
    p.public_inputs = vec!["".to_string(), "x y z".to_string()];
    let text = encode(&p);
    let q = decode(text.as_str()).unwrap();
    assert_eq!(q.version, p.version);
    assert_eq!(q.timestamp, p.timestamp);
    assert_eq!(q.node_info.zebra_version, p.node_info.zebra_version);
    assert_eq!(q.node_info.zebra_binary_hash, p.node_info.zebra_binary_hash);
    assert_eq!(q.node_info.network, p.node_info.network);
    assert_eq!(q.node_info.node_id, p.node_info.node_id);
    assert_eq!(q.metrics.block_height, p.metrics.block_height);
    assert_eq!(q.metrics.sync_milli_percent, p.metrics.sync_milli_percent);
    assert_eq!(q.metrics.uptime_milli_hours, p.metrics.uptime_milli_hours);
    assert_eq!(q.metrics.peer_count, p.metrics.peer_count);
    assert_eq!(q.metrics.blocks_served, p.metrics.blocks_served);
    assert_eq!(q.halo2_proof, p.halo2_proof);
    assert_eq!(q.public_inputs, p.public_inputs);
    assert_eq!(q.wallets.solana, p.wallets.solana);
    assert_eq!(q.wallets.zcash, p.wallets.zcash);
    assert_eq!(q.signature, p.signature);
}

#[test]
fn test_decode_rejects_malformed_text() {
    assert!(decode("").is_err());
    assert!(decode("version 3 1.0").is_err()); // truncated
    let text = encode(&small_proof());
    let mut tampered = text.clone();
    tampered.push_str("trailing");
    assert!(decode(tampered.as_str()).is_err());
    assert!(decode(text.replace("block_height", "block_weight").as_str()).is_err());
}

#[test]
fn test_config_error_variants() {
    let base = Config {
        solana_wallet: "W".to_string(),
        zcash_address: "t1A".to_string(),
        node_id: None,
        auto_submit: false,
        api_endpoint: default_api_endpoint(),
        api_key: None,
    };
    assert!(base.validate().is_ok());

    let mut empty_sol = base.clone();
    empty_sol.solana_wallet = "".to_string();
    assert!(matches!(
        empty_sol.validate(),
        Err(ConfigError::EmptySolanaWallet)
    ));

    let mut empty_zec = base.clone();
    empty_zec.zcash_address = "".to_string();
    assert!(matches!(
        empty_zec.validate(),
        Err(ConfigError::EmptyZcashAddress)
    ));

    let mut bad_zec = base.clone();
    bad_zec.zcash_address = "1invalid".to_string();
    assert!(matches!(
        bad_zec.validate(),
        Err(ConfigError::InvalidZcashAddress)
    ));

    let shielded = Config {
        zcash_address: "zs1abc".to_string(),
        ..base
    };
    assert!(shielded.validate().is_ok());
}

#[test]
fn test_config_new_applies_defaults() {
    let c = Config::new("W".to_string(), "t1A".to_string(), None).unwrap();
    assert_eq!(c.api_endpoint, "https://depinzcash.io/api/submit");
    assert!(!c.auto_submit);
    assert!(c.api_key.is_none());
    assert!(Config::new("".to_string(), "t1A".to_string(), None).is_err());
}

fn reader() -> ZebraReader {
    ZebraReader::new("/var/lib/zebra/state".to_string(), true).unwrap()
}

#[test]
fn test_reader_requires_state_dir() {
    assert!(ZebraReader::new("/nowhere".to_string(), false).is_err());
    assert!(ZebraReader::new("/var/lib/zebra/state".to_string(), true).is_ok());
}

#[test]
fn test_detect_network_prefers_mainnet() {
    let r = reader();
    assert_eq!(r.detect_network(true, true).unwrap(), "mainnet");
    assert_eq!(r.detect_network(true, false).unwrap(), "mainnet");
    assert_eq!(r.detect_network(false, true).unwrap(), "testnet");
    assert!(matches!(
        r.detect_network(false, false),
        Err(InspectError::NetworkUndetected)
    ));
}

#[test]
fn test_read_block_height_little_endian_tip() {
    let r = reader();
    let tip = vec![0x50, 0x62, 0x25, 0x00, 0x00, 0x00, 0x00, 0x00]; // 2450000
    assert_eq!(r.read_block_height(&Some(tip), &vec![]).unwrap(), 2450000);
    // A tip value of the wrong width is malformed.
    assert!(matches!(
        r.read_block_height(&Some(vec![1, 2, 3]), &vec![]),
        Err(InspectError::MetricsUnavailable)
    ));
}

#[test]
fn test_scan_fallback_empty_store_is_zero() {
    let r = reader();
    // No tip key and an empty store: height 0 rather than a failure.
    assert_eq!(r.read_block_height(&None, &vec![]).unwrap(), 0);
    assert_eq!(r.scan_for_highest_block(&vec![]), 0);
}

#[test]
fn test_scan_keeps_maximum_numeric_key() {
    let r = reader();
    let keys: Vec<Vec<u8>> = vec![
        b"100".to_vec(),
        b"7".to_vec(),
        b"tip-metadata".to_vec(),
        b"999999".to_vec(),
        b"99999999999999999999".to_vec(), // exceeds u64 and is ignored
        b"".to_vec(),
    ];
    assert_eq!(r.scan_for_highest_block(&keys), 999_999);
    assert_eq!(r.read_block_height(&None, &keys).unwrap(), 999_999);
}

#[test]
fn test_network_tip_estimate() {
    let r = reader();
    // Ten whole block intervals after the genesis era, plus the genesis block.
    let now = 1477958400 + 750;
    assert_eq!(r.get_latest_network_block("mainnet", now).unwrap(), 11);
    assert_eq!(
        r.get_latest_network_block("testnet", now).unwrap(),
        2_500_000
    );
    assert!(r.get_latest_network_block("regtest", now).is_err());
}

#[test]
fn test_estimate_uptime() {
    let r = reader();
    // 7200 seconds is two hours: 2000 thousandths of an hour.
    assert_eq!(r.estimate_uptime(0, 7200).unwrap(), 2_000);
    // A half hour truncates to the whole thousandth.
    assert_eq!(r.estimate_uptime(100, 1900).unwrap(), 500);
    assert!(matches!(
        r.estimate_uptime(100, 99),
        Err(InspectError::MetricsUnavailable)
    ));
}

#[test]
fn test_binary_fingerprint_is_sha256_hex() {
    let r = reader();
    // Known SHA-256 test vector.
    let hash = r.compute_binary_hash(&b"abc".to_vec());
    assert_eq!(
        hash,
        "ba7816bf8f01cfea414140de5dae2223b00361a396177a9cb410ff61f20015ad"
    );
}

#[test]
fn test_read_metrics_from_observations() {
    let r = reader();
    let obs = StateObservations {
        mainnet_dir_exists: false,
        testnet_dir_exists: true,
        tip_value: Some(vec![0x50, 0x62, 0x25, 0x00, 0x00, 0x00, 0x00, 0x00]),
        scanned_keys: vec![],
        state_modified_secs: 1_699_992_800,
        now_secs: 1_700_000_000,
        zebra_version: "zebrad 1.5.0".to_string(),
        zebra_binary: b"abc".to_vec(),
    };
    let m = r.read_metrics(&obs).unwrap();
    assert_eq!(m.block_height, 2_450_000);
    assert_eq!(m.network, "testnet");
    // 2450000 blocks of an estimated 2500000: 98%.
    assert_eq!(m.sync_milli_percent, 98_000);
    // 7200 seconds since the last modification: two hours.
    assert_eq!(m.uptime_milli_hours, 2_000);
    assert_eq!(m.peer_count, 0);
    assert_eq!(m.blocks_served, 24_500);
    assert_eq!(m.zebra_version, "zebrad 1.5.0");
    assert_eq!(
        m.zebra_binary_hash,
        "ba7816bf8f01cfea414140de5dae2223b00361a396177a9cb410ff61f20015ad"
    );
    assert_eq!(m.timestamp, 1_700_000_000);

    let undetected = StateObservations {
        mainnet_dir_exists: false,
        testnet_dir_exists: false,
        tip_value: None,
        scanned_keys: vec![],
        state_modified_secs: 0,
        now_secs: 1_700_000_000,
        zebra_version: "zebrad 1.5.0".to_string(),
        zebra_binary: vec![],
    };
    assert!(matches!(
        r.read_metrics(&undetected),
        Err(InspectError::NetworkUndetected)
    ));
}

#[test]
fn test_locate_takes_first_hit() {
    assert_eq!(
        depinzcash_prover::zebra_reader::locate(&vec![false, true, true]).unwrap(),
        1
    );
    assert!(matches!(
        depinzcash_prover::zebra_reader::locate(&vec![false, false]),
        Err(InspectError::InstallationNotFound)
    ));
}

struct RefusingBackend;

impl AttestationBackend for RefusingBackend {
    fn prove(
        &self,
        _public: &PublicAttestation,
        _witness: &PrivateWitness,
        _identity: &Wallets,
    ) -> Result<String, String> {
        Err("no proving key".to_string())
    }

    fn sign(&self, _payload: &String) -> String {
        "unused".to_string()
    }
}

#[test]
fn test_generate_proof_backend_failure() {
    let config = Config {
        solana_wallet: "W".to_string(),
        zcash_address: "t1A".to_string(),
        node_id: None,
        auto_submit: false,
        api_endpoint: default_api_endpoint(),
        api_key: None,
    };
    let metrics = NodeMetrics {
        block_height: 1,
        sync_milli_percent: 1,
        network: "mainnet".to_string(),
        uptime_milli_hours: 1,
        peer_count: 0,
        blocks_served: 0,
        zebra_version: "v".to_string(),
        zebra_binary_hash: "h".to_string(),
        timestamp: 0,
    };
    let pg = ProofGenerator::new(config);
    let r = pg.generate_proof(&RefusingBackend, &metrics);
    assert!(matches!(r, Err(ProofError::ProofGenerationFailed)));
}

#[test]
fn test_end_to_end_scenario() {
    // Config and metrics from the documented end-to-end scenario.
    let config = Config {
        solana_wallet: "W".to_string(),
        zcash_address: "t1A".to_string(),
        node_id: None,
        auto_submit: false,
        api_endpoint: default_api_endpoint(),
        api_key: None,
    };
    assert!(config.validate().is_ok());
    let metrics = NodeMetrics {
        block_height: 2_450_000,
        sync_milli_percent: 100_000,
        network: "testnet".to_string(),
        uptime_milli_hours: 72_000,
        peer_count: 20,
        blocks_served: 24_500,
        zebra_version: "zebrad 1.5.0".to_string(),
        zebra_binary_hash: "hash".to_string(),
        timestamp: 1_700_000_000,
    };
    let pg = ProofGenerator::new(config);
    let proof = pg.generate_proof(&MockBackend {}, &metrics).unwrap();
    assert_eq!(proof.node_info.network, "testnet");
    assert_eq!(proof.metrics.block_height, 2_450_000);
    assert!(!proof.halo2_proof.is_empty());
    assert!(!proof.signature.is_empty());
    // The mock backend is deterministic: its blob and signature are fixed.
    assert_eq!(proof.halo2_proof, "mock-halo2-proof");
    assert_eq!(proof.signature, "mock-signature");
    assert_eq!(proof.public_inputs, vec!["2450000", "1700000000"]);
    let reward = proof.calculate_reward();
    assert_eq!(reward.multiplier_tenths, 15);
}

#[test]
fn test_verify_proof_is_unimplemented() {
    let r = verify_proof(&[1, 2, 3], &[42]);
    assert_eq!(r, Err("Real Halo 2 implementation required".to_string()));
}
