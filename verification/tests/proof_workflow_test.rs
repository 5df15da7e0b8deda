// End-to-end proof workflow tests

use depinzcash_prover::decode;
use depinzcash_prover::encode;
use depinzcash_prover::Config;
use depinzcash_prover::MockBackend;
use depinzcash_prover::NodeInfo;
use depinzcash_prover::NodeMetrics;
use depinzcash_prover::Proof;
use depinzcash_prover::ProofGenerator;
use depinzcash_prover::ProofMetrics;
use depinzcash_prover::Wallets;

#[test]
fn test_full_proof_workflow() {
    // Setup test data
    let config = Config {
        solana_wallet: "TestWallet123".to_string(),
        zcash_address: "t1TestAddr".to_string(),
        node_id: Some("workflow-test".to_string()),
        auto_submit: false,
        api_endpoint: "https://test.local".to_string(),
        api_key: None,
    };

    let metrics = NodeMetrics {
        block_height: 2450000,
        sync_milli_percent: 100_000,
        network: "testnet".to_string(),
        uptime_milli_hours: 72_000, // 3 days
        peer_count: 20,
        blocks_served: 3000,
        zebra_version: "1.5.0".to_string(),
        zebra_binary_hash: "test_binary_hash".to_string(),
        timestamp: chrono::Utc::now().timestamp(),
    };

    // Generate proof
    let proof_gen = ProofGenerator::new(config.clone());
    let proof_result = proof_gen.generate_proof(&MockBackend {}, &metrics);

    assert!(proof_result.is_ok(), "Proof generation failed");

    let proof = proof_result.unwrap();

    // Verify proof structure
    assert_eq!(proof.version, "1.0");
    assert_eq!(proof.node_info.network, "testnet");
    assert_eq!(proof.metrics.block_height, 2450000);
    assert_eq!(proof.wallets.solana, config.solana_wallet);
    assert!(!proof.halo2_proof.is_empty());
    assert!(!proof.signature.is_empty());

    // Test serialization through the stable text format
    let text = encode(&proof);

    // Load it back
    let loaded_proof = decode(text.as_str()).unwrap();
    assert_eq!(proof.metrics.block_height, loaded_proof.metrics.block_height);
}

#[test]
fn test_reward_scenarios() {
    // Scenario 1: Full sync, serving peers, 30 days
    let proof1 = create_test_proof(100_000, 720_000, 15);
    let reward1 = proof1.calculate_reward();

    println!("Scenario 1 - Full sync, 30 days, serving peers:");
    println!("  Sync bonus: {}", reward1.sync_bonus_zat);
    println!("  Uptime reward: {}", reward1.uptime_reward_zat);
    println!("  Multiplier: {} tenths", reward1.multiplier_tenths);
    println!("  Total: {} zatoshi\n", reward1.total_zat);

    assert!(reward1.total_zat > 100_000_000);
    assert_eq!(reward1.multiplier_tenths, 15);

    // Scenario 2: Partial sync, no peers, 1 week
    let proof2 = create_test_proof(85_000, 168_000, 0);
    let reward2 = proof2.calculate_reward();

    println!("Scenario 2 - 85% sync, 1 week, no peers:");
    println!("  Sync bonus: {}", reward2.sync_bonus_zat);
    println!("  Uptime reward: {}", reward2.uptime_reward_zat);
    println!("  Multiplier: {} tenths", reward2.multiplier_tenths);
    println!("  Total: {} zatoshi\n", reward2.total_zat);

    assert!(reward2.total_zat < reward1.total_zat);
    assert_eq!(reward2.multiplier_tenths, 10);

    // Scenario 3: Full sync, serving many peers, 14 days
    let proof3 = create_test_proof(100_000, 336_000, 50);
    let reward3 = proof3.calculate_reward();

    println!("Scenario 3 - Full sync, 14 days, 50 peers:");
    println!("  Sync bonus: {}", reward3.sync_bonus_zat);
    println!("  Uptime reward: {}", reward3.uptime_reward_zat);
    println!("  Multiplier: {} tenths", reward3.multiplier_tenths);
    println!("  Total: {} zatoshi\n", reward3.total_zat);

    assert_eq!(reward3.sync_bonus_zat, 50_000_000);
    assert_eq!(reward3.multiplier_tenths, 15);
}

#[test]
fn test_sync_tiers() {
    let tests = vec![
        (100_000u64, 50_000_000u64), // Full sync
        (99_000, 37_500_000),        // 90-99%
        (90_000, 37_500_000),        // 90-99%
        (89_000, 25_000_000),        // 75-89%
        (75_000, 25_000_000),        // 75-89%
        (74_000, 0),                 // Below threshold
    ];

    for (sync_milli_pct, expected_bonus) in tests {
        let proof = create_test_proof(sync_milli_pct, 1_000, 0);
        let reward = proof.calculate_reward();

        assert_eq!(
            reward.sync_bonus_zat, expected_bonus,
            "Sync {} milli-% should give {} zatoshi bonus",
            sync_milli_pct, expected_bonus
        );
    }
}

#[test]
fn proof_workflow_test_test_peer_multiplier() {
    // With peers
    let with_peers = create_test_proof(100_000, 100_000, 10);
    let reward_with = with_peers.calculate_reward();

    // Without peers
    let without_peers = create_test_proof(100_000, 100_000, 0);
    let reward_without = without_peers.calculate_reward();

    assert_eq!(reward_with.multiplier_tenths, 15);
    assert_eq!(reward_without.multiplier_tenths, 10);
    assert!(reward_with.total_zat > reward_without.total_zat);
}

// Helper function
fn create_test_proof(sync_milli_percent: u64, uptime_milli_hours: u64, peer_count: u32) -> Proof {
    Proof {
        version: "1.0".to_string(),
        timestamp: chrono::Utc::now().timestamp(),
        node_info: NodeInfo {
            zebra_version: "1.5.0".to_string(),
            zebra_binary_hash: "test".to_string(),
            network: "testnet".to_string(),
            node_id: None,
        },
        metrics: ProofMetrics {
            block_height: 2450000,
            sync_milli_percent,
            uptime_milli_hours,
            peer_count,
            blocks_served: 1000,
        },
        halo2_proof: "test".to_string(),
        public_inputs: vec![],
        wallets: Wallets {
            solana: "test_sol".to_string(),
            zcash: "t1test_zec".to_string(),
        },
        signature: "sig".to_string(),
    }
}
