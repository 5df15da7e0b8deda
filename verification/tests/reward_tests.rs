// Simplified reward tests that don't require a node state store.

#[test]
fn test_basic_reward_math() {
    // Simulate reward calculation without full proof struct

    // Test 1: Full sync bonus
    let sync_100 = calculate_sync_bonus(100.0);
    assert_eq!(sync_100, 0.5);

    let sync_95 = calculate_sync_bonus(95.0);
    assert_eq!(sync_95, 0.375);

    let sync_80 = calculate_sync_bonus(80.0);
    assert_eq!(sync_80, 0.25);

    let sync_70 = calculate_sync_bonus(70.0);
    assert_eq!(sync_70, 0.0);
}

#[test]
fn test_uptime_rewards() {
    // Base rate: 0.001 per hour
    let reward_24h = 24.0 * 0.001;
    assert_eq!(reward_24h, 0.024);

    let reward_720h = 720.0 * 0.001; // 30 days
    assert_eq!(reward_720h, 0.72);
}

#[test]
fn reward_tests_test_peer_multiplier() {
    let base_reward = 1.0;

    // With peers: 1.5x
    let with_peers = base_reward * 1.5;
    assert_eq!(with_peers, 1.5);

    // Without peers: 1.0x
    let without_peers = base_reward * 1.0;
    assert_eq!(without_peers, 1.0);
}

#[test]
fn test_full_scenario() {
    // Scenario: 30 days, 100% sync, serving peers
    let sync_bonus = 0.5;
    let uptime_hours = 720.0;
    let uptime_reward = uptime_hours * 0.001;
    let multiplier = 1.5;

    let total = sync_bonus + (uptime_reward * multiplier);

    // Should be around 1.58 ZEC
    assert!((total - 1.58f64).abs() < 0.01);
}

#[test]
fn test_partial_sync_scenario() {
    // Scenario: 7 days, 90% sync, no peers
    let sync_bonus = 0.375;
    let uptime_hours = 168.0;
    let uptime_reward = uptime_hours * 0.001;
    let multiplier = 1.0;

    let total = sync_bonus + (uptime_reward * multiplier);

    // Should be around 0.543 ZEC
    assert!((total - 0.543f64).abs() < 0.01);
}

// Helper functions (simplified reward logic)
fn calculate_sync_bonus(sync_pct: f64) -> f64 {
    if sync_pct >= 100.0 {
        0.5
    } else if sync_pct >= 90.0 {
        0.375
    } else if sync_pct >= 75.0 {
        0.25
    } else {
        0.0
    }
}
