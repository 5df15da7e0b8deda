use depinzcash_prover::default_api_endpoint;
use depinzcash_prover::Config;

#[test]
fn config_test_config_validation() {
    let valid_config = Config {
        solana_wallet: "8zP3Q...".to_string(),
        zcash_address: "t1abc123...".to_string(),
        node_id: None,
        auto_submit: false,
        api_endpoint: default_api_endpoint(),
        api_key: None,
    };

    assert!(valid_config.validate().is_ok());

    let invalid_config = Config {
        solana_wallet: "8zP3Q...".to_string(),
        zcash_address: "invalid".to_string(),
        node_id: None,
        auto_submit: false,
        api_endpoint: default_api_endpoint(),
        api_key: None,
    };

    assert!(invalid_config.validate().is_err());
}
