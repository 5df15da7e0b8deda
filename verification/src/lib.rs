//! Attestation pipeline for a Zcash Zebra full node.
//!
//! The library turns observations of a running node (chain-state storage
//! contents, filesystem timestamps, the node binary) into a `NodeMetrics`
//! snapshot, assembles the snapshot together with wallet identity into a
//! durable `Proof` record, and scores that record with a deterministic
//! reward function. Everything that reads disks, clocks or processes lives
//! outside the library; the library takes those observations as plain
//! values and is verified end to end.
//!
//! Fractional quantities are held in fixed-point units so that the
//! arithmetic is exact: sync progress in thousandths of a percent, uptime
//! in thousandths of an hour, and reward amounts in zatoshi
//! (one hundred-millionth of a ZEC).

pub mod codec;
pub mod config;
pub mod proof_gen;
pub mod zebra_reader;

pub use codec::DecodeError;
pub use codec::decode;
pub use codec::encode;
pub use config::Config;
pub use config::ConfigError;
pub use config::default_api_endpoint;
pub use proof_gen::AttestationBackend;
pub use proof_gen::MockBackend;
pub use proof_gen::NodeInfo;
pub use proof_gen::PrivateWitness;
pub use proof_gen::Proof;
pub use proof_gen::ProofError;
pub use proof_gen::ProofGenerator;
pub use proof_gen::ProofMetrics;
pub use proof_gen::PublicAttestation;
pub use proof_gen::RewardCalculation;
pub use proof_gen::Wallets;
pub use proof_gen::calculate_sync_bonus;
pub use proof_gen::verify_proof;
pub use zebra_reader::InspectError;
pub use zebra_reader::locate;
pub use zebra_reader::NodeMetrics;
pub use zebra_reader::StateObservations;
pub use zebra_reader::ZebraReader;
