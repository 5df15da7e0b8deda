//! Proof Assembler and Reward Calculator: turns a `NodeMetrics` snapshot
//! plus a `Config` into a durable `Proof` record, and scores a record
//! deterministically.
//!
//! Reward amounts are held in zatoshi, the hundred-millionth of a ZEC,
//! so the documented rates are exact: the full-sync bonus of half a ZEC
//! is 50000000 zatoshi, the uptime rate of a thousandth of a ZEC per
//! hour is 100 zatoshi per thousandth of an hour, and the peer
//! multiplier of one and a half is 15 tenths.

use vstd::prelude::*;
use vstd::string::StringExecFns;

use crate::codec::dec_i64;
use crate::codec::dec_u64;
use crate::codec::i64_to_string;
use crate::codec::u64_to_string;
use crate::config::Config;
use crate::zebra_reader::NodeMetrics;

verus! {

/// Why proof generation failed.
#[derive(Debug, Clone, Copy, PartialEq, Eq, Structural)]
pub enum ProofError {
    /// The attestation backend reported a failure; no partial record is
    /// kept.
    ProofGenerationFailed,
}

/// Identity of the node software that produced a proof.
#[derive(Debug, Clone)]
pub struct NodeInfo {
    /// Zebra version string, captured verbatim.
    pub zebra_version: String,
    /// Lowercase hex SHA-256 fingerprint of the node binary.
    pub zebra_binary_hash: String,
    /// Network name, `mainnet` or `testnet`.
    pub network: String,
    /// Optional custom node identifier from the configuration.
    pub node_id: Option<String>,
}

/// Snapshot of the metrics a proof commits to; fixed point as in
/// `NodeMetrics`.
#[derive(Debug, Clone)]
pub struct ProofMetrics {
    /// Current blockchain height.
    pub block_height: u64,
    /// Sync progress in thousandths of a percent.
    pub sync_milli_percent: u64,
    /// Estimated uptime in thousandths of an hour.
    pub uptime_milli_hours: u64,
    /// Number of peers connected at capture time.
    pub peer_count: u32,
    /// Estimated blocks served to peers.
    pub blocks_served: u64,
}

/// Reward-destination addresses carried in a proof.
#[derive(Debug, Clone)]
pub struct Wallets {
    /// Solana wallet address.
    pub solana: String,
    /// Zcash address.
    pub zcash: String,
}

/// The durable attestation artifact; immutable once written.
#[derive(Debug, Clone)]
pub struct Proof {
    /// Schema version of the record.
    pub version: String,
    /// Unix seconds at which the record was created.
    pub timestamp: i64,
    /// Identity of the node software.
    pub node_info: NodeInfo,
    /// Snapshot of the metrics the proof commits to.
    pub metrics: ProofMetrics,
    /// Opaque attestation blob from the backend; never inspected here.
    pub halo2_proof: String,
    /// Public values the backend proof commits to: at minimum the block
    /// height and the capture timestamp, in that order.
    pub public_inputs: Vec<String>,
    /// Reward-destination addresses.
    pub wallets: Wallets,
    /// Opaque authenticity signature over the record.
    pub signature: String,
}

/// Mathematical model of a `NodeInfo`.
#[verifier::ext_equal]
pub ghost struct NodeInfoView {
    pub zebra_version: Seq<char>,
    pub zebra_binary_hash: Seq<char>,
    pub network: Seq<char>,
    pub node_id: Option<Seq<char>>,
}

/// Mathematical model of a `ProofMetrics`.
#[verifier::ext_equal]
pub ghost struct ProofMetricsView {
    pub block_height: int,
    pub sync_milli_percent: int,
    pub uptime_milli_hours: int,
    pub peer_count: int,
    pub blocks_served: int,
}

/// Mathematical model of a `Wallets`.
#[verifier::ext_equal]
pub ghost struct WalletsView {
    pub solana: Seq<char>,
    pub zcash: Seq<char>,
}

/// Mathematical model of a `Proof`, the value the text format encodes.
#[verifier::ext_equal]
pub ghost struct ProofView {
    pub version: Seq<char>,
    pub timestamp: int,
    pub node_info: NodeInfoView,
    pub metrics: ProofMetricsView,
    pub halo2_proof: Seq<char>,
    pub public_inputs: Seq<Seq<char>>,
    pub wallets: WalletsView,
    pub signature: Seq<char>,
}

impl View for NodeInfo {
    type V = NodeInfoView;

    open spec fn view(&self) -> NodeInfoView {
        NodeInfoView {
            zebra_version: self.zebra_version@,
            zebra_binary_hash: self.zebra_binary_hash@,
            network: self.network@,
            node_id: match self.node_id {
                None => None,
                Some(s) => Some(s@),
            },
        }
    }
}

impl View for ProofMetrics {
    type V = ProofMetricsView;

    open spec fn view(&self) -> ProofMetricsView {
        ProofMetricsView {
            block_height: self.block_height as int,
            sync_milli_percent: self.sync_milli_percent as int,
            uptime_milli_hours: self.uptime_milli_hours as int,
            peer_count: self.peer_count as int,
            blocks_served: self.blocks_served as int,
        }
    }
}

impl View for Wallets {
    type V = WalletsView;

    open spec fn view(&self) -> WalletsView {
        WalletsView { solana: self.solana@, zcash: self.zcash@ }
    }
}

impl View for Proof {
    type V = ProofView;

    open spec fn view(&self) -> ProofView {
        ProofView {
            version: self.version@,
            timestamp: self.timestamp as int,
            node_info: self.node_info@,
            metrics: self.metrics@,
            halo2_proof: self.halo2_proof@,
            public_inputs: self.public_inputs.deep_view(),
            wallets: self.wallets@,
            signature: self.signature@,
        }
    }
}

// ---------------------------------------------------------------------
// Reward Calculator.
// ---------------------------------------------------------------------

/// Full-sync bonus: half a ZEC.
pub const SYNC_BONUS_FULL_ZAT: u64 = 50000000;

/// Bonus for at least 90 percent sync: three eighths of a ZEC.
pub const SYNC_BONUS_HIGH_ZAT: u64 = 37500000;

/// Bonus for at least 75 percent sync: a quarter of a ZEC.
pub const SYNC_BONUS_MID_ZAT: u64 = 25000000;

/// Uptime rate: a thousandth of a ZEC per hour is 100 zatoshi per
/// thousandth of an hour.
pub const UPTIME_RATE_ZAT_PER_MILLI_HOUR: u64 = 100;

/// Largest uptime the reward arithmetic accepts without overflowing a
/// 64-bit zatoshi amount.
pub const MAX_SCORED_UPTIME_MILLI_HOURS: u64 = (u64::MAX - 50000000) / 1500;

/// Derived reward components for one proof, in zatoshi.
#[derive(Debug, Clone)]
pub struct RewardCalculation {
    /// Flat bonus for sync completeness.
    pub sync_bonus_zat: u64,
    /// Base reward for uptime, before the multiplier.
    pub uptime_reward_zat: u64,
    /// Service multiplier in tenths: 15 with peers, 10 without.
    pub multiplier_tenths: u64,
    /// Final score: the sync bonus plus the multiplied uptime reward.
    pub total_zat: u64,
}

/// The sync-bonus step function: full sync earns half a ZEC, at least
/// 90 percent three eighths, at least 75 percent a quarter, less earns
/// nothing. Bands are inclusive on their lower edge and the top band is
/// unbounded above.
pub open spec fn spec_sync_bonus(sync_milli_percent: int) -> int {
    if sync_milli_percent >= 100000 {
        SYNC_BONUS_FULL_ZAT as int
    } else if sync_milli_percent >= 90000 {
        SYNC_BONUS_HIGH_ZAT as int
    } else if sync_milli_percent >= 75000 {
        SYNC_BONUS_MID_ZAT as int
    } else {
        0
    }
}

/// The service multiplier in tenths: 15 exactly when any peer is
/// connected, else 10.
pub open spec fn spec_multiplier_tenths(peer_count: int) -> int {
    if peer_count > 0 {
        15
    } else {
        10
    }
}

/// Computes the sync-bonus tier for a sync level in thousandths of a
/// percent.
pub fn calculate_sync_bonus(sync_milli_percent: u64) -> (r: u64)
    ensures
        r == spec_sync_bonus(sync_milli_percent as int),
{
    if sync_milli_percent >= 100000 {
        SYNC_BONUS_FULL_ZAT
    } else if sync_milli_percent >= 90000 {
        SYNC_BONUS_HIGH_ZAT
    } else if sync_milli_percent >= 75000 {
        SYNC_BONUS_MID_ZAT
    } else {
        0
    }
}

impl Proof {
    /// Scores this record: a flat sync bonus, an uptime reward of 100
    /// zatoshi per thousandth of an hour, and a service multiplier that
    /// applies to the uptime component only.
    pub fn calculate_reward(&self) -> (r: RewardCalculation)
        requires
            self.metrics.uptime_milli_hours <= MAX_SCORED_UPTIME_MILLI_HOURS,
        ensures
            r.sync_bonus_zat == spec_sync_bonus(self.metrics.sync_milli_percent as int),
            r.uptime_reward_zat == self.metrics.uptime_milli_hours
                * UPTIME_RATE_ZAT_PER_MILLI_HOUR,
            r.multiplier_tenths == spec_multiplier_tenths(self.metrics.peer_count as int),
            r.total_zat == r.sync_bonus_zat + r.uptime_reward_zat * r.multiplier_tenths / 10,
    {
        let sync_bonus_zat = calculate_sync_bonus(self.metrics.sync_milli_percent);
        proof {
            assert(self.metrics.uptime_milli_hours * 100 * 15 <= u64::MAX - 50000000)
                by (nonlinear_arith)
                requires
                    self.metrics.uptime_milli_hours <= (u64::MAX - 50000000) / 1500,
            ;
        }
        let uptime_reward_zat = self.metrics.uptime_milli_hours * UPTIME_RATE_ZAT_PER_MILLI_HOUR;
        let multiplier_tenths: u64 = if self.metrics.peer_count > 0 {
            15
        } else {
            10
        };
        let total_zat = sync_bonus_zat + uptime_reward_zat * multiplier_tenths / 10;
        RewardCalculation { sync_bonus_zat, uptime_reward_zat, multiplier_tenths, total_zat }
    }
}

// ---------------------------------------------------------------------
// Attestation backend capability and the Proof Assembler.
// ---------------------------------------------------------------------

/// Public values handed to the attestation backend.
#[derive(Debug, Clone)]
pub struct PublicAttestation {
    /// Block height the proof commits to.
    pub block_height: u64,
    /// Capture timestamp the proof commits to.
    pub timestamp: i64,
}

/// Private witness data handed to the attestation backend and never
/// revealed.
#[derive(Debug, Clone)]
pub struct PrivateWitness {
    /// Fingerprint of the node binary.
    pub zebra_binary_hash: String,
    /// Merkle-proof material, when the backend uses any.
    pub merkle_proof: Vec<u8>,
    /// Estimated uptime in thousandths of an hour.
    pub uptime_milli_hours: u64,
}

impl PublicAttestation {
    /// The public values of one metrics snapshot: the block height and
    /// the capture timestamp.
    pub fn from_metrics(metrics: &NodeMetrics) -> (r: PublicAttestation)
        ensures
            r.block_height == metrics.block_height,
            r.timestamp == metrics.timestamp,
    {
        PublicAttestation { block_height: metrics.block_height, timestamp: metrics.timestamp }
    }
}

impl PrivateWitness {
    /// The private witness of one metrics snapshot: the binary
    /// fingerprint and the uptime; no Merkle-proof material exists yet.
    pub fn from_metrics(metrics: &NodeMetrics) -> (r: PrivateWitness)
        ensures
            r.zebra_binary_hash@ == metrics.zebra_binary_hash@,
            r.merkle_proof@ == Seq::<u8>::empty(),
            r.uptime_milli_hours == metrics.uptime_milli_hours,
    {
        let witness = PrivateWitness {
            zebra_binary_hash: metrics.zebra_binary_hash.clone(),
            merkle_proof: Vec::new(),
            uptime_milli_hours: metrics.uptime_milli_hours,
        };
        proof {
            assert(witness.merkle_proof@ =~= Seq::<u8>::empty());
        }
        witness
    }
}

impl Wallets {
    /// The reward-destination identity of a configuration: the Solana
    /// wallet and the Zcash address, in that order.
    pub fn from_config(config: &Config) -> (r: Wallets)
        ensures
            r.solana@ == config.solana_wallet@,
            r.zcash@ == config.zcash_address@,
    {
        Wallets { solana: config.solana_wallet.clone(), zcash: config.zcash_address.clone() }
    }
}

/// The opaque attestation capability: given public metrics, a private
/// witness and a wallet identity, it either returns an opaque proof blob
/// or fails; this library neither knows nor cares how.
pub trait AttestationBackend {
    /// Produces the attestation blob, or reports failure with an opaque
    /// reason. A blob returned on success is never empty.
    fn prove(&self, public: &PublicAttestation, witness: &PrivateWitness, identity: &Wallets) -> (r:
        Result<String, String>)
        ensures
            r is Ok ==> r->Ok_0@.len() > 0,
    ;

    /// Signs the attestation payload; the signature is never empty.
    fn sign(&self, payload: &String) -> (r: String)
        ensures
            r@.len() > 0,
    ;
}

/// Deterministic stand-in backend that returns placeholder blobs, for
/// tests and for runs without a proving system. It always succeeds, and
/// its blob and signature are fixed strings.
pub struct MockBackend {
}

impl AttestationBackend for MockBackend {
    fn prove(&self, public: &PublicAttestation, witness: &PrivateWitness, identity: &Wallets) -> (r:
        Result<String, String>)
        ensures
            r is Ok,
            r->Ok_0@ == "mock-halo2-proof"@,
    {
        let blob = String::from_str("mock-halo2-proof");
        proof {
            reveal_strlit("mock-halo2-proof");
        }
        Ok(blob)
    }

    fn sign(&self, payload: &String) -> (r: String)
        ensures
            r@ == "mock-signature"@,
    {
        let signature = String::from_str("mock-signature");
        proof {
            reveal_strlit("mock-signature");
        }
        signature
    }
}

/// The record that assembling a metrics snapshot with a configuration
/// and a backend blob and signature produces.
pub open spec fn spec_assembled(
    config: Config,
    m: NodeMetrics,
    blob: Seq<char>,
    sig: Seq<char>,
) -> ProofView {
    ProofView {
        version: "1.0"@,
        timestamp: m.timestamp as int,
        node_info: NodeInfoView {
            zebra_version: m.zebra_version@,
            zebra_binary_hash: m.zebra_binary_hash@,
            network: m.network@,
            node_id: match config.node_id {
                None => None,
                Some(s) => Some(s@),
            },
        },
        metrics: ProofMetricsView {
            block_height: m.block_height as int,
            sync_milli_percent: m.sync_milli_percent as int,
            uptime_milli_hours: m.uptime_milli_hours as int,
            peer_count: m.peer_count as int,
            blocks_served: m.blocks_served as int,
        },
        halo2_proof: blob,
        public_inputs: seq![dec_u64(m.block_height as int), dec_i64(m.timestamp as int)],
        wallets: WalletsView { solana: config.solana_wallet@, zcash: config.zcash_address@ },
        signature: sig,
    }
}

/// Orchestrates proof generation for one run.
pub struct ProofGenerator {
    /// The run's configuration.
    pub config: Config,
}

impl ProofGenerator {
    /// Creates a generator for the given configuration.
    pub fn new(config: Config) -> (r: ProofGenerator)
        ensures
            r.config == config,
    {
        ProofGenerator { config }
    }

    /// Builds the proof record from a metrics snapshot and the backend's
    /// blob and signature, by projection and copy alone.
    pub fn assemble(&self, metrics: &NodeMetrics, halo2_proof: String, signature: String) -> (p:
        Proof)
        ensures
            p@ == spec_assembled(self.config, *metrics, halo2_proof@, signature@),
    {
        let mut public_inputs: Vec<String> = Vec::new();
        public_inputs.push(u64_to_string(metrics.block_height));
        public_inputs.push(i64_to_string(metrics.timestamp));
        let node_id: Option<String> = match &self.config.node_id {
            None => None,
            Some(s) => Some(s.clone()),
        };
        let p = Proof {
            version: String::from_str("1.0"),
            timestamp: metrics.timestamp,
            node_info: NodeInfo {
                zebra_version: metrics.zebra_version.clone(),
                zebra_binary_hash: metrics.zebra_binary_hash.clone(),
                network: metrics.network.clone(),
                node_id,
            },
            metrics: ProofMetrics {
                block_height: metrics.block_height,
                sync_milli_percent: metrics.sync_milli_percent,
                uptime_milli_hours: metrics.uptime_milli_hours,
                peer_count: metrics.peer_count,
                blocks_served: metrics.blocks_served,
            },
            halo2_proof,
            public_inputs,
            wallets: Wallets {
                solana: self.config.solana_wallet.clone(),
                zcash: self.config.zcash_address.clone(),
            },
            signature,
        };
        proof {
            assert(p.public_inputs.deep_view() =~= seq![
                dec_u64(metrics.block_height as int),
                dec_i64(metrics.timestamp as int),
            ]);
            assert(p@ =~= spec_assembled(self.config, *metrics, p.halo2_proof@, p.signature@));
        }
        p
    }

    /// Invokes the attestation backend with the public metrics, the
    /// private witness and the wallet identity, and wraps its blob into
    /// a complete record; on backend failure no partial record is kept.
    pub fn generate_proof<B: AttestationBackend>(&self, backend: &B, metrics: &NodeMetrics) -> (r:
        Result<Proof, ProofError>)
        ensures
            match r {
                Ok(p) => (exists|blob: Seq<char>, sig: Seq<char>|
                    {
                        &&& blob.len() > 0
                        &&& sig.len() > 0
                        &&& p@ == #[trigger] spec_assembled(self.config, *metrics, blob, sig)
                    }),
                Err(e) => e == ProofError::ProofGenerationFailed,
            },
    {
        let public = PublicAttestation::from_metrics(metrics);
        let witness = PrivateWitness::from_metrics(metrics);
        let identity = Wallets::from_config(&self.config);
        match backend.prove(&public, &witness, &identity) {
            Err(_) => Err(ProofError::ProofGenerationFailed),
            Ok(blob) => {
                let signature = backend.sign(&blob);
                let ghost blob_view = blob@;
                let ghost sig_view = signature@;
                let p = self.assemble(metrics, blob, signature);
                proof {
                    assert(p@ == spec_assembled(self.config, *metrics, blob_view, sig_view));
                }
                Ok(p)
            },
        }
    }
}

/// Placeholder for attestation-blob verification: the real proving
/// system is an external collaborator, so this always reports that a
/// real implementation is required.
pub fn verify_proof(proof: &[u8], public_inputs: &[u64]) -> (r: Result<bool, String>)
    ensures
        r is Err,
        r->Err_0@ == "Real Halo 2 implementation required"@,
{
    Err(String::from_str("Real Halo 2 implementation required"))
}

} // verus!
