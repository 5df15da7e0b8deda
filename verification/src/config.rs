//! Per-run configuration: wallet identity and submission settings.

use vstd::prelude::*;
use vstd::string::StrSliceExecFns;
use vstd::string::StringExecFns;

verus! {

/// Reward-destination wallet addresses and submission settings,
/// loaded once and immutable for the run.
#[derive(Debug, Clone)]
pub struct Config {
    /// Solana wallet address that receives rewards; must be non-empty.
    pub solana_wallet: String,
    /// Zcash address that receives rewards; must start with `t` or `z`.
    pub zcash_address: String,
    /// Optional custom node identifier.
    pub node_id: Option<String>,
    /// Submit proofs automatically after generation.
    pub auto_submit: bool,
    /// Endpoint that proofs are submitted to.
    pub api_endpoint: String,
    /// Key for automatic submission, if any.
    pub api_key: Option<String>,
}

/// Why a configuration was rejected.
#[derive(Debug, Clone, Copy, PartialEq, Eq, Structural)]
pub enum ConfigError {
    /// The Solana wallet address is empty.
    EmptySolanaWallet,
    /// The Zcash address is empty.
    EmptyZcashAddress,
    /// The Zcash address does not start with `t` or `z`.
    InvalidZcashAddress,
}

/// A Zcash address names a transparent (`t`) or shielded (`z`) pool.
pub open spec fn zcash_address_well_formed(addr: Seq<char>) -> bool {
    addr.len() > 0 && (addr[0] == 't' || addr[0] == 'z')
}

/// Both wallet addresses are present and the Zcash address is well formed.
pub open spec fn config_valid(c: Config) -> bool {
    &&& c.solana_wallet@.len() > 0
    &&& zcash_address_well_formed(c.zcash_address@)
}

/// The endpoint used when the configuration names none.
pub fn default_api_endpoint() -> (r: String)
    ensures
        r@ == "https://depinzcash.io/api/submit"@,
{
    String::from_str("https://depinzcash.io/api/submit")
}

impl Config {
    /// Checks the configuration invariant: both wallet addresses are
    /// non-empty and the Zcash address starts with `t` or `z`.
    pub fn validate(&self) -> (r: Result<(), ConfigError>)
        ensures
            r is Ok <==> config_valid(*self),
            r == Err::<(), ConfigError>(ConfigError::EmptySolanaWallet) <==> self.solana_wallet@.len() == 0,
            r == Err::<(), ConfigError>(ConfigError::EmptyZcashAddress) <==> self.solana_wallet@.len() > 0
                && self.zcash_address@.len() == 0,
            r == Err::<(), ConfigError>(ConfigError::InvalidZcashAddress) <==> self.solana_wallet@.len() > 0
                && self.zcash_address@.len() > 0
                && !(self.zcash_address@[0] == 't' || self.zcash_address@[0] == 'z'),
    {
        if self.solana_wallet.as_str().is_empty() {
            return Err(ConfigError::EmptySolanaWallet);
        }
        let zcash = self.zcash_address.as_str();
        if zcash.is_empty() {
            return Err(ConfigError::EmptyZcashAddress);
        }
        let first = zcash.get_char(0);
        if first == 't' || first == 'z' {
            Ok(())
        } else {
            Err(ConfigError::InvalidZcashAddress)
        }
    }

    /// Builds a configuration from the three user-supplied answers, with
    /// the documented defaults for the rest, and validates it.
    pub fn new(solana_wallet: String, zcash_address: String, node_id: Option<String>) -> (r: Result<
        Config,
        ConfigError,
    >)
        ensures
            match r {
                Ok(c) => {
                    &&& config_valid(c)
                    &&& c.solana_wallet == solana_wallet
                    &&& c.zcash_address == zcash_address
                    &&& c.node_id == node_id
                    &&& c.auto_submit == false
                    &&& c.api_endpoint@ == "https://depinzcash.io/api/submit"@
                    &&& c.api_key is None
                },
                Err(e) => {
                    &&& e == ConfigError::EmptySolanaWallet <==> solana_wallet@.len() == 0
                    &&& e == ConfigError::EmptyZcashAddress <==> solana_wallet@.len() > 0
                        && zcash_address@.len() == 0
                    &&& e == ConfigError::InvalidZcashAddress <==> solana_wallet@.len() > 0
                        && !zcash_address_well_formed(zcash_address@)
                        && zcash_address@.len() > 0
                },
            },
            r is Ok <==> solana_wallet@.len() > 0 && zcash_address_well_formed(zcash_address@),
    {
        let config = Config {
            solana_wallet,
            zcash_address,
            node_id,
            auto_submit: false,
            api_endpoint: default_api_endpoint(),
            api_key: None,
        };
        match config.validate() {
            Ok(()) => Ok(config),
            Err(e) => Err(e),
        }
    }
}

} // verus!
