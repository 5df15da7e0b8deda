//! State Inspector: turns raw observations of a Zebra node installation
//! into a `NodeMetrics` snapshot.
//!
//! All filesystem, database and process probing happens outside the
//! library; the results arrive here as plain values (`StateObservations`)
//! and every decision taken over them is verified.

use vstd::prelude::*;
use vstd::string::StrSliceExecFns;
use vstd::string::StringExecFns;

verus! {

/// Unix timestamp of the Zcash mainnet genesis block era used by the
/// network-tip estimate.
pub const MAINNET_GENESIS_TIMESTAMP: i64 = 1477958400;

/// Average seconds between mainnet blocks, for the network-tip estimate.
pub const MAINNET_BLOCK_INTERVAL_SECS: i64 = 75;

/// Fixed estimate of the testnet tip height.
pub const TESTNET_TIP_ESTIMATE: u64 = 2500000;

/// Metrics read from a Zebra node. Fractional quantities are fixed point:
/// sync progress in thousandths of a percent, uptime in thousandths of an
/// hour.
#[derive(Debug, Clone)]
pub struct NodeMetrics {
    /// Current blockchain height.
    pub block_height: u64,
    /// Sync progress in thousandths of a percent of the estimated network
    /// tip; advisory only, and may exceed 100000 when the estimate is stale.
    pub sync_milli_percent: u64,
    /// Network name, `mainnet` or `testnet`.
    pub network: String,
    /// Estimated node uptime in thousandths of an hour.
    pub uptime_milli_hours: u64,
    /// Number of peers currently connected; best effort, 0 when unknown.
    pub peer_count: u32,
    /// Total blocks served to peers; best effort estimate.
    pub blocks_served: u64,
    /// Zebra version string, captured verbatim.
    pub zebra_version: String,
    /// Lowercase hex SHA-256 fingerprint of the node binary.
    pub zebra_binary_hash: String,
    /// Unix seconds at which the metrics were captured.
    pub timestamp: i64,
}

/// Why metrics collection failed.
#[derive(Debug, Clone, Copy, PartialEq, Eq, Structural)]
pub enum InspectError {
    /// No candidate directory holds a node installation.
    InstallationNotFound,
    /// Neither a `mainnet` nor a `testnet` state directory exists.
    NetworkUndetected,
    /// A metric essential to identity could not be derived from the
    /// observations.
    MetricsUnavailable,
}

/// Raw observations of one node installation, gathered outside the
/// library and consumed by `ZebraReader::read_metrics`.
pub struct StateObservations {
    /// A `mainnet` subdirectory exists under the state directory.
    pub mainnet_dir_exists: bool,
    /// A `testnet` subdirectory exists under the state directory.
    pub testnet_dir_exists: bool,
    /// Value stored under the tip-height key of the chain-state store,
    /// if that key is present.
    pub tip_value: Option<Vec<u8>>,
    /// Every key of the chain-state store, for the scan fallback when the
    /// tip-height key is absent.
    pub scanned_keys: Vec<Vec<u8>>,
    /// Unix seconds of the state directory's last modification.
    pub state_modified_secs: i64,
    /// Unix seconds at capture time.
    pub now_secs: i64,
    /// Output of the node binary's version report, verbatim.
    pub zebra_version: String,
    /// Contents of the node binary, for the identity fingerprint.
    pub zebra_binary: Vec<u8>,
}

/// The named digest of the input bytes.
pub uninterp spec fn sha256_of(data: Seq<u8>) -> Seq<u8>;

/// Relies on sha2's `Sha256::digest`: the digest depends on the input
/// bytes alone and is always 32 bytes long.
#[verifier::external_body]
fn sha256_digest(data: &[u8]) -> (r: Vec<u8>)
    ensures
        r@ == sha256_of(data@),
        r@.len() == 32,
{
    let digest = <sha2::Sha256 as sha2::Digest>::digest(data);
    digest.as_slice().to_vec()
}

/// The lowercase hex digit for a value below 16.
pub open spec fn hex_digit(n: u8) -> char {
    if n == 0 {
        '0'
    } else if n == 1 {
        '1'
    } else if n == 2 {
        '2'
    } else if n == 3 {
        '3'
    } else if n == 4 {
        '4'
    } else if n == 5 {
        '5'
    } else if n == 6 {
        '6'
    } else if n == 7 {
        '7'
    } else if n == 8 {
        '8'
    } else if n == 9 {
        '9'
    } else if n == 10 {
        'a'
    } else if n == 11 {
        'b'
    } else if n == 12 {
        'c'
    } else if n == 13 {
        'd'
    } else if n == 14 {
        'e'
    } else {
        'f'
    }
}

/// Lowercase hex encoding: two digits per byte, most significant nibble
/// first.
pub open spec fn spec_hex_of(data: Seq<u8>) -> Seq<char>
    decreases data.len(),
{
    if data.len() == 0 {
        Seq::<char>::empty()
    } else {
        seq![hex_digit(data.first() / 16), hex_digit(data.first() % 16)] + spec_hex_of(
            data.drop_first(),
        )
    }
}

/// Relies on hex::encode: lowercase, exactly two hex digits per input
/// byte, most significant nibble first.
#[verifier::external_body]
fn hex_encode(data: &[u8]) -> (r: String)
    ensures
        r@ == spec_hex_of(data@),
{
    hex::encode(data)
}

/// The hex encoding is two characters per byte.
proof fn lemma_hex_len(data: Seq<u8>)
    ensures
        spec_hex_of(data).len() == 2 * data.len(),
    decreases data.len(),
{
    if data.len() > 0 {
        lemma_hex_len(data.drop_first());
    }
}

/// The height stored in an 8-byte little-endian tip value.
pub open spec fn le64_value(s: Seq<u8>) -> int
    recommends
        s.len() == 8,
{
    s[0] + s[1] * 0x100 + s[2] * 0x10000 + s[3] * 0x1000000 + s[4] * 0x100000000 + s[5]
        * 0x10000000000 + s[6] * 0x1000000000000 + s[7] * 0x100000000000000
}

/// An ASCII decimal digit.
pub open spec fn is_digit_byte(b: u8) -> bool {
    48 <= b <= 57
}

/// Value of a string of ASCII decimal digits, most significant first.
pub open spec fn digits_value(s: Seq<u8>) -> int
    decreases s.len(),
{
    if s.len() == 0 {
        0
    } else {
        digits_value(s.drop_last()) * 10 + (s.last() - 48)
    }
}

/// The height a store key stands for: a key counts only if it is a
/// non-empty string of ASCII decimal digits whose value fits in `u64`.
pub open spec fn key_height(k: Seq<u8>) -> Option<u64> {
    if k.len() > 0 && (forall|i: int| 0 <= i < k.len() ==> is_digit_byte(k[i])) && digits_value(k)
        <= u64::MAX {
        Some(digits_value(k) as u64)
    } else {
        None
    }
}

/// The highest height any key of the store stands for; 0 when no key
/// counts, in particular on an empty store.
pub open spec fn max_scanned(keys: Seq<Seq<u8>>) -> u64
    decreases keys.len(),
{
    if keys.len() == 0 {
        0u64
    } else {
        let rest = max_scanned(keys.drop_last());
        match key_height(keys.last()) {
            Some(h) => if h > rest {
                h
            } else {
                rest
            },
            None => rest,
        }
    }
}

/// A network was detected from the state directory layout.
pub open spec fn network_detected(obs: StateObservations) -> bool {
    obs.mainnet_dir_exists || obs.testnet_dir_exists
}

/// The detected network name; `mainnet` wins when both directories exist.
pub open spec fn spec_network_name(obs: StateObservations) -> Seq<char> {
    if obs.mainnet_dir_exists {
        "mainnet"@
    } else {
        "testnet"@
    }
}

/// The block height can be derived from the store observations: either
/// the tip value is 8 bytes long, or the scan fallback applies.
pub open spec fn height_available(obs: StateObservations) -> bool {
    match obs.tip_value {
        Some(v) => v@.len() == 8,
        None => true,
    }
}

/// The block height derived from the store observations.
pub open spec fn spec_height(obs: StateObservations) -> int {
    match obs.tip_value {
        Some(v) => le64_value(v@),
        None => max_scanned(obs.scanned_keys.deep_view()) as int,
    }
}

/// The estimated network tip: a deterministic formula from the genesis
/// era and the average block interval on mainnet, a fixed constant on
/// testnet.
pub open spec fn spec_tip_estimate(obs: StateObservations) -> int {
    if obs.mainnet_dir_exists {
        (obs.now_secs - MAINNET_GENESIS_TIMESTAMP) / (MAINNET_BLOCK_INTERVAL_SECS as int) + 1
    } else {
        TESTNET_TIP_ESTIMATE as int
    }
}

/// Sync progress in thousandths of a percent, saturating at the largest
/// representable value.
pub open spec fn spec_sync_milli_percent(obs: StateObservations) -> int {
    let exact = spec_height(obs) * 100000 / spec_tip_estimate(obs);
    if exact <= u64::MAX {
        exact
    } else {
        u64::MAX as int
    }
}

/// The uptime estimate can be derived: the state directory was not
/// modified in the future.
pub open spec fn uptime_available(obs: StateObservations) -> bool {
    obs.state_modified_secs <= obs.now_secs
}

/// Uptime in thousandths of an hour, truncated.
pub open spec fn spec_uptime_milli_hours(obs: StateObservations) -> int {
    (obs.now_secs - obs.state_modified_secs) * 1000 / 3600
}

/// The metrics snapshot that the observations determine.
pub open spec fn metrics_ok(obs: StateObservations, m: NodeMetrics) -> bool {
    &&& m.block_height == spec_height(obs)
    &&& m.sync_milli_percent == spec_sync_milli_percent(obs)
    &&& m.network@ == spec_network_name(obs)
    &&& m.uptime_milli_hours == spec_uptime_milli_hours(obs)
    &&& m.peer_count == 0
    &&& m.blocks_served == spec_height(obs) / 100
    &&& m.zebra_version@ == obs.zebra_version@
    &&& m.zebra_binary_hash@ == spec_hex_of(sha256_of(obs.zebra_binary@))
    &&& m.timestamp == obs.now_secs
}

/// Probes an ordered list of candidate install locations, given for each
/// whether it exists and holds a `state` subdirectory; the first hit wins.
pub fn locate(has_state: &Vec<bool>) -> (r: Result<usize, InspectError>)
    ensures
        match r {
            Ok(i) => 0 <= i < has_state@.len() && has_state@[i as int] && (forall|j: int|
                0 <= j < i ==> !has_state@[j]),
            Err(e) => e == InspectError::InstallationNotFound && (forall|j: int|
                0 <= j < has_state@.len() ==> !has_state@[j]),
        },
{
    let mut i: usize = 0;
    while i < has_state.len()
        invariant
            0 <= i <= has_state@.len(),
            forall|j: int| 0 <= j < i ==> !has_state@[j],
        decreases has_state@.len() - i,
    {
        if has_state[i] {
            return Ok(i);
        }
        i = i + 1;
    }
    Err(InspectError::InstallationNotFound)
}

/// Parses a store key as a decimal height, exactly when `key_height`
/// gives one.
fn parse_decimal_key(k: &Vec<u8>) -> (r: Option<u64>)
    ensures
        r == key_height(k@),
{
    if k.len() == 0 {
        return None;
    }
    let mut acc: u64 = 0;
    let mut i: usize = 0;
    while i < k.len()
        invariant
            0 <= i <= k@.len(),
            forall|j: int| 0 <= j < i ==> is_digit_byte(k@[j]),
            acc == digits_value(k@.take(i as int)),
        decreases k@.len() - i,
    {
        let b = k[i];
        if b < 48 || b > 57 {
            assert(!is_digit_byte(k@[i as int]));
            return None;
        }
        let d = (b - 48) as u64;
        proof {
            assert(k@.take(i + 1).drop_last() =~= k@.take(i as int));
            assert(k@.take(i + 1).last() == k@[i as int]);
        }
        if acc > (u64::MAX - d) / 10 {
            proof {
                assert(acc * 10 + d > u64::MAX) by (nonlinear_arith)
                    requires
                        acc > (u64::MAX - d) / 10,
                        0 <= d <= 9,
                        acc >= 0,
                ;
                if forall|j: int| 0 <= j < k@.len() ==> is_digit_byte(k@[j]) {
                    lemma_digits_value_grows(k@, i + 1);
                }
            }
            return None;
        }
        acc = acc * 10 + d;
        i = i + 1;
    }
    proof {
        assert(k@.take(k@.len() as int) =~= k@);
    }
    Some(acc)
}

/// The value of a digit string only grows as more digits follow: if a
/// prefix already exceeds `u64::MAX`, the whole key does.
proof fn lemma_digits_value_grows(s: Seq<u8>, i: int)
    requires
        0 <= i <= s.len(),
        digits_value(s.take(i)) >= 0,
        forall|j: int| i <= j < s.len() ==> is_digit_byte(s[j]),
    ensures
        digits_value(s.take(i)) <= digits_value(s),
    decreases s.len() - i,
{
    if i < s.len() {
        assert(s.take(i + 1).drop_last() =~= s.take(i));
        assert(digits_value(s.take(i + 1)) == digits_value(s.take(i)) * 10 + (s[i] - 48));
        assert(digits_value(s.take(i)) * 10 >= digits_value(s.take(i))) by (nonlinear_arith)
            requires
                digits_value(s.take(i)) >= 0,
        ;
        lemma_digits_value_grows(s, i + 1);
    } else {
        assert(s.take(i) =~= s);
    }
}

/// Reader for the persistent state of one Zebra node installation.
pub struct ZebraReader {
    state_dir: String,
}

impl ZebraReader {
    /// The state directory this reader was created for.
    pub closed spec fn spec_state_dir(&self) -> Seq<char> {
        self.state_dir@
    }

    /// Creates a reader for a state directory, which the caller has
    /// checked for existence; fails when the directory is absent.
    pub fn new(state_dir: String, state_dir_exists: bool) -> (r: Result<ZebraReader, InspectError>)
        ensures
            r is Ok <==> state_dir_exists,
            r is Ok ==> r->Ok_0.spec_state_dir() == state_dir@,
            r is Err ==> r->Err_0 == InspectError::InstallationNotFound,
    {
        if state_dir_exists {
            Ok(ZebraReader { state_dir })
        } else {
            Err(InspectError::InstallationNotFound)
        }
    }

    /// Selects the network from the state directory layout: a `mainnet`
    /// subdirectory wins over `testnet`; neither is a failure.
    pub fn detect_network(&self, mainnet_dir_exists: bool, testnet_dir_exists: bool) -> (r: Result<
        String,
        InspectError,
    >)
        ensures
            mainnet_dir_exists ==> r is Ok && r->Ok_0@ == "mainnet"@,
            !mainnet_dir_exists && testnet_dir_exists ==> r is Ok && r->Ok_0@ == "testnet"@,
            r is Err <==> !mainnet_dir_exists && !testnet_dir_exists,
            r is Err ==> r->Err_0 == InspectError::NetworkUndetected,
    {
        if mainnet_dir_exists {
            Ok(String::from_str("mainnet"))
        } else if testnet_dir_exists {
            Ok(String::from_str("testnet"))
        } else {
            Err(InspectError::NetworkUndetected)
        }
    }

    /// Derives the chain tip height from the store observations: an
    /// 8-byte tip value is read little endian; any other length is
    /// malformed; an absent tip key falls back to the key scan.
    pub fn read_block_height(&self, tip_value: &Option<Vec<u8>>, scanned_keys: &Vec<Vec<u8>>) -> (r:
        Result<u64, InspectError>)
        ensures
            match tip_value {
                Some(v) => if v@.len() == 8 {
                    r == Ok::<u64, InspectError>(le64_value(v@) as u64)
                } else {
                    r == Err::<u64, InspectError>(InspectError::MetricsUnavailable)
                },
                None => r == Ok::<u64, InspectError>(max_scanned(scanned_keys.deep_view())),
            },
    {
        match tip_value {
            Some(v) => {
                if v.len() != 8 {
                    Err(InspectError::MetricsUnavailable)
                } else {
                    let h = (v[0] as u64) + (v[1] as u64) * 0x100 + (v[2] as u64) * 0x10000 + (
                    v[3] as u64) * 0x1000000 + (v[4] as u64) * 0x100000000 + (v[5] as u64)
                        * 0x10000000000 + (v[6] as u64) * 0x1000000000000 + (v[7] as u64)
                        * 0x100000000000000;
                    Ok(h)
                }
            },
            None => Ok(self.scan_for_highest_block(scanned_keys)),
        }
    }

    /// Scan fallback: the highest height any store key stands for, and 0
    /// on an empty store rather than a failure.
    pub fn scan_for_highest_block(&self, scanned_keys: &Vec<Vec<u8>>) -> (r: u64)
        ensures
            r == max_scanned(scanned_keys.deep_view()),
            scanned_keys@.len() == 0 ==> r == 0,
    {
        let mut highest: u64 = 0;
        let mut i: usize = 0;
        while i < scanned_keys.len()
            invariant
                0 <= i <= scanned_keys@.len(),
                highest == max_scanned(scanned_keys.deep_view().take(i as int)),
            decreases scanned_keys@.len() - i,
        {
            proof {
                assert(scanned_keys.deep_view().take(i + 1).drop_last() =~= scanned_keys.deep_view()
                    .take(i as int));
                assert(scanned_keys.deep_view().take(i + 1).last() == scanned_keys@[i as int]@);
            }
            match parse_decimal_key(&scanned_keys[i]) {
                Some(h) => {
                    if h > highest {
                        highest = h;
                    }
                },
                None => {},
            }
            i = i + 1;
        }
        proof {
            assert(scanned_keys.deep_view().take(scanned_keys@.len() as int) =~= scanned_keys.deep_view());
        }
        highest
    }

    /// Estimates the network tip height without a live network call: on
    /// mainnet a formula from the genesis era and the average block
    /// interval, on testnet a fixed constant.
    pub fn get_latest_network_block(&self, network: &str, now_secs: i64) -> (r: Result<
        u64,
        InspectError,
    >)
        requires
            network@ == "mainnet"@ ==> now_secs >= MAINNET_GENESIS_TIMESTAMP,
        ensures
            network@ == "mainnet"@ ==> r == Ok::<u64, InspectError>(
                ((now_secs - MAINNET_GENESIS_TIMESTAMP) / (MAINNET_BLOCK_INTERVAL_SECS as int)
                    + 1) as u64,
            ),
            network@ != "mainnet"@ && network@ == "testnet"@ ==> r == Ok::<u64, InspectError>(
                TESTNET_TIP_ESTIMATE,
            ),
            network@ != "mainnet"@ && network@ != "testnet"@ ==> r == Err::<u64, InspectError>(
                InspectError::NetworkUndetected,
            ),
    {
        if str_eq(network, "mainnet") {
            let elapsed = now_secs - MAINNET_GENESIS_TIMESTAMP;
            let blocks = elapsed / MAINNET_BLOCK_INTERVAL_SECS;
            Ok((blocks + 1) as u64)
        } else if str_eq(network, "testnet") {
            Ok(TESTNET_TIP_ESTIMATE)
        } else {
            Err(InspectError::NetworkUndetected)
        }
    }

    /// Uptime estimate from the state directory's last modification, in
    /// thousandths of an hour; fails when the modification lies in the
    /// future.
    pub fn estimate_uptime(&self, state_modified_secs: i64, now_secs: i64) -> (r: Result<
        u64,
        InspectError,
    >)
        ensures
            state_modified_secs <= now_secs ==> r == Ok::<u64, InspectError>(
                ((now_secs - state_modified_secs) * 1000 / 3600) as u64,
            ),
            state_modified_secs > now_secs ==> r == Err::<u64, InspectError>(
                InspectError::MetricsUnavailable,
            ),
    {
        if now_secs < state_modified_secs {
            return Err(InspectError::MetricsUnavailable);
        }
        let elapsed: i128 = (now_secs as i128) - (state_modified_secs as i128);
        let milli_hours: i128 = elapsed * 1000 / 3600;
        proof {
            assert(elapsed * 1000 / 3600 <= elapsed && elapsed * 1000 / 3600 >= 0)
                by (nonlinear_arith)
                requires
                    elapsed >= 0,
            ;
        }
        Ok(milli_hours as u64)
    }

    /// Peer count is best effort and currently always degrades to 0.
    pub fn read_peer_count(&self) -> (r: Result<u32, InspectError>)
        ensures
            r == Ok::<u32, InspectError>(0u32),
    {
        Ok(0)
    }

    /// Identity fingerprint of the node binary: the 64 lowercase hex
    /// characters of its SHA-256 digest.
    pub fn compute_binary_hash(&self, binary: &Vec<u8>) -> (r: String)
        ensures
            r@ == spec_hex_of(sha256_of(binary@)),
            r@.len() == 64,
    {
        let digest = sha256_digest(binary.as_slice());
        proof {
            lemma_hex_len(digest@);
        }
        hex_encode(digest.as_slice())
    }

    /// Rough estimate of blocks served to peers: one percent of the
    /// blocks the node holds.
    pub fn estimate_blocks_served(&self, block_height: u64) -> (r: u64)
        ensures
            r == block_height / 100,
    {
        block_height / 100
    }

    /// Produces one `NodeMetrics` snapshot from the observations. Network
    /// detection, the block height and the uptime estimate are essential
    /// and fatal on failure; peer count and blocks served degrade to
    /// defaults.
    pub fn read_metrics(&self, obs: &StateObservations) -> (r: Result<NodeMetrics, InspectError>)
        requires
            obs.mainnet_dir_exists ==> obs.now_secs >= MAINNET_GENESIS_TIMESTAMP,
        ensures
            !network_detected(*obs) ==> r == Err::<NodeMetrics, InspectError>(
                InspectError::NetworkUndetected,
            ),
            network_detected(*obs) && !height_available(*obs) ==> r == Err::<
                NodeMetrics,
                InspectError,
            >(InspectError::MetricsUnavailable),
            network_detected(*obs) && height_available(*obs) && !uptime_available(*obs) ==> r
                == Err::<NodeMetrics, InspectError>(InspectError::MetricsUnavailable),
            network_detected(*obs) && height_available(*obs) && uptime_available(*obs) ==> r is Ok
                && metrics_ok(*obs, r->Ok_0),
    {
        let network = match self.detect_network(obs.mainnet_dir_exists, obs.testnet_dir_exists) {
            Ok(n) => n,
            Err(e) => { return Err(e) },
        };
        let block_height = match self.read_block_height(&obs.tip_value, &obs.scanned_keys) {
            Ok(h) => h,
            Err(e) => { return Err(e) },
        };
        proof {
            reveal_strlit("mainnet");
            reveal_strlit("testnet");
            assert("mainnet"@[0] != "testnet"@[0]);
        }
        let latest_block = match self.get_latest_network_block(network.as_str(), obs.now_secs) {
            Ok(b) => b,
            Err(e) => {
                assert(false);
                return Err(e);
            },
        };
        let sync_wide: u128 = (block_height as u128) * 100000u128 / (latest_block as u128);
        let sync_milli_percent: u64 = if sync_wide > u64::MAX as u128 {
            u64::MAX
        } else {
            sync_wide as u64
        };
        let uptime_milli_hours = match self.estimate_uptime(obs.state_modified_secs, obs.now_secs) {
            Ok(h) => h,
            Err(e) => { return Err(e) },
        };
        let peer_count = match self.read_peer_count() {
            Ok(p) => p,
            Err(_) => 0,
        };
        let zebra_binary_hash = self.compute_binary_hash(&obs.zebra_binary);
        let blocks_served = self.estimate_blocks_served(block_height);
        Ok(
            NodeMetrics {
                block_height,
                sync_milli_percent,
                network,
                uptime_milli_hours,
                peer_count,
                blocks_served,
                zebra_version: obs.zebra_version.clone(),
                zebra_binary_hash,
                timestamp: obs.now_secs,
            },
        )
    }
}

/// Character-for-character string equality.
pub fn str_eq(a: &str, b: &str) -> (r: bool)
    ensures
        r == (a@ == b@),
{
    let len_a = a.unicode_len();
    let len_b = b.unicode_len();
    if len_a != len_b {
        return false;
    }
    let mut i: usize = 0;
    while i < len_a
        invariant
            0 <= i <= len_a,
            len_a == a@.len(),
            len_a == b@.len(),
            forall|j: int| 0 <= j < i ==> a@[j] == b@[j],
        decreases len_a - i,
    {
        if a.get_char(i) != b.get_char(i) {
            return false;
        }
        i = i + 1;
    }
    proof {
        assert(a@ =~= b@);
    }
    true
}

} // verus!
