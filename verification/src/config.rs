//! The node's configuration: where it listens and keeps its log, and the
//! Raft timing that it runs with.
use openraft::Config;
use openraft::ConfigError;
use std::path::PathBuf;
use vstd::prelude::*;

verus! {

/// A filesystem path, carried through unchanged.
#[verifier::external_type_specification]
#[verifier::external_body]
pub struct ExPathBuf(PathBuf);

/// Raft's configuration, carried through unchanged.
#[verifier::external_type_specification]
#[verifier::external_body]
pub struct ExRaftConfig(Config);

/// A node's service configuration: its id, the address that its RPC
/// server listens on, and the directory of its log store.
pub struct RaftServiceConfig {
    pub node_id: u64,
    pub rpc_url: String,
    pub log_path: PathBuf,
}

/// The interval between the leader's heartbeats, in milliseconds.
pub const HEARTBEAT_INTERVAL: u64 = 500;

/// The shortest election timeout, in milliseconds.
pub const ELECTION_TIMEOUT_MIN: u64 = 1500;

/// The longest election timeout, in milliseconds.
pub const ELECTION_TIMEOUT_MAX: u64 = 3000;

/// Why Raft refuses a configuration.
#[derive(Clone, Copy, Debug, PartialEq, Eq, Structural)]
pub enum RaftConfigError {
    /// The election timeout range is empty.
    ElectionTimeout { min: u64, max: u64 },
    /// The shortest election timeout is not longer than the heartbeat interval.
    ElectionTimeoutLTHeartBeat { election_timeout_min: u64, heartbeat_interval: u64 },
    /// The maximum number of entries per payload is 0.
    MaxPayloadIs0,
    /// A setting could not be parsed.
    ParseError,
    /// The snapshot policy is malformed.
    InvalidSnapshotPolicy,
    /// A number is malformed.
    InvalidNumber,
}

/// Raft's default configuration with the heartbeat interval and the
/// election timeouts given, once `Config::validate` accepts it. Openraft's
/// defaults come from fixed values (no environment is read), so the same
/// timing always gives the same configuration.
pub uninterp spec fn validated_raft_config(
    heartbeat_interval: u64,
    election_timeout_min: u64,
    election_timeout_max: u64,
) -> Config;

/// Raft's default configuration with the given heartbeat interval and
/// election timeouts, validated by openraft's `Config::validate`. With the
/// default `max_payload_entries` of 300, `validate` refuses exactly an
/// election timeout range that is empty, then a shortest election timeout
/// that is not longer than the heartbeat interval; it accepts the rest.
#[verifier::external_body]
fn validated_config(heartbeat_interval: u64, election_timeout_min: u64, election_timeout_max: u64)
    -> (r: Result<Config, RaftConfigError>)
    ensures
        match r {
            Ok(c) => election_timeout_min < election_timeout_max && heartbeat_interval
                < election_timeout_min && c == validated_raft_config(
                heartbeat_interval,
                election_timeout_min,
                election_timeout_max,
            ),
            Err(RaftConfigError::ElectionTimeout { min, max }) => election_timeout_min
                >= election_timeout_max && min == election_timeout_min && max
                == election_timeout_max,
            Err(
                RaftConfigError::ElectionTimeoutLTHeartBeat {
                    election_timeout_min: m,
                    heartbeat_interval: h,
                },
            ) => election_timeout_min < election_timeout_max && election_timeout_min
                <= heartbeat_interval && m == election_timeout_min && h == heartbeat_interval,
            Err(_) => false,
        },
{
    let c = Config { heartbeat_interval, election_timeout_min, election_timeout_max, ..Default::default() };
    match c.validate() {
        Ok(c) => Ok(c),
        Err(ConfigError::ElectionTimeout { min, max }) => Err(RaftConfigError::ElectionTimeout { min, max }),
        Err(ConfigError::ElectionTimeoutLTHeartBeat { election_timeout_min: m, heartbeat_interval: h }) =>
            Err(RaftConfigError::ElectionTimeoutLTHeartBeat { election_timeout_min: m, heartbeat_interval: h }),
        Err(ConfigError::MaxPayloadIs0) => Err(RaftConfigError::MaxPayloadIs0),
        Err(ConfigError::ParseError { .. }) => Err(RaftConfigError::ParseError),
        Err(ConfigError::InvalidSnapshotPolicy { .. }) => Err(RaftConfigError::InvalidSnapshotPolicy),
        Err(ConfigError::InvalidNumber { .. }) => Err(RaftConfigError::InvalidNumber),
    }
}

/// The Raft configuration that a node runs with: heartbeats every 500 ms and
/// election timeouts between 1500 ms and 3000 ms, which Raft accepts: the
/// validated default configuration with that timing.
pub fn raft_config() -> (r: Result<Config, RaftConfigError>)
    ensures
        r == Ok::<Config, RaftConfigError>(
            validated_raft_config(HEARTBEAT_INTERVAL, ELECTION_TIMEOUT_MIN, ELECTION_TIMEOUT_MAX),
        ),
{
    validated_config(HEARTBEAT_INTERVAL, ELECTION_TIMEOUT_MIN, ELECTION_TIMEOUT_MAX)
}

} // verus!
