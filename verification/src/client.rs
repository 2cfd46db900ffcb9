use vstd::prelude::*;
use vstd::string::StringExecFns;

use crate::error::RpcError;
use crate::text::{join_csv, split_csv};

verus! {

/// The chain a client talks to. Carried as an opaque tag; its only use is to
/// check that a supplied address belongs to the expected chain.
#[derive(Debug, Clone, Copy, PartialEq, Eq, Structural)]
pub enum Network {
    Bitcoin,
    Testnet,
    Signet,
    Regtest,
}

/// Retries per URI before the engine rotates to the next one.
pub const DEFAULT_MAX_RETRIES: usize = 3;

/// Bound on one HTTP attempt, in seconds.
pub const DEFAULT_TIMEOUT_SECS: u64 = 30;

/// Fixed pause between two attempts on the same URI, in seconds.
pub const RETRY_DELAY_SECS: u64 = 2;

/// Pause between two polls while waiting for a spendable UTXO, in seconds.
pub const POLL_INTERVAL_SECS: u64 = 5;

/// An immutable client configuration: the chain tag, the preference-ordered
/// list of base URIs, and the retry/timeout policy. Built once by
/// `ElectrumXBuilder`; every RPC call walks `base_uris` in order.
#[derive(Debug, Clone, PartialEq, Eq)]
pub struct ElectrumX {
    pub network: Network,
    pub base_uris: Vec<String>,
    pub max_retries: usize,
    pub request_timeout_secs: u64,
    pub retry_delay_secs: u64,
}

impl ElectrumX {
    /// A usable client has at least one base URI to try.
    pub open spec fn wf(self) -> bool {
        self.base_uris@.len() >= 1
    }

    pub fn network(&self) -> (r: Network)
        ensures
            r == self.network,
    {
        self.network
    }

    pub fn base_uris(&self) -> (r: &Vec<String>)
        ensures
            r == self.base_uris,
    {
        &self.base_uris
    }

    /// The full URL of one attempt: the chosen base URI, a slash, and the
    /// dotted endpoint path.
    pub fn endpoint_url(&self, uri_index: usize, path: &str) -> (r: String)
        requires
            uri_index < self.base_uris@.len(),
        ensures
            r@ == self.base_uris@[uri_index as int]@ + "/"@ + path@,
    {
        let base: &String = &self.base_uris[uri_index];
        base.clone().concat("/").concat(path)
    }
}

/// Collects a network tag and base URIs, then builds an immutable client
/// with the default timeout and retry policy.
#[derive(Debug, Clone, PartialEq, Eq)]
pub struct ElectrumXBuilder {
    pub network: Network,
    pub base_uris: Vec<String>,
}

impl Default for ElectrumXBuilder {
    /// Mainnet, one default public endpoint.
    fn default() -> (r: Self)
        ensures
            r.network == Network::Bitcoin,
            r.base_uris@.len() == 1,
            r.base_uris@[0]@ == "https://ep.atomicals.xyz/proxy"@,
    {
        ElectrumXBuilder {
            network: Network::Bitcoin,
            base_uris: vec![String::from_str("https://ep.atomicals.xyz/proxy")],
        }
    }
}

impl ElectrumXBuilder {
    pub fn network(self, network: Network) -> (r: Self)
        ensures
            r.network == network,
            r.base_uris == self.base_uris,
    {
        ElectrumXBuilder { network, base_uris: self.base_uris }
    }

    /// Takes the preference list as one comma-delimited string and splits it;
    /// order in the string is the order the engine will try.
    pub fn base_uris(self, base_uris: &str) -> (r: Self)
        ensures
            r.network == self.network,
            r.base_uris@.len() >= 1,
            join_csv(r.base_uris.deep_view()) == base_uris@,
            forall|i: int|
                0 <= i < r.base_uris@.len() ==> !(#[trigger] r.base_uris.deep_view()[i]).contains(
                    ',',
                ),
    {
        ElectrumXBuilder { network: self.network, base_uris: split_csv(base_uris) }
    }

    /// Finalises the configuration. Fails exactly when no base URI was
    /// given; otherwise the client carries the collected fields and the
    /// default retry and timeout policy.
    pub fn build(self) -> (r: Result<ElectrumX, RpcError>)
        ensures
            r == if self.base_uris@.len() == 0 {
                Err::<ElectrumX, RpcError>(RpcError::Config)
            } else {
                Ok::<ElectrumX, RpcError>(
                    ElectrumX {
                        network: self.network,
                        base_uris: self.base_uris,
                        max_retries: DEFAULT_MAX_RETRIES as usize,
                        request_timeout_secs: DEFAULT_TIMEOUT_SECS as u64,
                        retry_delay_secs: RETRY_DELAY_SECS as u64,
                    },
                )
            },
            r matches Ok(c) ==> c.wf(),
    {
        if self.base_uris.len() == 0 {
            Err(RpcError::Config)
        } else {
            Ok(
                ElectrumX {
                    network: self.network,
                    base_uris: self.base_uris,
                    max_retries: DEFAULT_MAX_RETRIES,
                    request_timeout_secs: DEFAULT_TIMEOUT_SECS,
                    retry_delay_secs: RETRY_DELAY_SECS,
                },
            )
        }
    }
}

} // verus!
