//! Checking a configuration before the node is built.

use vstd::prelude::*;

use crate::lightning::ldk_service::{LdkServiceConfig, LdkServiceInitError, Network};
#[allow(unused_imports)]
use crate::lightning::parse::address_parse;
use crate::lightning::parse::{parse_address, NodeAddress};
#[allow(unused_imports)]
use crate::text::{blank, lower_text, opt_text};
use crate::text::{copy_text, is_blank, same_text, to_lowercase};
#[allow(unused_imports)]
use crate::views::{option_view, result_view};

verus! {

/// An error of the start, over sequences.
pub type InitErrorView = LdkServiceInitError<Seq<char>>;

/// The network with the given lower-case name.
pub open spec fn network_named(name: Seq<char>) -> Result<Network, InitErrorView> {
    if name == "regtest"@ {
        Ok(Network::Regtest)
    } else if name == "testnet"@ {
        Ok(Network::Testnet)
    } else if name == "bitcoin"@ || name == "mainnet"@ {
        Ok(Network::Bitcoin)
    } else if name == "signet"@ {
        Ok(Network::Signet)
    } else {
        Err(LdkServiceInitError::InvalidNetwork { network: name })
    }
}

/// The network with the given lower-case name.
pub fn network_from_name(name: &str) -> (out: Result<Network, LdkServiceInitError>)
    ensures
        match out {
            Ok(n) => network_named(name@) == Ok::<Network, InitErrorView>(n),
            Err(e) => network_named(name@) == Err::<Network, InitErrorView>(e@),
        },
{
    if same_text(name, "regtest") {
        Ok(Network::Regtest)
    } else if same_text(name, "testnet") {
        Ok(Network::Testnet)
    } else if same_text(name, "bitcoin") || same_text(name, "mainnet") {
        Ok(Network::Bitcoin)
    } else if same_text(name, "signet") {
        Ok(Network::Signet)
    } else {
        Err(LdkServiceInitError::InvalidNetwork { network: copy_text(name) })
    }
}

/// The first thing that the configuration lacks, if it lacks any.
pub open spec fn config_error(cfg: LdkServiceConfig) -> Option<InitErrorView> {
    if blank(cfg.bitcoind_rpc_host@) {
        Some(LdkServiceInitError::InvalidConfig("bitcoind_rpc_host must not be empty"@))
    } else if blank(cfg.bitcoind_rpc_user@) {
        Some(LdkServiceInitError::InvalidConfig("bitcoind_rpc_user must not be empty"@))
    } else if blank(cfg.bitcoind_rpc_password@) {
        Some(LdkServiceInitError::InvalidConfig("bitcoind_rpc_password must not be empty"@))
    } else if blank(cfg.ldk_storage_dir@) {
        Some(LdkServiceInitError::InvalidConfig("ldk_storage_dir must not be empty"@))
    } else {
        None
    }
}

/// Where the keys of the node are.
#[derive(Debug)]
pub enum SignerTransport<S = String> {
    /// With a signer that is reached over Nostr.
    Nostr { relay: S, nsec: S, signer_pubkey: S },
    /// With a signer in the same process.
    Embedded,
}

impl View for SignerTransport {
    type V = SignerTransport<Seq<char>>;

    open spec fn view(&self) -> SignerTransport<Seq<char>> {
        match *self {
            SignerTransport::Nostr { relay, nsec, signer_pubkey } => SignerTransport::Nostr {
                relay: relay@,
                nsec: nsec@,
                signer_pubkey: signer_pubkey@,
            },
            SignerTransport::Embedded => SignerTransport::Embedded,
        }
    }
}

/// How the signer is reached.
pub open spec fn transport_of(cfg: LdkServiceConfig) -> Result<
    SignerTransport<Seq<char>>,
    InitErrorView,
> {
    if cfg.signer_transport@ != "nostr"@ {
        Ok(SignerTransport::Embedded)
    } else {
        match (opt_text(cfg.signer_relay), opt_text(cfg.signer_nsec), opt_text(cfg.signer_pubkey)) {
            (None, _, _) => Err(
                LdkServiceInitError::InvalidConfig("signer.relay required for nostr transport"@),
            ),
            (_, None, _) => Err(
                LdkServiceInitError::InvalidConfig("signer.nsec required for nostr transport"@),
            ),
            (_, _, None) => Err(
                LdkServiceInitError::InvalidConfig(
                    "signer.signer_pubkey required for nostr transport"@,
                ),
            ),
            (Some(relay), Some(nsec), Some(signer_pubkey)) => Ok(
                SignerTransport::Nostr { relay, nsec, signer_pubkey },
            ),
        }
    }
}

/// What the node is built with: its network, the lower-case name of it, and the
/// way to its signer.
#[derive(Debug)]
pub struct NodePlan<S = String> {
    pub network: Network,
    pub network_name: S,
    pub transport: SignerTransport<S>,
}

impl View for NodePlan {
    type V = NodePlan<Seq<char>>;

    open spec fn view(&self) -> NodePlan<Seq<char>> {
        NodePlan {
            network: self.network,
            network_name: self.network_name@,
            transport: self.transport@,
        }
    }
}

/// The plan that a configuration comes to: its fields are checked first, then
/// the network, then the signer.
pub open spec fn plan_of(cfg: LdkServiceConfig) -> Result<NodePlan<Seq<char>>, InitErrorView> {
    match config_error(cfg) {
        Some(e) => Err(e),
        None => match network_named(lower_text(cfg.network@)) {
            Err(e) => Err(e),
            Ok(network) => match transport_of(cfg) {
                Err(e) => Err(e),
                Ok(transport) => Ok(
                    NodePlan { network, network_name: lower_text(cfg.network@), transport },
                ),
            },
        },
    }
}

/// The address to listen on, if one is configured.
pub open spec fn listening_of(cfg: LdkServiceConfig) -> Result<
    Option<NodeAddress<Seq<char>>>,
    InitErrorView,
> {
    match cfg.ldk_listen_addr {
        None => Ok(None),
        Some(text) => match address_parse(text@) {
            Ok(address) => Ok(Some(address)),
            Err(_) => Err(LdkServiceInitError::InvalidListeningAddress { address: text@ }),
        },
    }
}

impl LdkServiceConfig {
    /// The configured network.
    pub fn parse_network(&self) -> (out: Result<Network, LdkServiceInitError>)
        ensures
            match out {
                Ok(n) => network_named(lower_text(self.network@)) == Ok::<Network, InitErrorView>(
                    n,
                ),
                Err(e) => network_named(lower_text(self.network@)) == Err::<Network, InitErrorView>(
                    e@,
                ),
            },
    {
        network_from_name(to_lowercase(self.network.as_str()).as_str())
    }

    /// Whether all that is needed is there.
    pub fn validate(&self) -> (out: Result<(), LdkServiceInitError>)
        ensures
            match out {
                Ok(_) => config_error(*self) is None,
                Err(e) => config_error(*self) == Some(e@),
            },
    {
        if is_blank(self.bitcoind_rpc_host.as_str()) {
            return Err(
                LdkServiceInitError::InvalidConfig(
                    copy_text("bitcoind_rpc_host must not be empty"),
                ),
            );
        }
        if is_blank(self.bitcoind_rpc_user.as_str()) {
            return Err(
                LdkServiceInitError::InvalidConfig(
                    copy_text("bitcoind_rpc_user must not be empty"),
                ),
            );
        }
        if is_blank(self.bitcoind_rpc_password.as_str()) {
            return Err(
                LdkServiceInitError::InvalidConfig(
                    copy_text("bitcoind_rpc_password must not be empty"),
                ),
            );
        }
        if is_blank(self.ldk_storage_dir.as_str()) {
            return Err(
                LdkServiceInitError::InvalidConfig(copy_text("ldk_storage_dir must not be empty")),
            );
        }
        Ok(())
    }

    /// How the signer is reached.
    pub fn signer(&self) -> (out: Result<SignerTransport, LdkServiceInitError>)
        ensures
            result_view(out) == transport_of(*self),
    {
        if !same_text(self.signer_transport.as_str(), "nostr") {
            return Ok(SignerTransport::Embedded);
        }
        let relay: String = match &self.signer_relay {
            Some(s) => copy_text(s.as_str()),
            None => {
                return Err(
                    LdkServiceInitError::InvalidConfig(
                        copy_text("signer.relay required for nostr transport"),
                    ),
                );
            },
        };
        let nsec: String = match &self.signer_nsec {
            Some(s) => copy_text(s.as_str()),
            None => {
                return Err(
                    LdkServiceInitError::InvalidConfig(
                        copy_text("signer.nsec required for nostr transport"),
                    ),
                );
            },
        };
        let signer_pubkey: String = match &self.signer_pubkey {
            Some(s) => copy_text(s.as_str()),
            None => {
                return Err(
                    LdkServiceInitError::InvalidConfig(
                        copy_text("signer.signer_pubkey required for nostr transport"),
                    ),
                );
            },
        };
        Ok(SignerTransport::Nostr { relay, nsec, signer_pubkey })
    }

    /// What the node is built with.
    pub fn plan(&self) -> (out: Result<NodePlan, LdkServiceInitError>)
        ensures
            result_view(out) == plan_of(*self),
    {
        match self.validate() {
            Ok(_) => {},
            Err(e) => {
                return Err(e);
            },
        }
        let network: Network = match self.parse_network() {
            Ok(n) => n,
            Err(e) => {
                return Err(e);
            },
        };
        match self.signer() {
            Ok(transport) => Ok(
                NodePlan {
                    network,
                    network_name: to_lowercase(self.network.as_str()),
                    transport,
                },
            ),
            Err(e) => Err(e),
        }
    }

    /// The address to listen on, if one is configured.
    pub fn listening_address(&self) -> (out: Result<Option<NodeAddress>, LdkServiceInitError>)
        ensures
            match out {
                Ok(address) => listening_of(*self) == Ok::<
                    Option<NodeAddress<Seq<char>>>,
                    InitErrorView,
                >(option_view(address)),
                Err(e) => listening_of(*self) == Err::<
                    Option<NodeAddress<Seq<char>>>,
                    InitErrorView,
                >(e@),
            },
    {
        match &self.ldk_listen_addr {
            None => Ok(None),
            Some(text) => match parse_address(text.as_str()) {
                Ok(address) => Ok(Some(address)),
                Err(_) => Err(
                    LdkServiceInitError::InvalidListeningAddress {
                        address: copy_text(text.as_str()),
                    },
                ),
            },
        }
    }
}

} // verus!
