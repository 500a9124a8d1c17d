//! What the service is set up with.

use vstd::prelude::*;

#[allow(unused_imports)]
use crate::relay::grants::key_bytes;
#[allow(unused_imports)]
use crate::text::{opt_text, texts};

verus! {

/// The node that grants have to be for, the owners, and the name of the node.
/// The first and the last are set at most once.
#[derive(Debug)]
pub struct ServiceSettings {
    relay_pubkey: Option<[u8; 32]>,
    owners: Vec<String>,
    node_alias: Option<Option<String>>,
}

/// What a [`ServiceSettings`] holds.
pub struct SettingsView {
    pub relay_pubkey: Option<Seq<u8>>,
    pub owners: Seq<Seq<char>>,
    pub node_alias: Option<Option<Seq<char>>>,
}

impl View for ServiceSettings {
    type V = SettingsView;

    closed spec fn view(&self) -> SettingsView {
        SettingsView {
            relay_pubkey: key_bytes(self.relay_pubkey),
            owners: texts(self.owners@),
            node_alias: match self.node_alias {
                Some(alias) => Some(opt_text(alias)),
                None => None,
            },
        }
    }
}

impl ServiceSettings {
    /// Nothing is set.
    pub fn new() -> (out: ServiceSettings)
        ensures
            out@ == (SettingsView { relay_pubkey: None, owners: Seq::empty(), node_alias: None }),
    {
        let out: ServiceSettings = ServiceSettings {
            relay_pubkey: None,
            owners: Vec::new(),
            node_alias: None,
        };
        assert(out@.owners =~= Seq::<Seq<char>>::empty());
        out
    }

    /// The node that grants have to be for, if one is set.
    pub fn relay_pubkey(&self) -> (out: &Option<[u8; 32]>)
        ensures
            key_bytes(*out) == self@.relay_pubkey,
    {
        &self.relay_pubkey
    }

    /// The owners.
    pub fn owners(&self) -> (out: &Vec<String>)
        ensures
            texts(out@) == self@.owners,
    {
        &self.owners
    }

    /// The name of the node, if it has one.
    pub fn node_alias(&self) -> (out: Option<&str>)
        ensures
            crate::text::opt_str(out) == (match self@.node_alias {
                Some(alias) => alias,
                None => None,
            }),
    {
        match &self.node_alias {
            Some(Some(alias)) => Some(alias.as_str()),
            _ => None,
        }
    }

    /// Names the node, unless that was done before.
    pub fn set_node_alias(&mut self, alias: Option<String>)
        ensures
            final(self)@ == (SettingsView {
                node_alias: match old(self)@.node_alias {
                    Some(before) => Some(before),
                    None => Some(opt_text(alias)),
                },
                ..old(self)@
            }),
    {
        if self.node_alias.is_none() {
            self.node_alias = Some(alias);
        }
    }
}

/// Sets the node that grants have to be for, unless that was done before.
pub fn set_relay_pubkey(settings: &mut ServiceSettings, pubkey: [u8; 32])
    ensures
        final(settings)@ == (SettingsView {
            relay_pubkey: match old(settings)@.relay_pubkey {
                Some(before) => Some(before),
                None => Some(pubkey@),
            },
            ..old(settings)@
        }),
{
    if settings.relay_pubkey.is_none() {
        settings.relay_pubkey = Some(pubkey);
    }
}

/// Sets the owners, in place of those before.
pub fn set_owners(settings: &mut ServiceSettings, owners: Vec<String>)
    ensures
        final(settings)@ == (SettingsView { owners: texts(owners@), ..old(settings)@ }),
{
    settings.owners = owners;
}

} // verus!
