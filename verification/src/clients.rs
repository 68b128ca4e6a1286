//! The registered clients with their wire-protocol versions.

use crate::protocol::ClientId;
use crate::version::{ProtocolVersion, ProtocolVersionView};
use std::collections::HashMap;
use vstd::prelude::*;

verus! {

/// The registered clients, each with the protocol version it speaks.
pub struct ClientRegistry {
    versions: HashMap<ClientId, ProtocolVersion>,
}

impl ClientRegistry {
    /// The version of each registered client.
    pub closed spec fn view(&self) -> Map<ClientId, ProtocolVersionView> {
        Map::new(
            |client: ClientId| self.versions@.contains_key(client),
            |client: ClientId| self.versions@[client]@,
        )
    }

    /// No client is registered.
    pub fn new() -> (r: Self)
        ensures
            r@ == Map::<ClientId, ProtocolVersionView>::empty(),
    {
        let r = ClientRegistry { versions: HashMap::new() };
        assert(r@ =~= Map::<ClientId, ProtocolVersionView>::empty());
        r
    }

    /// Whether `client` is registered.
    pub fn contains(&self, client: ClientId) -> (r: bool)
        ensures
            r == self@.contains_key(client),
    {
        self.versions.contains_key(&client)
    }

    /// The version that `client` speaks, if it is registered.
    pub fn version(&self, client: ClientId) -> (r: Option<&ProtocolVersion>)
        ensures
            match r {
                Some(version) => self@.contains_key(client) && self@[client] == version@,
                None => !self@.contains_key(client),
            },
    {
        self.versions.get(&client)
    }

    /// Registers `client` at `version`; a client that was registered before
    /// is now at that version.
    pub fn insert(&mut self, client: ClientId, version: ProtocolVersion)
        ensures
            final(self)@ == old(self)@.insert(client, version@),
    {
        self.versions.insert(client, version);
        assert(self@ =~= old(self)@.insert(client, version@));
    }

    /// Takes `client` out of the registry.
    pub fn remove(&mut self, client: ClientId)
        ensures
            final(self)@ == old(self)@.remove(client),
    {
        self.versions.remove(&client);
        assert(self@ =~= old(self)@.remove(client));
    }
}

} // verus!
