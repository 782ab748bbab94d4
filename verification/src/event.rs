//! What a browse of the local network reports, and the peer address that a
//! report gives rise to.

use vstd::prelude::*;
use vstd::string::*;
use crate::address::IpAddress;
use crate::numeral::{decimal, push_decimal};

verus! {

/// The details of a service instance once it has been resolved.
#[derive(Clone, Debug)]
pub struct ResolvedRecord {
    /// The addresses of the instance, in the order in which they were
    /// reported.
    pub addresses: Vec<IpAddress>,
    /// The port of the service.
    pub port: u16,
}

/// One event of a browse.
#[derive(Clone, Debug)]
pub enum DiscoveryEvent {
    /// The search for the service type has started.
    SearchStarted,
    /// An instance was found; its details are not known yet.
    ServiceFound,
    /// An instance was resolved.
    ServiceResolved(ResolvedRecord),
    /// An instance has left.
    ServiceRemoved,
    /// The search for the service type has stopped.
    SearchStopped,
}

/// The text under which a peer is announced: its address, a colon, and its
/// port in decimal.
pub open spec fn peer_text(address: IpAddress, port: u16) -> Seq<char> {
    address.spec_text() + seq![':'] + decimal(port as nat)
}

/// The text under which a peer is announced.
pub fn peer_address(address: &IpAddress, port: u16) -> (text: String)
    ensures
        text@ == peer_text(*address, port),
{
    proof {
        reveal_strlit(":");
    }
    let mut text = address.text();
    text.append(":");
    push_decimal(&mut text, port);
    assert(text@ =~= peer_text(*address, port));
    text
}

impl ResolvedRecord {
    /// The peer that the record announces: its first address with its
    /// port; none where it has no address.
    pub open spec fn spec_peer(&self) -> Option<Seq<char>> {
        if self.addresses@.len() == 0 {
            None
        } else {
            Some(peer_text(self.addresses@[0], self.port))
        }
    }

    /// The peer that the record announces.
    pub fn peer(&self) -> (peer: Option<String>)
        ensures
            peer is Some <==> self.addresses@.len() > 0,
            match peer {
                Some(text) => Some(text@) == self.spec_peer(),
                None => self.spec_peer() is None,
            },
    {
        if self.addresses.len() == 0 {
            None
        } else {
            Some(peer_address(&self.addresses[0], self.port))
        }
    }
}

impl DiscoveryEvent {
    /// The peer that the event announces: that of its record where it is a
    /// resolution, none for every other kind of event.
    pub open spec fn spec_announcement(&self) -> Option<Seq<char>> {
        match self {
            DiscoveryEvent::ServiceResolved(record) => record.spec_peer(),
            _ => None,
        }
    }

    /// The peer that the event announces.
    pub fn announcement(&self) -> (peer: Option<String>)
        ensures
            peer is Some <==> (self matches DiscoveryEvent::ServiceResolved(record)
                && record.addresses@.len() > 0),
            match peer {
                Some(text) => Some(text@) == self.spec_announcement(),
                None => self.spec_announcement() is None,
            },
    {
        match self {
            DiscoveryEvent::ServiceResolved(record) => record.peer(),
            _ => None,
        }
    }
}

} // verus!
