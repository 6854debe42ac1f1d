pub mod dns;
pub mod doh;
pub mod ip;
pub mod split;
pub mod table;

use vstd::prelude::*;
use crate::config::types::{DnsMode, RoutingMode};
use crate::routing::dns::{dns_action, DnsAction, DnsPolicy};
use crate::routing::ip::IpAddress;
use crate::routing::split::SplitPolicy;
use crate::routing::table::{longest_first, with_route, Cidr, RouteEntry, RouteTarget};

verus! {

/// Routes packets and DNS queries.
#[derive(Debug, Clone, PartialEq, Eq)]
pub struct RoutingEngine {
    split_policy: SplitPolicy,
    dns_policy: DnsPolicy,
}

impl RoutingEngine {
    pub closed spec fn spec_split(&self) -> SplitPolicy {
        self.split_policy
    }

    pub closed spec fn spec_dns(&self) -> DnsPolicy {
        self.dns_policy
    }

    pub fn new(mode: RoutingMode, dns_mode: DnsMode, doh_available: bool) -> (r: Self)
        ensures
            r.spec_split().spec_mode() == mode,
            r.spec_split().spec_table().spec_default() == RouteTarget::Bypass,
            r.spec_split().spec_table().spec_entries() == Seq::<RouteEntry>::empty(),
            r.spec_dns().spec_mode() == dns_mode,
            r.spec_dns().spec_doh_available() == doh_available,
    {
        RoutingEngine {
            split_policy: SplitPolicy::new(mode),
            dns_policy: DnsPolicy::new(dns_mode, doh_available),
        }
    }

    /// Sends the block's packets through the tunnel in split mode.
    pub fn add_split_tunnel_route(&mut self, cidr: Cidr)
        ensures
            longest_first(final(self).spec_split().spec_table().spec_entries()),
            final(self).spec_dns() == old(self).spec_dns(),
            final(self).spec_split().spec_mode() == old(self).spec_split().spec_mode(),
            final(self).spec_split().spec_table().spec_default() == old(
                self,
            ).spec_split().spec_table().spec_default(),
            final(self).spec_split().spec_table().spec_entries() == with_route(
                old(self).spec_split().spec_table().spec_entries(),
                RouteEntry { cidr, target: RouteTarget::Tunnel },
            ),
    {
        self.split_policy.add_tunnel_route(cidr);
    }

    pub fn route_packet(&self, destination: IpAddress) -> (r: RouteTarget)
        ensures
            r == self.spec_split().route_of(destination),
    {
        self.split_policy.route_for(destination)
    }

    /// How a query to the address is answered: by the DNS policy, for the route the address
    /// takes.
    pub fn route_dns_query(&self, destination: IpAddress) -> (r: DnsAction)
        ensures
            r == dns_action(
                self.spec_dns().spec_mode(),
                self.spec_dns().spec_doh_available(),
                self.spec_split().route_of(destination),
            ),
    {
        let route_target = self.route_packet(destination);
        self.dns_policy.route_dns_query(route_target)
    }
}

} // verus!
