use vstd::prelude::*;
use crate::config::types::RoutingMode;
use crate::routing::ip::IpAddress;
use crate::routing::table::{
    first_match, first_shorter, in_block, longest_first, with_route, Cidr, RouteEntry, RouteTable,
    RouteTarget,
};

verus! {

/// Decides which packets go through the tunnel.
#[derive(Debug, Clone, PartialEq, Eq)]
pub struct SplitPolicy {
    mode: RoutingMode,
    split_table: RouteTable,
}

impl SplitPolicy {
    pub closed spec fn spec_mode(&self) -> RoutingMode {
        self.mode
    }

    /// The routes of split mode; packets they do not hold bypass the tunnel.
    pub closed spec fn spec_table(&self) -> RouteTable {
        self.split_table
    }

    /// Where a packet for the address goes: everything through the tunnel in full mode, as
    /// the table says in split mode.
    pub open spec fn route_of(&self, destination: IpAddress) -> RouteTarget {
        match self.spec_mode() {
            RoutingMode::Full => RouteTarget::Tunnel,
            RoutingMode::Split => self.spec_table().route_of(destination),
        }
    }

    pub fn new(mode: RoutingMode) -> (r: Self)
        ensures
            r.spec_mode() == mode,
            r.spec_table().spec_default() == RouteTarget::Bypass,
            r.spec_table().spec_entries() == Seq::<RouteEntry>::empty(),
    {
        SplitPolicy { mode, split_table: RouteTable::new(RouteTarget::Bypass) }
    }

    /// Sends the block's packets through the tunnel in split mode.
    pub fn add_tunnel_route(&mut self, cidr: Cidr)
        ensures
            longest_first(final(self).spec_table().spec_entries()),
            final(self).spec_mode() == old(self).spec_mode(),
            final(self).spec_table().spec_default() == old(self).spec_table().spec_default(),
            final(self).spec_table().spec_entries() == with_route(
                old(self).spec_table().spec_entries(),
                RouteEntry { cidr, target: RouteTarget::Tunnel },
            ),
    {
        self.split_table.add_route(cidr, RouteTarget::Tunnel);
    }

    pub fn route_for(&self, destination: IpAddress) -> (r: RouteTarget)
        ensures
            r == self.route_of(destination),
    {
        match self.mode {
            RoutingMode::Full => RouteTarget::Tunnel,
            RoutingMode::Split => self.split_table.lookup(destination),
        }
    }
}

/// Whether every entry sends its packets through the tunnel.
pub open spec fn all_tunnel(s: Seq<RouteEntry>) -> bool {
    forall|j: int| 0 <= j < s.len() ==> #[trigger] s[j].target == RouteTarget::Tunnel
}

proof fn lemma_first_match_some(s: Seq<RouteEntry>, address: IpAddress, i: int, j: int)
    requires
        0 <= i <= j < s.len(),
        in_block(s[j].cidr.spec_network(), s[j].cidr.spec_prefix_len(), address),
    ensures
        first_match(s, address, i) matches Some(k) && i <= k <= j,
    decreases j - i,
{
    if !in_block(s[i].cidr.spec_network(), s[i].cidr.spec_prefix_len(), address) {
        lemma_first_match_some(s, address, i + 1, j);
    }
}

proof fn lemma_first_match_in_range(s: Seq<RouteEntry>, address: IpAddress, i: int)
    requires
        0 <= i,
    ensures
        first_match(s, address, i) matches Some(k) ==> i <= k < s.len(),
    decreases s.len() - i,
{
    if i < s.len() && !in_block(s[i].cidr.spec_network(), s[i].cidr.spec_prefix_len(), address) {
        lemma_first_match_in_range(s, address, i + 1);
    }
}

/// In split mode, with only tunnel routes added, a packet goes through the tunnel exactly
/// when one of the added blocks holds its destination; in full mode every packet does.
pub proof fn lemma_split_tunnels_exactly_added_blocks(policy: SplitPolicy, destination: IpAddress)
    requires
        all_tunnel(policy.spec_table().spec_entries()),
        policy.spec_table().spec_default() == RouteTarget::Bypass,
    ensures
        policy.spec_mode() == RoutingMode::Full ==> policy.route_of(destination) == RouteTarget::Tunnel,
        policy.spec_mode() == RoutingMode::Split ==> (policy.route_of(destination)
            == RouteTarget::Tunnel <==> exists|j: int|
            0 <= j < policy.spec_table().spec_entries().len() && in_block(
                #[trigger] policy.spec_table().spec_entries()[j].cidr.spec_network(),
                policy.spec_table().spec_entries()[j].cidr.spec_prefix_len(),
                destination,
            )),
{
    let s = policy.spec_table().spec_entries();
    lemma_first_match_in_range(s, destination, 0);
    if exists|j: int|
        0 <= j < s.len() && in_block(
            #[trigger] s[j].cidr.spec_network(),
            s[j].cidr.spec_prefix_len(),
            destination,
        ) {
        let j = choose|j: int|
            0 <= j < s.len() && in_block(
                #[trigger] s[j].cidr.spec_network(),
                s[j].cidr.spec_prefix_len(),
                destination,
            );
        lemma_first_match_some(s, destination, 0, j);
    } else {
        if first_match(s, destination, 0) is Some {
            let k = first_match(s, destination, 0)->0;
            lemma_first_match_some_holds(s, destination, 0);
            assert(in_block(s[k].cidr.spec_network(), s[k].cidr.spec_prefix_len(), destination));
        }
    }
}

proof fn lemma_first_match_some_holds(s: Seq<RouteEntry>, address: IpAddress, i: int)
    requires
        0 <= i,
    ensures
        first_match(s, address, i) matches Some(k) ==> 0 <= k < s.len() && in_block(
            s[k].cidr.spec_network(),
            s[k].cidr.spec_prefix_len(),
            address,
        ),
    decreases s.len() - i,
{
    if i < s.len() && !in_block(s[i].cidr.spec_network(), s[i].cidr.spec_prefix_len(), address) {
        lemma_first_match_some_holds(s, address, i + 1);
    }
}

/// Adding a route keeps every entry that was there and places the new one among them, so
/// adding a tunnel route to tunnel routes leaves only tunnel routes, and the new block is
/// one of them.
pub proof fn lemma_with_route_keeps_entries(s: Seq<RouteEntry>, e: RouteEntry)
    ensures
        with_route(s, e).len() == s.len() + 1,
        exists|k: int| 0 <= k < with_route(s, e).len() && #[trigger] with_route(s, e)[k] == e,
        forall|j: int|
            0 <= j < with_route(s, e).len() ==> #[trigger] with_route(s, e)[j] == e || s.contains(
                with_route(s, e)[j],
            ),
        all_tunnel(s) && e.target == RouteTarget::Tunnel ==> all_tunnel(with_route(s, e)),
{
    let k = first_shorter(s, e.cidr.spec_prefix_len(), 0);
    lemma_first_shorter_bounds(s, e.cidr.spec_prefix_len(), 0);
    let w = with_route(s, e);
    assert(w =~= s.take(k).push(e) + s.skip(k));
    assert(w[k] == e);
    assert forall|j: int| 0 <= j < w.len() implies #[trigger] w[j] == e || s.contains(w[j]) by {
        if j < k {
            assert(w[j] == s[j]);
        } else if j > k {
            assert(w[j] == s[j - 1]);
        }
    }
    if all_tunnel(s) && e.target == RouteTarget::Tunnel {
        assert forall|j: int| 0 <= j < w.len() implies #[trigger] w[j].target
            == RouteTarget::Tunnel by {
            if j < k {
                assert(w[j] == s[j]);
            } else if j > k {
                assert(w[j] == s[j - 1]);
            }
        }
    }
}

proof fn lemma_first_shorter_bounds(s: Seq<RouteEntry>, p: u8, i: int)
    requires
        0 <= i <= s.len(),
    ensures
        i <= first_shorter(s, p, i) <= s.len(),
    decreases s.len() - i,
{
    if i < s.len() && s[i].cidr.spec_prefix_len() >= p {
        lemma_first_shorter_bounds(s, p, i + 1);
    }
}

} // verus!
