use vstd::prelude::*;
use crate::config::types::DnsMode;
use crate::routing::table::RouteTarget;

verus! {

/// How a DNS query is answered.
#[derive(Debug, Clone, Copy, PartialEq, Eq, Structural)]
pub enum DnsAction {
    UseDoh,
    UsePlain,
    Blocked,
}

/// Decides how DNS queries leave the machine.
#[derive(Debug, Clone, Copy, PartialEq, Eq, Structural)]
pub struct DnsPolicy {
    mode: DnsMode,
    doh_available: bool,
}

/// The action for a query routed to `target`: plain mode always asks in the clear; DoH mode
/// asks over HTTPS or not at all; fallback mode asks over HTTPS when it can, and otherwise in
/// the clear only through the tunnel.
pub open spec fn dns_action(mode: DnsMode, doh_available: bool, target: RouteTarget) -> DnsAction {
    match mode {
        DnsMode::Plain => DnsAction::UsePlain,
        DnsMode::Doh => if doh_available {
            DnsAction::UseDoh
        } else {
            DnsAction::Blocked
        },
        DnsMode::Fallback => if doh_available {
            DnsAction::UseDoh
        } else {
            match target {
                RouteTarget::Tunnel => DnsAction::UsePlain,
                RouteTarget::Bypass => DnsAction::Blocked,
            }
        },
    }
}

impl DnsPolicy {
    pub closed spec fn spec_mode(&self) -> DnsMode {
        self.mode
    }

    pub closed spec fn spec_doh_available(&self) -> bool {
        self.doh_available
    }

    pub fn new(mode: DnsMode, doh_available: bool) -> (r: Self)
        ensures
            r.spec_mode() == mode,
            r.spec_doh_available() == doh_available,
    {
        DnsPolicy { mode, doh_available }
    }

    pub fn route_dns_query(&self, route_target: RouteTarget) -> (r: DnsAction)
        ensures
            r == dns_action(self.spec_mode(), self.spec_doh_available(), route_target),
    {
        match self.mode {
            DnsMode::Plain => DnsAction::UsePlain,
            DnsMode::Doh => {
                if self.doh_available {
                    DnsAction::UseDoh
                } else {
                    DnsAction::Blocked
                }
            },
            DnsMode::Fallback => match route_target {
                RouteTarget::Tunnel => {
                    if self.doh_available {
                        DnsAction::UseDoh
                    } else {
                        DnsAction::UsePlain
                    }
                },
                RouteTarget::Bypass => {
                    if self.doh_available {
                        DnsAction::UseDoh
                    } else {
                        DnsAction::Blocked
                    }
                },
            },
        }
    }
}

/// Outside plain mode, no query that bypasses the tunnel is ever sent in the clear.
pub proof fn lemma_no_plain_dns_outside_tunnel(mode: DnsMode, doh_available: bool)
    requires
        mode != DnsMode::Plain,
    ensures
        dns_action(mode, doh_available, RouteTarget::Bypass) != DnsAction::UsePlain,
{
}

/// In DoH mode the route target plays no part: queries go over HTTPS whenever DoH is
/// available and are blocked otherwise.
pub proof fn lemma_doh_mode_ignores_target(doh_available: bool, target: RouteTarget)
    ensures
        dns_action(DnsMode::Doh, doh_available, target) == (if doh_available {
            DnsAction::UseDoh
        } else {
            DnsAction::Blocked
        }),
{
}

/// Outside plain mode, a query goes over HTTPS whenever DoH is available, wherever it is
/// routed; plain mode always asks in the clear.
pub proof fn lemma_doh_used_when_available(mode: DnsMode, target: RouteTarget)
    ensures
        mode != DnsMode::Plain ==> dns_action(mode, true, target) == DnsAction::UseDoh,
        dns_action(DnsMode::Plain, true, target) == DnsAction::UsePlain,
        dns_action(DnsMode::Plain, false, target) == DnsAction::UsePlain,
{
}

/// Without DoH, fallback mode asks in the clear only through the tunnel and blocks queries
/// that bypass it.
pub proof fn lemma_fallback_without_doh()
    ensures
        dns_action(DnsMode::Fallback, false, RouteTarget::Tunnel) == DnsAction::UsePlain,
        dns_action(DnsMode::Fallback, false, RouteTarget::Bypass) == DnsAction::Blocked,
{
}

} // verus!
