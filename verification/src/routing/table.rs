use vstd::prelude::*;
use vstd::string::*;
use crate::routing::ip::{ip_parse, parse_ip_chars, IpAddress};
use crate::text::{chars_of, parse_unsigned, parse_unsigned_chars, split_once, split_once_chars, string_from_chars};

verus! {

/// Where a packet goes.
#[derive(Debug, Clone, Copy, PartialEq, Eq, Structural)]
pub enum RouteTarget {
    Tunnel,
    Bypass,
}

/// The mask of the first `prefix` bits of a 32-bit address.
pub open spec fn mask32(prefix: u8) -> u32 {
    if prefix == 0 {
        0
    } else {
        (0xFFFF_FFFFu32 << ((32 - prefix) as u32)) as u32
    }
}

/// The mask of the first `prefix` bits of a 128-bit address.
pub open spec fn mask128(prefix: u8) -> u128 {
    if prefix == 0 {
        0
    } else {
        (0xFFFF_FFFF_FFFF_FFFF_FFFF_FFFF_FFFF_FFFFu128 << ((128 - prefix) as u32)) as u128
    }
}

/// The address with every bit after the first `prefix` cleared.
pub open spec fn network_of(address: IpAddress, prefix: u8) -> IpAddress {
    match address {
        IpAddress::V4(a) => IpAddress::V4(a & mask32(prefix)),
        IpAddress::V6(a) => IpAddress::V6(a & mask128(prefix)),
    }
}

/// Whether an address lies in the block of the network's first `prefix` bits: same family,
/// same bits there.
pub open spec fn in_block(network: IpAddress, prefix: u8, address: IpAddress) -> bool {
    match (network, address) {
        (IpAddress::V4(n), IpAddress::V4(a)) => prefix == 0 || n & mask32(prefix) == a & mask32(
            prefix,
        ),
        (IpAddress::V6(n), IpAddress::V6(a)) => prefix == 0 || n & mask128(prefix) == a & mask128(
            prefix,
        ),
        _ => false,
    }
}

/// The longest prefix an address of the family has.
pub open spec fn max_prefix(address: IpAddress) -> u8 {
    match address {
        IpAddress::V4(_) => 32,
        IpAddress::V6(_) => 128,
    }
}

/// A block of addresses: a network and the length of its prefix.
#[derive(Debug, Clone, Copy, PartialEq, Eq, Structural)]
pub struct Cidr {
    network: IpAddress,
    prefix_len: u8,
}

/// Why a block or a route could not be read.
#[derive(Debug, Clone, PartialEq, Eq)]
pub enum RouteTableError {
    InvalidCidr { value: String },
    InvalidPrefix { value: u8, max: u8 },
}

pub enum RouteTableErrorView {
    InvalidCidr(Seq<char>),
    InvalidPrefix(u8, u8),
}

impl View for RouteTableError {
    type V = RouteTableErrorView;

    open spec fn view(&self) -> RouteTableErrorView {
        match self {
            RouteTableError::InvalidCidr { value } => RouteTableErrorView::InvalidCidr(value@),
            RouteTableError::InvalidPrefix { value, max } => RouteTableErrorView::InvalidPrefix(
                *value,
                *max,
            ),
        }
    }
}

/// The block that `network/prefix` text names: the address and a decimal prefix no longer
/// than the family allows, the network's bits after the prefix cleared.
pub open spec fn cidr_parse_spec(value: Seq<char>) -> Result<(IpAddress, u8), RouteTableErrorView> {
    match split_once(value, '/') {
        None => Err(RouteTableErrorView::InvalidCidr(value)),
        Some(parts) => match ip_parse(parts.0) {
            None => Err(RouteTableErrorView::InvalidCidr(value)),
            Some(network) => match parse_unsigned(parts.1, 255) {
                None => Err(RouteTableErrorView::InvalidCidr(value)),
                Some(p) => if p > max_prefix(network) {
                    Err(RouteTableErrorView::InvalidPrefix(p as u8, max_prefix(network)))
                } else {
                    Ok((network_of(network, p as u8), p as u8))
                },
            },
        },
    }
}

fn mask32_exec(prefix: u8) -> (r: u32)
    requires
        prefix <= 32,
    ensures
        r == mask32(prefix),
{
    if prefix == 0 {
        0
    } else {
        0xFFFF_FFFFu32 << ((32 - prefix) as u32)
    }
}

fn mask128_exec(prefix: u8) -> (r: u128)
    requires
        prefix <= 128,
    ensures
        r == mask128(prefix),
{
    if prefix == 0 {
        0
    } else {
        0xFFFF_FFFF_FFFF_FFFF_FFFF_FFFF_FFFF_FFFFu128 << ((128 - prefix) as u32)
    }
}

fn normalize_network(network: IpAddress, prefix_len: u8) -> (r: IpAddress)
    requires
        prefix_len <= max_prefix(network),
    ensures
        r == network_of(network, prefix_len),
{
    match network {
        IpAddress::V4(a) => IpAddress::V4(a & mask32_exec(prefix_len)),
        IpAddress::V6(a) => IpAddress::V6(a & mask128_exec(prefix_len)),
    }
}

impl Cidr {
    #[verifier::type_invariant]
    spec fn prefix_fits(self) -> bool {
        self.prefix_len <= max_prefix(self.network)
    }

    pub closed spec fn spec_network(&self) -> IpAddress {
        self.network
    }

    pub closed spec fn spec_prefix_len(&self) -> u8 {
        self.prefix_len
    }

    /// The block of the network's first `prefix_len` bits; a prefix longer than the family
    /// allows is refused.
    pub fn new(network: IpAddress, prefix_len: u8) -> (r: Result<Self, RouteTableError>)
        ensures
            r is Ok <==> prefix_len <= max_prefix(network),
            r matches Ok(c) ==> c.spec_network() == network_of(network, prefix_len)
                && c.spec_prefix_len() == prefix_len,
            r matches Err(e) ==> e@ == RouteTableErrorView::InvalidPrefix(
                prefix_len,
                max_prefix(network),
            ),
    {
        let max: u8 = match network {
            IpAddress::V4(_) => 32,
            IpAddress::V6(_) => 128,
        };
        if prefix_len > max {
            return Err(RouteTableError::InvalidPrefix { value: prefix_len, max });
        }
        Ok(Cidr { network: normalize_network(network, prefix_len), prefix_len })
    }

    /// Reads a block written `network/prefix`.
    pub fn parse(value: &str) -> (r: Result<Self, RouteTableError>)
        ensures
            r matches Ok(c) ==> cidr_parse_spec(value@) == Ok::<(IpAddress, u8), RouteTableErrorView>(
                (c.spec_network(), c.spec_prefix_len()),
            ),
            r matches Err(e) ==> cidr_parse_spec(value@) == Err::<(IpAddress, u8), RouteTableErrorView>(
                e@,
            ),
    {
        let text = chars_of(value);
        let (network_str, prefix_str) = match split_once_chars(&text, '/') {
            None => {
                return Err(RouteTableError::InvalidCidr { value: String::from_str(value) });
            },
            Some(parts) => parts,
        };
        let network = match parse_ip_chars(&network_str) {
            None => {
                return Err(RouteTableError::InvalidCidr { value: String::from_str(value) });
            },
            Some(n) => n,
        };
        let prefix_len: u8 = match parse_unsigned_chars(&prefix_str, 255) {
            None => {
                return Err(RouteTableError::InvalidCidr { value: String::from_str(value) });
            },
            Some(p) => p as u8,
        };
        Self::new(network, prefix_len)
    }

    /// Whether the address lies in the block.
    pub fn contains(&self, address: IpAddress) -> (r: bool)
        ensures
            r == in_block(self.spec_network(), self.spec_prefix_len(), address),
    {
        proof {
            use_type_invariant(self);
        }
        match (self.network, address) {
            (IpAddress::V4(network), IpAddress::V4(address)) => {
                if self.prefix_len == 0 {
                    return true;
                }
                let mask = mask32_exec(self.prefix_len);
                (network & mask) == (address & mask)
            },
            (IpAddress::V6(network), IpAddress::V6(address)) => {
                if self.prefix_len == 0 {
                    return true;
                }
                let mask = mask128_exec(self.prefix_len);
                (network & mask) == (address & mask)
            },
            _ => false,
        }
    }

    pub fn prefix_len(&self) -> (r: u8)
        ensures
            r == self.spec_prefix_len(),
    {
        self.prefix_len
    }
}

/// A block and where its packets go.
#[derive(Debug, Clone, Copy, PartialEq, Eq, Structural)]
pub struct RouteEntry {
    pub cidr: Cidr,
    pub target: RouteTarget,
}

/// Whether the entries are ordered from the longest prefix to the shortest.
pub open spec fn longest_first(s: Seq<RouteEntry>) -> bool {
    forall|i: int, j: int|
        0 <= i <= j < s.len() ==> s[i].cidr.spec_prefix_len() >= s[j].cidr.spec_prefix_len()
}

/// The first position at or after `i` whose prefix is shorter than `p`; the length where
/// there is none.
pub open spec fn first_shorter(s: Seq<RouteEntry>, p: u8, i: int) -> int
    decreases s.len() - i,
{
    if i < 0 || i >= s.len() {
        s.len() as int
    } else if s[i].cidr.spec_prefix_len() < p {
        i
    } else {
        first_shorter(s, p, i + 1)
    }
}

/// The entries after adding one: after every entry whose prefix is at least as long.
pub open spec fn with_route(s: Seq<RouteEntry>, e: RouteEntry) -> Seq<RouteEntry> {
    let k = first_shorter(s, e.cidr.spec_prefix_len(), 0);
    s.take(k).push(e) + s.skip(k)
}

/// The position of the first entry at or after `i` whose block holds the address.
pub open spec fn first_match(s: Seq<RouteEntry>, address: IpAddress, i: int) -> Option<int>
    decreases s.len() - i,
{
    if i < 0 || i >= s.len() {
        None
    } else if in_block(s[i].cidr.spec_network(), s[i].cidr.spec_prefix_len(), address) {
        Some(i)
    } else {
        first_match(s, address, i + 1)
    }
}

/// Routes packets by the longest prefix that holds their destination.
#[derive(Debug, PartialEq, Eq)]
pub struct RouteTable {
    default_target: RouteTarget,
    entries: Vec<RouteEntry>,
}

proof fn lemma_first_shorter(s: Seq<RouteEntry>, p: u8, i: int)
    requires
        0 <= i <= s.len(),
    ensures
        i <= first_shorter(s, p, i) <= s.len(),
        forall|j: int| i <= j < first_shorter(s, p, i) ==> s[j].cidr.spec_prefix_len() >= p,
        first_shorter(s, p, i) < s.len() ==> s[first_shorter(s, p, i)].cidr.spec_prefix_len() < p,
    decreases s.len() - i,
{
    if i < s.len() && s[i].cidr.spec_prefix_len() >= p {
        lemma_first_shorter(s, p, i + 1);
    }
}

proof fn lemma_first_match(s: Seq<RouteEntry>, address: IpAddress, i: int)
    requires
        0 <= i <= s.len(),
    ensures
        first_match(s, address, i) matches Some(k) ==> i <= k < s.len() && in_block(
            s[k].cidr.spec_network(),
            s[k].cidr.spec_prefix_len(),
            address,
        ) && forall|j: int|
            i <= j < k ==> !in_block(
                #[trigger] s[j].cidr.spec_network(),
                s[j].cidr.spec_prefix_len(),
                address,
            ),
        first_match(s, address, i) is None ==> forall|j: int|
            i <= j < s.len() ==> !in_block(
                #[trigger] s[j].cidr.spec_network(),
                s[j].cidr.spec_prefix_len(),
                address,
            ),
    decreases s.len() - i,
{
    if i < s.len() && !in_block(s[i].cidr.spec_network(), s[i].cidr.spec_prefix_len(), address) {
        lemma_first_match(s, address, i + 1);
    }
}

impl RouteTable {
    /// The entries are always kept longest prefix first.
    #[verifier::type_invariant]
    pub open spec fn entries_longest_first(self) -> bool {
        longest_first(self.spec_entries())
    }

    /// Where packets that no entry holds go.
    pub closed spec fn spec_default(&self) -> RouteTarget {
        self.default_target
    }

    /// The entries, longest prefix first.
    pub closed spec fn spec_entries(&self) -> Seq<RouteEntry> {
        self.entries@
    }

    /// Where a packet for the address goes: the target of the first entry, in order, whose
    /// block holds it, or the default.
    pub open spec fn route_of(&self, address: IpAddress) -> RouteTarget {
        match first_match(self.spec_entries(), address, 0) {
            Some(k) => self.spec_entries()[k].target,
            None => self.spec_default(),
        }
    }

    pub fn new(default_target: RouteTarget) -> (r: Self)
        ensures
            r.spec_default() == default_target,
            r.spec_entries() == Seq::<RouteEntry>::empty(),
    {
        RouteTable { default_target, entries: Vec::new() }
    }

    /// Adds a route after every route with a prefix at least as long.
    pub fn add_route(&mut self, cidr: Cidr, target: RouteTarget)
        ensures
            final(self).spec_default() == old(self).spec_default(),
            final(self).spec_entries() == with_route(
                old(self).spec_entries(),
                RouteEntry { cidr, target },
            ),
            longest_first(final(self).spec_entries()),
    {
        proof {
            use_type_invariant(&*self);
        }
        let entry = RouteEntry { cidr, target };
        let p = cidr.prefix_len();
        let mut entries: Vec<RouteEntry> = Vec::new();
        std::mem::swap(&mut entries, &mut self.entries);
        let ghost before = entries@;
        let mut i: usize = 0;
        while i < entries.len() && entries[i].cidr.prefix_len() >= p
            invariant
                i <= entries@.len(),
                entries@ == before,
                first_shorter(before, p, 0) == first_shorter(before, p, i as int),
            decreases entries@.len() - i,
        {
            i = i + 1;
        }
        proof {
            lemma_first_shorter(before, p, 0);
        }
        entries.insert(i, entry);
        proof {
            assert(entries@ =~= before.take(i as int).push(entry) + before.skip(i as int));
            assert forall|a: int, b: int|
                0 <= a <= b < entries@.len() implies entries@[a].cidr.spec_prefix_len()
                >= entries@[b].cidr.spec_prefix_len() by {
                if a < i && b > i {
                    assert(entries@[b] == before[b - 1]);
                } else if a > i {
                    assert(entries@[a] == before[a - 1]);
                    assert(entries@[b] == before[b - 1]);
                } else if a == i && b > i {
                    assert(entries@[b] == before[b - 1]);
                    assert(before[i as int].cidr.spec_prefix_len() < p);
                }
            }
        }
        self.entries = entries;
    }

    /// Adds a route for a block written `network/prefix`.
    pub fn add_route_from_str(&mut self, cidr: &str, target: RouteTarget) -> (r: Result<
        (),
        RouteTableError,
    >)
        ensures
            final(self).spec_default() == old(self).spec_default(),
            longest_first(final(self).spec_entries()),
            r is Err <==> cidr_parse_spec(cidr@) is Err,
            r matches Err(e) ==> cidr_parse_spec(cidr@) == Err::<(IpAddress, u8), RouteTableErrorView>(
                e@,
            ) && final(self).spec_entries() == old(self).spec_entries(),
            r is Ok ==> exists|c: Cidr|
                cidr_parse_spec(cidr@) == Ok::<(IpAddress, u8), RouteTableErrorView>(
                    (c.spec_network(), c.spec_prefix_len()),
                ) && final(self).spec_entries() == #[trigger] with_route(
                    old(self).spec_entries(),
                    RouteEntry { cidr: c, target },
                ),
    {
        proof {
            use_type_invariant(&*self);
        }
        let c = Cidr::parse(cidr)?;
        self.add_route(c, target);
        Ok(())
    }

    /// Where a packet for the address goes.
    pub fn lookup(&self, address: IpAddress) -> (r: RouteTarget)
        ensures
            r == self.route_of(address),
    {
        let mut i: usize = 0;
        while i < self.entries.len()
            invariant
                i <= self.entries@.len(),
                first_match(self.entries@, address, 0) == first_match(self.entries@, address, i as int),
            decreases self.entries@.len() - i,
        {
            if self.entries[i].cidr.contains(address) {
                return self.entries[i].target;
            }
            i = i + 1;
        }
        self.default_target
    }
}

impl Clone for RouteTable {
    /// A table with the same entries and default.
    fn clone(&self) -> (r: Self)
        ensures
            r.spec_default() == self.spec_default(),
            r.spec_entries() == self.spec_entries(),
    {
        proof {
            use_type_invariant(self);
        }
        let mut entries: Vec<RouteEntry> = Vec::new();
        let mut i: usize = 0;
        while i < self.entries.len()
            invariant
                i <= self.entries@.len(),
                entries@ == self.entries@.take(i as int),
            decreases self.entries@.len() - i,
        {
            entries.push(self.entries[i]);
            assert(entries@ =~= self.entries@.take(i + 1));
            i = i + 1;
        }
        assert(entries@ =~= self.entries@);
        RouteTable { default_target: self.default_target, entries }
    }
}

/// The route a table gives an address is that of the longest prefix among the entries
/// that hold it, the default where none does.
pub proof fn lemma_longest_prefix_match(table: RouteTable, address: IpAddress)
    requires
        longest_first(table.spec_entries()),
    ensures
        match first_match(table.spec_entries(), address, 0) {
            Some(k) => {
                &&& table.route_of(address) == table.spec_entries()[k].target
                &&& in_block(
                    table.spec_entries()[k].cidr.spec_network(),
                    table.spec_entries()[k].cidr.spec_prefix_len(),
                    address,
                )
                &&& forall|j: int|
                    0 <= j < table.spec_entries().len() && in_block(
                        #[trigger] table.spec_entries()[j].cidr.spec_network(),
                        table.spec_entries()[j].cidr.spec_prefix_len(),
                        address,
                    ) ==> table.spec_entries()[j].cidr.spec_prefix_len()
                        <= table.spec_entries()[k].cidr.spec_prefix_len()
            },
            None => {
                &&& table.route_of(address) == table.spec_default()
                &&& forall|j: int|
                    0 <= j < table.spec_entries().len() ==> !in_block(
                        #[trigger] table.spec_entries()[j].cidr.spec_network(),
                        table.spec_entries()[j].cidr.spec_prefix_len(),
                        address,
                    )
            },
        },
{
    lemma_first_match(table.spec_entries(), address, 0);
}

} // verus!
