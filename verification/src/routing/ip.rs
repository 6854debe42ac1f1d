use vstd::prelude::*;
use crate::text::chars_of;

verus! {

/// An IP address: 32 bits for version 4, 128 for version 6, most significant bit first.
#[derive(Debug, Clone, Copy, PartialEq, Eq, Structural)]
pub enum IpAddress {
    V4(u32),
    V6(u128),
}

/// The value of a digit in base 10, or in base 16 (either case) where `hex` holds.
pub open spec fn digit_in(c: char, hex: bool) -> Option<nat> {
    if '0' <= c && c <= '9' {
        Some((c as u32 - 48) as nat)
    } else if hex && 'a' <= c && c <= 'f' {
        Some((c as u32 - 87) as nat)
    } else if hex && 'A' <= c && c <= 'F' {
        Some((c as u32 - 55) as nat)
    } else {
        None
    }
}

/// How many digits follow from position `pos` on.
pub open spec fn digit_run(s: Seq<char>, pos: int, hex: bool) -> nat
    decreases s.len() - pos,
{
    if 0 <= pos < s.len() && digit_in(s[pos], hex) is Some {
        1 + digit_run(s, pos + 1, hex)
    } else {
        0
    }
}

/// The number that the `k` digits from `pos` on denote.
pub open spec fn run_value(s: Seq<char>, pos: int, k: nat, hex: bool) -> nat
    decreases k,
{
    if k == 0 {
        0
    } else {
        run_value(s, pos, (k - 1) as nat, hex) * (if hex {
            16nat
        } else {
            10nat
        }) + digit_in(s[pos + k - 1], hex)->0
    }
}

/// A number read from `pos` on, as the standard address parser reads one: all the digits
/// there, at least one and at most `max_digits`, no more than `max_value`, and (unless
/// `zero_prefix` allows it) no leading zero before other digits. The value and the position
/// after it.
pub open spec fn read_number(
    s: Seq<char>,
    pos: int,
    hex: bool,
    max_digits: nat,
    zero_prefix: bool,
    max_value: nat,
) -> Option<(nat, int)> {
    let k = digit_run(s, pos, hex);
    if k == 0 || k > max_digits || run_value(s, pos, k, hex) > max_value {
        None
    } else if !zero_prefix && s[pos] == '0' && k > 1 {
        None
    } else {
        Some((run_value(s, pos, k, hex), pos + k))
    }
}

/// Whether `c` stands at `pos`.
pub open spec fn char_at(s: Seq<char>, pos: int, c: char) -> bool {
    0 <= pos < s.len() && s[pos] == c
}

/// A dotted IPv4 address read from `pos` on: four decimal numbers up to 255, no leading
/// zeros, separated by dots. Its value and the position after it.
pub open spec fn read_ipv4(s: Seq<char>, pos: int) -> Option<(u32, int)> {
    match read_number(s, pos, false, 3, false, 255) {
        None => None,
        Some((a, p1)) => if !char_at(s, p1, '.') {
            None
        } else {
            match read_number(s, p1 + 1, false, 3, false, 255) {
                None => None,
                Some((b, p2)) => if !char_at(s, p2, '.') {
                    None
                } else {
                    match read_number(s, p2 + 1, false, 3, false, 255) {
                        None => None,
                        Some((c, p3)) => if !char_at(s, p3, '.') {
                            None
                        } else {
                            match read_number(s, p3 + 1, false, 3, false, 255) {
                                None => None,
                                Some((d, p4)) => Some(
                                    (((a * 0x100_0000 + b * 0x1_0000 + c * 0x100 + d) as u32), p4),
                                ),
                            }
                        },
                    }
                },
            }
        },
    }
}

/// Groups of an IPv6 address read from `pos` on, at most `limit - i` more after the `i` read:
/// each after a colon but the first, a hex number of up to four digits, or, where two groups
/// are still free, a dotted IPv4 address counting for two. The groups, the position after
/// them, and whether an IPv4 address ended them.
pub open spec fn read_groups(s: Seq<char>, pos: int, i: int, limit: int, acc: Seq<u16>) -> (
    Seq<u16>,
    int,
    bool,
)
    decreases limit - i,
{
    if i >= limit {
        (acc, pos, false)
    } else {
        let start = if i > 0 {
            if char_at(s, pos, ':') {
                Some(pos + 1)
            } else {
                None
            }
        } else {
            Some(pos)
        };
        match start {
            None => (acc, pos, false),
            Some(q) => if i < limit - 1 && read_ipv4(s, q) is Some {
                let (v, p) = read_ipv4(s, q)->0;
                (acc.push((v / 0x1_0000) as u16).push((v % 0x1_0000) as u16), p, true)
            } else {
                match read_number(s, q, true, 4, true, 0xFFFF) {
                    None => (acc, pos, false),
                    Some((g, p)) => read_groups(s, p, i + 1, limit, acc.push(g as u16)),
                }
            },
        }
    }
}

/// The number that 16-bit groups spell, most significant first.
pub open spec fn groups_value(gs: Seq<u16>) -> nat
    decreases gs.len(),
{
    if gs.len() == 0 {
        0
    } else {
        groups_value(gs.drop_last()) * 0x1_0000 + gs.last() as nat
    }
}

/// An IPv6 address read from the start: eight groups, or the groups before a `::` and
/// those after it (together at most seven, an IPv4 address only after it) with zeros
/// between. Its value and the position after it.
pub open spec fn read_ipv6(s: Seq<char>) -> Option<(u128, int)> {
    let (head, p, head_ipv4) = read_groups(s, 0, 0, 8, Seq::empty());
    if head.len() == 8 {
        Some((groups_value(head) as u128, p))
    } else if head_ipv4 {
        None
    } else if !(char_at(s, p, ':') && char_at(s, p + 1, ':')) {
        None
    } else {
        let (tail, q, _) = read_groups(s, p + 2, 0, 8 - (head.len() + 1), Seq::empty());
        let gs = head + Seq::new((8 - head.len() - tail.len()) as nat, |i: int| 0u16) + tail;
        Some((groups_value(gs) as u128, q))
    }
}

/// The address a whole text spells, as the standard library reads one: an IPv4 address if
/// one is read from the start, else an IPv6 address; nothing may follow it.
pub open spec fn ip_parse(s: Seq<char>) -> Option<IpAddress> {
    match read_ipv4(s, 0) {
        Some((v, p)) => if p == s.len() {
            Some(IpAddress::V4(v))
        } else {
            None
        },
        None => match read_ipv6(s) {
            Some((v, p)) => if p == s.len() {
                Some(IpAddress::V6(v))
            } else {
                None
            },
            None => None,
        },
    }
}


// ---------------------------------------------------------------------------
// Reading addresses

proof fn lemma_digit_run(s: Seq<char>, pos: int, hex: bool, k: int)
    requires
        0 <= pos,
        0 <= k,
        forall|j: int| 0 <= j < k ==> pos + j < s.len() && #[trigger] digit_in(s[pos + j], hex) is Some,
    ensures
        digit_run(s, pos, hex) >= k,
        (pos + k >= s.len() || digit_in(s[pos + k], hex) is None) ==> digit_run(s, pos, hex) == k,
    decreases k,
{
    if k > 0 {
        assert(digit_in(s[pos + 0], hex) is Some);
        assert forall|j: int| 0 <= j < k - 1 implies pos + 1 + j < s.len() && #[trigger] digit_in(
            s[pos + 1 + j],
            hex,
        ) is Some by {
            assert(digit_in(s[pos + (j + 1)], hex) is Some);
        }
        lemma_digit_run(s, pos + 1, hex, k - 1);
    }
}

fn digit_exec(c: char, hex: bool) -> (r: Option<u64>)
    ensures
        r matches Some(v) ==> digit_in(c, hex) == Some(v as nat) && v < 16 && (!hex ==> v < 10),
        r is None ==> digit_in(c, hex) is None,
{
    if '0' <= c && c <= '9' {
        Some((c as u32 - 48) as u64)
    } else if hex && 'a' <= c && c <= 'f' {
        Some((c as u32 - 87) as u64)
    } else if hex && 'A' <= c && c <= 'F' {
        Some((c as u32 - 55) as u64)
    } else {
        None
    }
}

fn read_number_exec(
    s: &[char],
    pos: usize,
    hex: bool,
    max_digits: usize,
    zero_prefix: bool,
    max_value: u64,
) -> (r: Option<(u64, usize)>)
    requires
        pos <= s@.len(),
        max_digits <= 4,
    ensures
        r matches Some(x) ==> read_number(s@, pos as int, hex, max_digits as nat, zero_prefix, max_value as nat)
            == Some((x.0 as nat, x.1 as int)) && x.1 <= s@.len() && x.0 <= max_value,
        r is None ==> read_number(s@, pos as int, hex, max_digits as nat, zero_prefix, max_value as nat)
            is None,
{
    let mut k: usize = 0;
    let mut value: u64 = 0;
    let mut stop = false;
    let avail: usize = s.len() - pos;
    let ghost radix: nat = if hex {
        16
    } else {
        10
    };
    while !stop && k < avail
        invariant
            pos <= s@.len(),
            avail == s@.len() - pos,
            s@.len() == s.len(),
            s.len() <= usize::MAX,
            k <= max_digits <= 4,
            pos + k <= s@.len(),
            radix == (if hex {
                16nat
            } else {
                10nat
            }),
            forall|j: int| 0 <= j < k ==> pos + j < s@.len() && #[trigger] digit_in(s@[pos + j], hex) is Some,
            stop ==> pos + k < s@.len() && digit_in(s@[pos + k], hex) is None,
            value as nat == run_value(s@, pos as int, k as nat, hex),
            value < (if k == 0 {
                1nat
            } else if k == 1 {
                16nat
            } else if k == 2 {
                256nat
            } else if k == 3 {
                4096nat
            } else {
                65536nat
            }),
        decreases s@.len() - pos - k + (if stop {
            0int
        } else {
            1int
        }),
    {
        match digit_exec(s[pos + k], hex) {
            None => {
                stop = true;
            },
            Some(d) => {
                if k == max_digits {
                    proof {
                        assert forall|j: int|
                            0 <= j < k + 1 implies pos + j < s@.len() && #[trigger] digit_in(
                            s@[pos + j],
                            hex,
                        ) is Some by {
                            if j == k {
                            }
                        }
                        lemma_digit_run(s@, pos as int, hex, k + 1);
                    }
                    return None;
                }
                let radix_exec: u64 = if hex {
                    16
                } else {
                    10
                };
                proof {
                    assert(run_value(s@, pos as int, (k + 1) as nat, hex) == run_value(
                        s@,
                        pos as int,
                        k as nat,
                        hex,
                    ) * radix + digit_in(s@[pos + k], hex)->0);
                }
                value = value * radix_exec + d;
                k = k + 1;
            },
        }
    }
    proof {
        lemma_digit_run(s@, pos as int, hex, k as int);
    }
    if k == 0 {
        return None;
    }
    if value > max_value {
        return None;
    }
    if !zero_prefix && s[pos] == '0' && k > 1 {
        return None;
    }
    Some((value, pos + k))
}

fn read_ipv4_exec(s: &[char], pos: usize) -> (r: Option<(u32, usize)>)
    requires
        pos <= s@.len(),
    ensures
        r matches Some(x) ==> read_ipv4(s@, pos as int) == Some((x.0, x.1 as int)) && x.1 <= s@.len(),
        r is None ==> read_ipv4(s@, pos as int) is None,
{
    let (a, p1) = match read_number_exec(s, pos, false, 3, false, 255) {
        None => {
            return None;
        },
        Some(x) => x,
    };
    if !(p1 < s.len() && s[p1] == '.') {
        return None;
    }
    let (b, p2) = match read_number_exec(s, p1 + 1, false, 3, false, 255) {
        None => {
            return None;
        },
        Some(x) => x,
    };
    if !(p2 < s.len() && s[p2] == '.') {
        return None;
    }
    let (c, p3) = match read_number_exec(s, p2 + 1, false, 3, false, 255) {
        None => {
            return None;
        },
        Some(x) => x,
    };
    if !(p3 < s.len() && s[p3] == '.') {
        return None;
    }
    let (d, p4) = match read_number_exec(s, p3 + 1, false, 3, false, 255) {
        None => {
            return None;
        },
        Some(x) => x,
    };
    let v: u32 = (a as u32) * 0x100_0000 + (b as u32) * 0x1_0000 + (c as u32) * 0x100 + (d as u32);
    Some((v, p4))
}

proof fn lemma_read_groups_len(s: Seq<char>, pos: int, i: int, limit: int, acc: Seq<u16>)
    requires
        i <= limit,
    ensures
        read_groups(s, pos, i, limit, acc).0.len() <= acc.len() + (limit - i),
        acc.len() <= read_groups(s, pos, i, limit, acc).0.len(),
    decreases limit - i,
{
    if i < limit {
        let start = if i > 0 {
            if char_at(s, pos, ':') {
                Some(pos + 1)
            } else {
                None
            }
        } else {
            Some(pos)
        };
        if let Some(q) = start {
            if !(i < limit - 1 && read_ipv4(s, q) is Some) {
                if let Some((g, p)) = read_number(s, q, true, 4, true, 0xFFFF) {
                    lemma_read_groups_len(s, p, i + 1, limit, acc.push(g as u16));
                }
            }
        }
    }
}

/// Reads up to `limit` groups from `pos` on.
fn read_groups_exec(s: &[char], pos: usize, limit: usize) -> (r: (Vec<u16>, usize, bool))
    requires
        pos <= s@.len(),
        limit <= 8,
    ensures
        (r.0@, r.1 as int, r.2) == read_groups(s@, pos as int, 0, limit as int, Seq::empty()),
        r.1 <= s@.len(),
{
    let mut acc: Vec<u16> = Vec::new();
    let mut p: usize = pos;
    let mut i: usize = 0;
    while i < limit
        invariant
            i <= limit <= 8,
            p <= s@.len(),
            read_groups(s@, pos as int, 0, limit as int, Seq::empty()) == read_groups(
                s@,
                p as int,
                i as int,
                limit as int,
                acc@,
            ),
        decreases limit - i,
    {
        let start: usize = if i > 0 {
            if p < s.len() && s[p] == ':' {
                p + 1
            } else {
                return (acc, p, false);
            }
        } else {
            p
        };
        if i + 1 < limit {
            if let Some((v, q)) = read_ipv4_exec(s, start) {
                acc.push((v / 0x1_0000) as u16);
                acc.push((v % 0x1_0000) as u16);
                return (acc, q, true);
            }
        }
        match read_number_exec(s, start, true, 4, true, 0xFFFF) {
            None => {
                return (acc, p, false);
            },
            Some((g, q)) => {
                acc.push(g as u16);
                p = q;
            },
        }
        i = i + 1;
    }
    (acc, p, false)
}

/// 65536 to the power `n`.
pub open spec fn group_radix_pow(n: nat) -> nat
    decreases n,
{
    if n == 0 {
        1
    } else {
        65536 * group_radix_pow((n - 1) as nat)
    }
}

proof fn lemma_groups_value_bound(gs: Seq<u16>)
    ensures
        groups_value(gs) < group_radix_pow(gs.len()),
    decreases gs.len(),
{
    if gs.len() > 0 {
        lemma_groups_value_bound(gs.drop_last());
        let v = groups_value(gs.drop_last());
        let b = group_radix_pow((gs.len() - 1) as nat);
        let l = gs.last() as nat;
        assert(v * 65536 + l < b * 65536) by (nonlinear_arith)
            requires
                v < b,
                l < 65536,
        ;
    }
}

/// The number eight groups spell.
fn groups_to_u128(gs: &[u16]) -> (r: u128)
    requires
        gs@.len() == 8,
    ensures
        r as nat == groups_value(gs@),
{
    proof {
        reveal_with_fuel(group_radix_pow, 9);
        assert(group_radix_pow(8) == 0x1_0000_0000_0000_0000_0000_0000_0000_0000nat);
    }
    let mut acc: u128 = 0;
    let mut i: usize = 0;
    while i < 8
        invariant
            i <= 8,
            gs@.len() == 8,
            acc as nat == groups_value(gs@.take(i as int)),
            group_radix_pow(8) == 0x1_0000_0000_0000_0000_0000_0000_0000_0000nat,
        decreases 8 - i,
    {
        proof {
            assert(gs@.take(i + 1).drop_last() =~= gs@.take(i as int));
            lemma_groups_value_bound(gs@.take(i + 1));
            lemma_radix_pow_mono((i + 1) as nat, 8);
        }
        acc = acc * 0x1_0000 + gs[i] as u128;
        i = i + 1;
    }
    proof {
        assert(gs@.take(8) =~= gs@);
    }
    acc
}

proof fn lemma_radix_pow_mono(a: nat, b: nat)
    requires
        a <= b,
    ensures
        group_radix_pow(a) <= group_radix_pow(b),
    decreases b - a,
{
    if a < b {
        lemma_radix_pow_mono(a, (b - 1) as nat);
        assert(group_radix_pow(b) == 65536 * group_radix_pow((b - 1) as nat));
    }
}

fn read_ipv6_exec(s: &[char]) -> (r: Option<(u128, usize)>)
    ensures
        r matches Some(x) ==> read_ipv6(s@) == Some((x.0, x.1 as int)),
        r is None ==> read_ipv6(s@) is None,
{
    let (head, p, head_ipv4) = read_groups_exec(s, 0, 8);
    proof {
        lemma_read_groups_len(s@, 0, 0, 8, Seq::empty());
    }
    if head.len() == 8 {
        return Some((groups_to_u128(&head), p));
    }
    if head_ipv4 {
        return None;
    }
    if !(p < s.len() && p + 1 < s.len() && s[p] == ':' && s[p + 1] == ':') {
        return None;
    }
    let limit: usize = 8 - (head.len() + 1);
    let (tail, q, _) = read_groups_exec(s, p + 2, limit);
    proof {
        lemma_read_groups_len(s@, p + 2, 0, limit as int, Seq::empty());
    }
    let mut gs: Vec<u16> = Vec::new();
    let mut i: usize = 0;
    while i < head.len()
        invariant
            i <= head@.len(),
            gs@ == head@.take(i as int),
        decreases head@.len() - i,
    {
        gs.push(head[i]);
        assert(gs@ =~= head@.take(i + 1));
        i = i + 1;
    }
    let zeros: usize = 8 - head.len() - tail.len();
    let mut z: usize = 0;
    while z < zeros
        invariant
            z <= zeros,
            gs@ == head@ + Seq::new(z as nat, |k: int| 0u16),
        decreases zeros - z,
    {
        gs.push(0);
        assert(gs@ =~= head@ + Seq::new((z + 1) as nat, |k: int| 0u16));
        z = z + 1;
    }
    let ghost mid = gs@;
    let mut t: usize = 0;
    while t < tail.len()
        invariant
            t <= tail@.len(),
            gs@ == mid + tail@.take(t as int),
        decreases tail@.len() - t,
    {
        gs.push(tail[t]);
        assert(gs@ =~= mid + tail@.take(t + 1));
        t = t + 1;
    }
    proof {
        assert(tail@.take(tail@.len() as int) =~= tail@);
        assert(head@.take(head@.len() as int) =~= head@);
    }
    Some((groups_to_u128(&gs), q))
}

/// Reads a whole text as an address, as `str::parse::<IpAddr>` does.
pub fn parse_ip_chars(s: &[char]) -> (r: Option<IpAddress>)
    ensures
        r == ip_parse(s@),
{
    match read_ipv4_exec(s, 0) {
        Some((v, p)) => {
            if p == s.len() {
                Some(IpAddress::V4(v))
            } else {
                None
            }
        },
        None => match read_ipv6_exec(s) {
            Some((v, p)) => {
                if p == s.len() {
                    Some(IpAddress::V6(v))
                } else {
                    None
                }
            },
            None => None,
        },
    }
}

impl IpAddress {
    /// Reads a whole text as an address, as `str::parse::<IpAddr>` does.
    pub fn parse(s: &str) -> (r: Option<IpAddress>)
        ensures
            r == ip_parse(s@),
    {
        parse_ip_chars(&chars_of(s))
    }

    /// The IPv4 address of four octets, most significant first.
    pub fn from_octets(octets: [u8; 4]) -> (r: IpAddress)
        ensures
            r == IpAddress::V4(
                (octets@[0] * 0x100_0000 + octets@[1] * 0x1_0000 + octets@[2] * 0x100 + octets@[3]) as u32,
            ),
    {
        IpAddress::V4(
            (octets[0] as u32) * 0x100_0000 + (octets[1] as u32) * 0x1_0000 + (octets[2] as u32)
                * 0x100 + (octets[3] as u32),
        )
    }
}

} // verus!
