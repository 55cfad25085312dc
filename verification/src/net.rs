//! Which addresses a push may be sent to.

use vstd::prelude::*;

verus! {

/// An IP address as its octets in network order.
#[derive(Clone, Copy, Debug)]
pub enum IpAddr {
    V4([u8; 4]),
    V6([u8; 16]),
}

/// A socket address. The last two fields belong to IPv6 and are zero for IPv4.
#[derive(Clone, Copy, Debug)]
pub struct SocketAddr {
    pub ip: IpAddr,
    pub port: u16,
    pub flow_info: u32,
    pub scope_id: u32,
}

/// The number of octet values that agree in their first `bits` bits.
pub open spec fn octet_span(bits: int) -> int {
    if bits == 1 {
        128
    } else if bits == 2 {
        64
    } else if bits == 3 {
        32
    } else if bits == 4 {
        16
    } else if bits == 5 {
        8
    } else if bits == 6 {
        4
    } else if bits == 7 {
        2
    } else {
        1
    }
}

/// Whether the address `octets` lies in the network that the first `bits` bits
/// of `prefix` name.
pub open spec fn in_network(octets: Seq<u8>, prefix: Seq<u8>, bits: int) -> bool {
    let whole = bits / 8;
    let span = octet_span(bits % 8);
    &&& forall|i: int|
        #![trigger octets[i]]
        #![trigger prefix[i]]
        0 <= i < whole ==> octets[i] == prefix[i]
    &&& bits % 8 != 0 ==> octets[whole] as int / span == prefix[whole] as int / span
}

/// Whether an IPv4 address is taken to be public: it lies in none of the networks
/// listed here.
pub open spec fn public_v4(o: Seq<u8>) -> bool {
    &&& !in_network(o, seq![0u8], 8)  // this host, the unspecified address among it
    &&& !in_network(o, seq![10u8], 8)  // private use
    &&& !in_network(o, seq![100u8, 64], 10)  // carrier-grade NAT
    &&& !in_network(o, seq![127u8], 8)  // loopback
    &&& !in_network(o, seq![169u8, 254], 16)  // link-local
    &&& !in_network(o, seq![172u8, 16], 12)  // private use
    &&& !in_network(o, seq![192u8, 0, 2], 24)  // documentation
    &&& !in_network(o, seq![192u8, 168], 16)  // private use
    &&& !in_network(o, seq![198u8, 51, 100], 24)  // documentation
    &&& !in_network(o, seq![203u8, 0, 113], 24)  // documentation
    &&& !in_network(o, seq![224u8], 4)  // multicast
    &&& !in_network(o, seq![255u8, 255, 255, 255], 32)  // broadcast
}

/// Whether an IPv6 address is taken to be public: it lies in none of the networks
/// listed here, three of which hold an IPv4 address in their last four octets.
pub open spec fn public_v6(o: Seq<u8>) -> bool {
    &&& !in_network(o, seq![0u8, 0, 0, 0, 0, 0, 0, 0, 0, 0, 0, 0], 96)  // unspecified, loopback, IPv4-compatible
    &&& !in_network(o, seq![0u8, 0, 0, 0, 0, 0, 0, 0, 0, 0, 0xff, 0xff], 96)  // IPv4-mapped
    &&& !in_network(o, seq![0u8, 0x64, 0xff, 0x9b, 0, 0, 0, 0, 0, 0, 0, 0], 96)  // NAT64
    &&& !in_network(o, seq![0u8, 0x64, 0xff, 0x9b, 0, 1], 48)  // local-use NAT64
    &&& !in_network(o, seq![0xfcu8], 7)  // unique local
    &&& !in_network(o, seq![0xfeu8, 0x80], 10)  // link-local
    &&& !in_network(o, seq![0xffu8], 8)  // multicast
}

/// Whether `ip` is taken to be a public address.
pub open spec fn public_ip(ip: IpAddr) -> bool {
    match ip {
        IpAddr::V4(o) => public_v4(o@),
        IpAddr::V6(o) => public_v6(o@),
    }
}

fn span_of(bits: usize) -> (span: u8)
    requires
        0 < bits < 8,
    ensures
        span == octet_span(bits as int),
{
    match bits {
        1 => 128,
        2 => 64,
        3 => 32,
        4 => 16,
        5 => 8,
        6 => 4,
        _ => 2,
    }
}

/// Whether the address `octets` lies in the network `prefix`/`bits`.
fn lies_in(octets: &[u8], prefix: &[u8], bits: usize) -> (yes: bool)
    requires
        bits <= 8 * octets@.len(),
        bits <= 8 * prefix@.len(),
        prefix@.len() <= 16,
    ensures
        yes == in_network(octets@, prefix@, bits as int),
{
    let whole: usize = bits / 8;
    let mut i: usize = 0;
    while i < whole
        invariant
            i <= whole <= octets@.len(),
            whole <= prefix@.len(),
            whole == bits / 8,
            forall|j: int| 0 <= j < i ==> octets@[j] == prefix@[j],
        decreases whole - i,
    {
        if octets[i] != prefix[i] {
            return false;
        }
        i = i + 1;
    }
    if bits % 8 == 0 {
        true
    } else {
        let span = span_of(bits % 8);
        octets[whole] / span == prefix[whole] / span
    }
}

fn is_v4_safe(o: [u8; 4]) -> (safe: bool)
    ensures
        safe == public_v4(o@),
{
    let o = o.as_slice();
    !lies_in(o, [0u8].as_slice(), 8)
        && !lies_in(o, [10u8].as_slice(), 8)
        && !lies_in(o, [100u8, 64].as_slice(), 10)
        && !lies_in(o, [127u8].as_slice(), 8)
        && !lies_in(o, [169u8, 254].as_slice(), 16)
        && !lies_in(o, [172u8, 16].as_slice(), 12)
        && !lies_in(o, [192u8, 0, 2].as_slice(), 24)
        && !lies_in(o, [192u8, 168].as_slice(), 16)
        && !lies_in(o, [198u8, 51, 100].as_slice(), 24)
        && !lies_in(o, [203u8, 0, 113].as_slice(), 24)
        && !lies_in(o, [224u8].as_slice(), 4)
        && !lies_in(o, [255u8, 255, 255, 255].as_slice(), 32)
}

fn is_v6_safe(o: [u8; 16]) -> (safe: bool)
    ensures
        safe == public_v6(o@),
{
    let o = o.as_slice();
    !lies_in(o, [0u8, 0, 0, 0, 0, 0, 0, 0, 0, 0, 0, 0].as_slice(), 96)
        && !lies_in(o, [0u8, 0, 0, 0, 0, 0, 0, 0, 0, 0, 0xff, 0xff].as_slice(), 96)
        && !lies_in(o, [0u8, 0x64, 0xff, 0x9b, 0, 0, 0, 0, 0, 0, 0, 0].as_slice(), 96)
        && !lies_in(o, [0u8, 0x64, 0xff, 0x9b, 0, 1].as_slice(), 48)
        && !lies_in(o, [0xfcu8].as_slice(), 7)
        && !lies_in(o, [0xfeu8, 0x80].as_slice(), 10)
        && !lies_in(o, [0xffu8].as_slice(), 8)
}

/// Returns true if `ip` is taken to be a public, routable address. Refused are the
/// IPv4 addresses of this host, loopback, private, link-local, carrier-grade NAT,
/// documentation, multicast and broadcast networks, and the IPv6 addresses that
/// are unspecified, loopback, unique local, link-local, multicast,
/// IPv4-compatible, IPv4-mapped or under a NAT64 prefix.
pub fn is_ip_safe(ip: IpAddr) -> (safe: bool)
    ensures
        safe == public_ip(ip),
{
    match ip {
        IpAddr::V4(o) => is_v4_safe(o),
        IpAddr::V6(o) => is_v6_safe(o),
    }
}

/// The addresses among `found` that are public, in their order.
pub open spec fn public_addrs(found: Seq<SocketAddr>) -> Seq<SocketAddr> {
    found.filter(|a: SocketAddr| public_ip(a.ip))
}

/// What a name resolves to, for the addresses `found`: the public ones, or a refusal
/// with all of them where none is public.
pub open spec fn resolution(
    found: Seq<SocketAddr>,
) -> Result<Seq<SocketAddr>, Seq<SocketAddr>> {
    if public_addrs(found).len() > 0 {
        Ok(public_addrs(found))
    } else {
        Err(found)
    }
}

/// What a resolver reports where a name has no public address.
pub const NO_PUBLIC_ADDRESS: &'static str = "endpoint resolves only to non-public addresses";

/// Narrows what a name resolves to down to public addresses. A connection is
/// made to exactly the addresses that come out, so the check and the connection
/// rest on one resolution.
#[derive(Clone, Copy, Debug, Default)]
pub struct SafeResolver;

impl SafeResolver {
    /// The public ones among the addresses `found` for a name, in their order.
    /// Where there are none, the name is refused with all that was found.
    pub fn resolve(&self, found: Vec<SocketAddr>) -> (r: Result<Vec<SocketAddr>, Vec<SocketAddr>>)
        ensures
            match r {
                Ok(safe) => safe@ == public_addrs(found@) && safe@.len() > 0,
                Err(blocked) => public_addrs(found@).len() == 0 && blocked@ == found@,
            },
            match r {
                Ok(safe) => resolution(found@) == Ok::<Seq<SocketAddr>, Seq<SocketAddr>>(safe@),
                Err(blocked) => resolution(found@) == Err::<Seq<SocketAddr>, Seq<SocketAddr>>(
                    blocked@,
                ),
            },
    {
        let ghost keep = |a: SocketAddr| public_ip(a.ip);
        let mut safe: Vec<SocketAddr> = Vec::new();
        let mut blocked: Vec<SocketAddr> = Vec::new();
        let mut i: usize = 0;
        proof {
            reveal(Seq::filter);
        }
        while i < found.len()
            invariant
                i <= found@.len(),
                keep == (|a: SocketAddr| public_ip(a.ip)),
                safe@ == found@.take(i as int).filter(keep),
                safe@.len() == 0 ==> blocked@ == found@.take(i as int),
            decreases found@.len() - i,
        {
            let addr = found[i];
            proof {
                reveal(Seq::filter);
                assert(found@.take(i + 1).drop_last() =~= found@.take(i as int));
                assert(found@.take(i + 1) =~= found@.take(i as int).push(addr));
            }
            if is_ip_safe(addr.ip) {
                safe.push(addr);
            } else {
                blocked.push(addr);
            }
            i = i + 1;
        }
        proof {
            assert(found@.take(found@.len() as int) =~= found@);
        }
        if safe.len() == 0 {
            Err(blocked)
        } else {
            Ok(safe)
        }
    }
}

/// The texts in `parts`, in order, separated by a comma and a space.
pub open spec fn comma_joined(parts: Seq<String>) -> Seq<char>
    decreases parts.len(),
{
    if parts.len() == 0 {
        Seq::empty()
    } else if parts.len() == 1 {
        parts[0]@
    } else {
        comma_joined(parts.drop_last()) + ", "@ + parts.last()@
    }
}

/// The refused addresses of a name, each as its text, for the warning log.
pub struct BlockedIps<'a>(pub &'a Vec<String>);

impl<'a> BlockedIps<'a> {
    /// The addresses, separated by commas.
    pub fn to_text(&self) -> (text: String)
        ensures
            text@ == comma_joined(self.0@),
    {
        let parts = self.0;
        let mut text = String::new();
        let mut i: usize = 0;
        while i < parts.len()
            invariant
                i <= parts@.len(),
                parts@ == self.0@,
                text@ == comma_joined(parts@.take(i as int)),
            decreases parts@.len() - i,
        {
            proof {
                assert(parts@.take(i + 1).drop_last() =~= parts@.take(i as int));
            }
            if i > 0 {
                text.append(", ");
            }
            text.append(parts[i].as_str());
            i = i + 1;
        }
        proof {
            assert(parts@.take(parts@.len() as int) =~= parts@);
        }
        text
    }
}

/// An IPv4 address in its IPv4-compatible, its IPv4-mapped or its NAT64 form is
/// never public, so none of the three opens a way around the IPv4 check.
pub proof fn law_embedded_v4_is_refused(prefix: Seq<u8>, v4: Seq<u8>)
    requires
        v4.len() == 4,
        ({
            ||| prefix == seq![0u8, 0, 0, 0, 0, 0, 0, 0, 0, 0, 0, 0]
            ||| prefix == seq![0u8, 0, 0, 0, 0, 0, 0, 0, 0, 0, 0xff, 0xff]
            ||| prefix == seq![0u8, 0x64, 0xff, 0x9b, 0, 0, 0, 0, 0, 0, 0, 0]
        }),
    ensures
        !public_v6(prefix + v4),
{
    let o = prefix + v4;
    assert forall|i: int| 0 <= i < 12 implies o[i] == prefix[i] by {}
    assert(in_network(o, prefix, 96));
}

/// A resolver hands out public addresses only, and each of them was found for
/// the name.
pub proof fn law_resolved_addresses_are_public(found: Seq<SocketAddr>, i: int)
    requires
        0 <= i < public_addrs(found).len(),
    ensures
        public_ip(public_addrs(found)[i].ip),
        found.contains(public_addrs(found)[i]),
{
    let keep = |a: SocketAddr| public_ip(a.ip);
    found.lemma_filter_pred(keep, i);
    found.lemma_filter_contains_rev(keep, public_addrs(found)[i]);
}

/// No public address that was found for a name is withheld.
pub proof fn law_public_addresses_are_kept(found: Seq<SocketAddr>, i: int)
    requires
        0 <= i < found.len(),
        public_ip(found[i].ip),
    ensures
        public_addrs(found).contains(found[i]),
{
    found.lemma_filter_contains(|a: SocketAddr| public_ip(a.ip), i);
}

/// Which IPv4 addresses are refused, by their octets: those of 0.0.0.0/8,
/// 10.0.0.0/8, 100.64.0.0/10, 127.0.0.0/8, 169.254.0.0/16, 172.16.0.0/12,
/// 192.0.2.0/24, 192.168.0.0/16, 198.51.100.0/24, 203.0.113.0/24 and 224.0.0.0/4,
/// and 255.255.255.255. Every other one is public.
pub proof fn law_refused_ipv4_addresses(ip: IpAddr, o: [u8; 4])
    requires
        ip == IpAddr::V4(o),
    ensures
        !public_ip(ip) <==> {
            ||| o[0] == 0
            ||| o[0] == 10
            ||| o[0] == 100 && o[1] & 0xc0 == 64
            ||| o[0] == 127
            ||| o[0] == 169 && o[1] == 254
            ||| o[0] == 172 && o[1] & 0xf0 == 16
            ||| o[0] == 192 && o[1] == 0 && o[2] == 2
            ||| o[0] == 192 && o[1] == 168
            ||| o[0] == 198 && o[1] == 51 && o[2] == 100
            ||| o[0] == 203 && o[1] == 0 && o[2] == 113
            ||| o[0] & 0xf0 == 224
            ||| o[0] == 255 && o[1] == 255 && o[2] == 255 && o[3] == 255
        },
{
    lemma_octet_masks(o[0]);
    lemma_octet_masks(o[1]);
    let a = o@;
    assert(in_network(a, seq![0u8], 8) <==> a[0] == 0);
    assert(in_network(a, seq![10u8], 8) <==> a[0] == 10);
    assert(in_network(a, seq![100u8, 64], 10) <==> a[0] == 100 && a[1] / 64 == 1);
    assert(in_network(a, seq![127u8], 8) <==> a[0] == 127);
    assert(in_network(a, seq![169u8, 254], 16) <==> a[0] == 169 && a[1] == 254);
    assert(in_network(a, seq![172u8, 16], 12) <==> a[0] == 172 && a[1] / 16 == 1);
    assert(in_network(a, seq![192u8, 0, 2], 24) <==> a[0] == 192 && a[1] == 0 && a[2] == 2);
    assert(in_network(a, seq![192u8, 168], 16) <==> a[0] == 192 && a[1] == 168);
    assert(in_network(a, seq![198u8, 51, 100], 24) <==> a[0] == 198 && a[1] == 51 && a[2] == 100);
    assert(in_network(a, seq![203u8, 0, 113], 24) <==> a[0] == 203 && a[1] == 0 && a[2] == 113);
    assert(in_network(a, seq![224u8], 4) <==> a[0] / 16 == 14) by {
        assert(seq![224u8][0] == 224);
        assert(4int / 8 == 0 && 4int % 8 == 4);
    }
    assert(in_network(a, seq![255u8, 255, 255, 255], 32) <==> a[0] == 255 && a[1] == 255 && a[2]
        == 255 && a[3] == 255);
}

/// Which IPv6 addresses are refused, by their octets: those of ff00::/8, fc00::/7,
/// fe80::/10, ::/96, ::ffff:0:0/96, 64:ff9b::/96 and 64:ff9b:1::/48. Every other one
/// is public.
pub proof fn law_refused_ipv6_addresses(ip: IpAddr, o: [u8; 16])
    requires
        ip == IpAddr::V6(o),
    ensures
        !public_ip(ip) <==> {
            ||| o[0] == 0xff
            ||| o[0] & 0xfe == 0xfc
            ||| o[0] == 0xfe && o[1] & 0xc0 == 0x80
            ||| o@.take(12) == seq![0u8, 0, 0, 0, 0, 0, 0, 0, 0, 0, 0, 0]
            ||| o@.take(12) == seq![0u8, 0, 0, 0, 0, 0, 0, 0, 0, 0, 0xff, 0xff]
            ||| o@.take(12) == seq![0u8, 0x64, 0xff, 0x9b, 0, 0, 0, 0, 0, 0, 0, 0]
            ||| o@.take(6) == seq![0u8, 0x64, 0xff, 0x9b, 0, 1]
        },
{
    lemma_octet_masks(o[0]);
    lemma_octet_masks(o[1]);
    lemma_whole_octets(o@, seq![0u8, 0, 0, 0, 0, 0, 0, 0, 0, 0, 0, 0]);
    lemma_whole_octets(o@, seq![0u8, 0, 0, 0, 0, 0, 0, 0, 0, 0, 0xff, 0xff]);
    lemma_whole_octets(o@, seq![0u8, 0x64, 0xff, 0x9b, 0, 0, 0, 0, 0, 0, 0, 0]);
    lemma_whole_octets(o@, seq![0u8, 0x64, 0xff, 0x9b, 0, 1]);
}

/// Global unicast addresses are public: every IPv6 address whose first octet is
/// from 0x01 to 0xfb.
pub proof fn law_global_ipv6_addresses_are_public(ip: IpAddr, o: [u8; 16])
    requires
        ip == IpAddr::V6(o),
        0x01 <= o[0] <= 0xfb,
    ensures
        public_ip(ip),
{
    law_refused_ipv6_addresses(ip, o);
    let first = o[0];
    assert(first <= 0xfb ==> first & 0xfe != 0xfc) by (bit_vector);
    assert(o@.take(12)[0] == first);
    assert(o@.take(6)[0] == first);
}

proof fn lemma_octet_masks(b: u8)
    by (bit_vector)
    ensures
        b & 0xc0 == 64 <==> b / 64 == 1,
        b & 0xc0 == 0x80 <==> b / 64 == 2,
        b & 0xf0 == 16 <==> b / 16 == 1,
        b & 0xf0 == 224 <==> b / 16 == 14,
        b & 0xfe == 0xfc <==> b / 2 == 126,
{
}

proof fn lemma_whole_octets(o: Seq<u8>, prefix: Seq<u8>)
    requires
        prefix.len() <= o.len(),
    ensures
        in_network(o, prefix, 8 * prefix.len() as int) <==> o.take(prefix.len() as int) == prefix,
{
    let front = o.take(prefix.len() as int);
    if in_network(o, prefix, 8 * prefix.len() as int) {
        assert(front =~= prefix);
    } else if front == prefix {
        assert forall|i: int| 0 <= i < prefix.len() implies o[i] == prefix[i] by {
            assert(front[i] == o[i]);
        }
    }
}

/// A resolver decides on each address by itself and keeps their order: what is
/// left of two lists is what is left of each, and of a single address it is the
/// address where it is public, and nothing where it is not.
pub proof fn law_addresses_are_filtered_one_by_one(
    a: Seq<SocketAddr>,
    b: Seq<SocketAddr>,
    addr: SocketAddr,
)
    ensures
        public_addrs(a + b) == public_addrs(a) + public_addrs(b),
        public_addrs(Seq::empty()) == Seq::<SocketAddr>::empty(),
        public_ip(addr.ip) ==> public_addrs(seq![addr]) == seq![addr],
        !public_ip(addr.ip) ==> public_addrs(seq![addr]).len() == 0,
{
    let keep = |x: SocketAddr| public_ip(x.ip);
    Seq::filter_distributes_over_add(a, b, keep);
    reveal(Seq::filter);
    assert(seq![addr].drop_last() =~= Seq::empty());
    assert(Seq::<SocketAddr>::empty().filter(keep) =~= Seq::empty());
    assert(public_ip(addr.ip) ==> seq![addr].filter(keep) =~= seq![addr]);
}

/// The log names every refused address in order, with a comma and a space between
/// one and the next.
pub proof fn law_refused_addresses_are_all_named(a: Seq<String>, b: Seq<String>)
    ensures
        a.len() == 0 ==> comma_joined(a).len() == 0,
        a.len() == 1 ==> comma_joined(a) == a[0]@,
        a.len() > 0 && b.len() > 0 ==> comma_joined(a + b) == comma_joined(a) + seq![',', ' ']
            + comma_joined(b),
    decreases b.len(),
{
    reveal_strlit(", ");
    assert(", "@ =~= seq![',', ' ']);
    if a.len() > 0 && b.len() > 0 {
        let all = a + b;
        assert(all.drop_last() =~= a + b.drop_last());
        assert(all.last() == b.last());
        if b.len() == 1 {
            assert(all.drop_last() =~= a);
        } else {
            law_refused_addresses_are_all_named(a, b.drop_last());
            assert(comma_joined(a + b) =~= comma_joined(a) + seq![',', ' '] + comma_joined(b));
        }
    }
}

/// An address literal and an address that a name resolves to are held to the same
/// rule: what a resolver would drop is not public, and what it keeps is.
pub proof fn law_resolver_and_literals_agree(addr: SocketAddr)
    ensures
        public_addrs(seq![addr]).len() == 1 <==> public_ip(addr.ip),
        public_addrs(seq![addr]).len() == 0 <==> !public_ip(addr.ip),
{
    law_addresses_are_filtered_one_by_one(seq![addr], Seq::empty(), addr);
}

/// A name resolves wherever one of its addresses is public, to those that are public
/// and to all of them. Where none is, it is refused with everything that was found.
pub proof fn law_names_resolve_to_their_public_addresses(found: Seq<SocketAddr>)
    ensures
        match resolution(found) {
            Ok(safe) => {
                &&& forall|i: int|
                    0 <= i < found.len() && public_ip(found[i].ip) ==> safe.contains(
                        #[trigger] found[i],
                    )
                &&& forall|j: int|
                    0 <= j < safe.len() ==> public_ip((#[trigger] safe[j]).ip) && found.contains(
                        safe[j],
                    )
            },
            Err(blocked) => blocked == found,
        },
        resolution(found) is Ok <==> exists|i: int|
            0 <= i < found.len() && public_ip((#[trigger] found[i]).ip),
{
    assert forall|i: int| 0 <= i < found.len() && public_ip(found[i].ip) implies public_addrs(
        found,
    ).contains(#[trigger] found[i]) by {
        law_public_addresses_are_kept(found, i);
    }
    assert forall|j: int| 0 <= j < public_addrs(found).len() implies public_ip(
        (#[trigger] public_addrs(found)[j]).ip,
    ) && found.contains(public_addrs(found)[j]) by {
        law_resolved_addresses_are_public(found, j);
    }
    if public_addrs(found).len() > 0 {
        let first = public_addrs(found)[0];
        assert(public_ip(first.ip) && found.contains(first));
        let i = choose|i: int| 0 <= i < found.len() && found[i] == first;
        assert(public_ip(found[i].ip));
    }
}

} // verus!
