//! Network adapters of the host: the address records that `getifaddrs`
//! reports and the default routes, gathered per interface name.

use crate::net::{
    ipv4_octets, ipv4_text, law_ipv4_text_round_trip, parse_ipv4_text, AddrParseError, IpAddr,
    Ipv4Addr, Ipv6Addr,
};
use crate::text::{
    count_ones, count_ones_u32, decimal, find_char, pow2, has_prefix, is_digit, lemma_decimal,
    law_u8_text_round_trip, hex_byte, parse_u8, parse_u8_text, push_char,
    push_decimal, push_hex_byte, split_once, split_once_text, starts_with,
    ParseIntError,
};
use vstd::prelude::*;

verus! {

broadcast use {Ipv4Addr::lemma_from_bits_spec, Ipv4Addr::lemma_view_injective};

/// Why reading the network adapters failed.
#[derive(Debug, Clone, PartialEq, Eq)]
pub enum ReadNetworkAdaptersError {
    /// An I/O error, by its message.
    IO(String),
    InvalidAddress(AddrParseError),
    InvalidInt(ParseIntError),
    /// An error of reading `/proc`, by its message.
    Procfs(String),
    PropertyNull(&'static str),
    UnsupportedSaFamily(u16),
    Other(String),
}

/// The kind of a network interface, as its name tells it.
#[derive(Debug, Default, Clone, Copy, PartialEq, Eq, Structural)]
pub enum NetType {
    #[default]
    Unknown,
    Wired,
    Wireless,
    Local,
    Bridge,
    Virtual,
}

/// The kind of the interface named `name`.
pub open spec fn net_type_of(name: Seq<char>) -> NetType {
    if has_prefix(name, "en"@) || has_prefix(name, "eth"@) {
        NetType::Wired
    } else if has_prefix(name, "wl"@) {
        NetType::Wireless
    } else if has_prefix(name, "lo"@) {
        NetType::Local
    } else if has_prefix(name, "veth"@) {
        NetType::Virtual
    } else if has_prefix(name, "br"@) || has_prefix(name, "docker"@) {
        NetType::Bridge
    } else {
        NetType::Unknown
    }
}

/// The name starts with the two characters `a`, `b`.
pub open spec fn starts2(name: Seq<char>, a: char, b: char) -> bool {
    name.len() >= 2 && name[0] == a && name[1] == b
}

/// An interface's kind is told by how its name starts: `en…` and `eth…`
/// are wired, `wl…` wireless, `lo…` loopback, `veth…` virtual, `br…` and
/// `docker…` bridges, and any other name is of unknown kind.
pub proof fn law_net_type_by_prefix(name: Seq<char>)
    ensures
        starts2(name, 'e', 'n') ==> net_type_of(name) == NetType::Wired,
        starts2(name, 'e', 't') && name.len() >= 3 && name[2] == 'h' ==> net_type_of(name)
            == NetType::Wired,
        starts2(name, 'w', 'l') ==> net_type_of(name) == NetType::Wireless,
        starts2(name, 'l', 'o') ==> net_type_of(name) == NetType::Local,
        starts2(name, 'v', 'e') && name.len() >= 4 && name[2] == 't' && name[3] == 'h' ==> net_type_of(
            name,
        ) == NetType::Virtual,
        starts2(name, 'b', 'r') ==> net_type_of(name) == NetType::Bridge,
        starts2(name, 'd', 'o') && name.len() >= 6 && name[2] == 'c' && name[3] == 'k' && name[4]
            == 'e' && name[5] == 'r' ==> net_type_of(name) == NetType::Bridge,
        !starts2(name, 'e', 'n') && !starts2(name, 'e', 't') && !starts2(name, 'w', 'l')
            && !starts2(name, 'l', 'o') && !starts2(name, 'v', 'e') && !starts2(name, 'b', 'r')
            && !starts2(name, 'd', 'o') ==> net_type_of(name) == NetType::Unknown,
{
    reveal_strlit("en");
    reveal_strlit("eth");
    reveal_strlit("wl");
    reveal_strlit("lo");
    reveal_strlit("veth");
    reveal_strlit("br");
    reveal_strlit("docker");
    lemma_has_prefix_chars(name, "en"@);
    lemma_has_prefix_chars(name, "eth"@);
    lemma_has_prefix_chars(name, "wl"@);
    lemma_has_prefix_chars(name, "lo"@);
    lemma_has_prefix_chars(name, "veth"@);
    lemma_has_prefix_chars(name, "br"@);
    lemma_has_prefix_chars(name, "docker"@);
}

/// `p` is a prefix of `s` exactly when `s` has `p`'s characters at `p`'s
/// positions.
proof fn lemma_has_prefix_chars(s: Seq<char>, p: Seq<char>)
    ensures
        has_prefix(s, p) <==> (p.len() <= s.len() && forall|i: int| 0 <= i < p.len() ==> s[i]
            == p[i]),
{
    if p.len() <= s.len() {
        if forall|i: int| 0 <= i < p.len() ==> s[i] == p[i] {
            assert(s.take(p.len() as int) =~= p);
        }
        if s.take(p.len() as int) == p {
            assert forall|i: int| 0 <= i < p.len() implies s[i] == p[i] by {
                assert(s.take(p.len() as int)[i] == s[i]);
            }
        }
    }
}

impl NetType {
    /// Classifies an interface by the prefix of its name: `en`/`eth` wired,
    /// `wl` wireless, `lo` loopback, `veth` virtual, `br`/`docker` bridge.
    pub fn from(value: &str) -> (r: NetType)
        ensures
            r == net_type_of(value@),
    {
        if starts_with(value, "en") || starts_with(value, "eth") {
            NetType::Wired
        } else if starts_with(value, "wl") {
            NetType::Wireless
        } else if starts_with(value, "lo") {
            NetType::Local
        } else if starts_with(value, "veth") {
            NetType::Virtual
        } else if starts_with(value, "br") || starts_with(value, "docker") {
            NetType::Bridge
        } else {
            NetType::Unknown
        }
    }
}

/// `libc::AF_INET`, the address family of IPv4 socket addresses (2 on Linux).
#[verifier::external_body]
fn af_inet() -> (r: i32)
    ensures
        r == 2,
{
    libc::AF_INET
}

/// `libc::AF_INET6`, the address family of IPv6 socket addresses (10 on Linux).
#[verifier::external_body]
fn af_inet6() -> (r: i32)
    ensures
        r == 10,
{
    libc::AF_INET6
}

/// `libc::AF_PACKET`, the address family of link-layer socket addresses
/// (17 on Linux).
#[verifier::external_body]
fn af_packet() -> (r: i32)
    ensures
        r == 17,
{
    libc::AF_PACKET
}

/// The address family of a socket address.
#[derive(Debug, Clone, Copy, PartialEq, Eq, Structural)]
pub enum SaFamily {
    Unsupported(u16),
    Packet,
    Inet4,
    Inet6,
}

/// The family that `sa_family` names (Linux numbering).
pub open spec fn sa_family_of(value: u16) -> SaFamily {
    if value == 2 {
        SaFamily::Inet4
    } else if value == 10 {
        SaFamily::Inet6
    } else if value == 17 {
        SaFamily::Packet
    } else {
        SaFamily::Unsupported(value)
    }
}

impl SaFamily {
    /// The family of an `sa_family` value, compared with libc's constants.
    pub fn from(value: u16) -> (r: SaFamily)
        ensures
            r == sa_family_of(value),
    {
        let v = value as i32;
        if v == af_inet() {
            SaFamily::Inet4
        } else if v == af_inet6() {
            SaFamily::Inet6
        } else if v == af_packet() {
            SaFamily::Packet
        } else {
            SaFamily::Unsupported(value)
        }
    }
}

/// The host part of a network with a `size`-bit prefix: the bits that a
/// network address must leave zero (`0xffffffff >> size`, none from 32 on).
pub open spec fn host_mask(size: u8) -> u32 {
    if size >= 32 {
        0
    } else {
        0xffffffffu32 >> size
    }
}

/// An IPv4 network: an address with a prefix length of at most 32 bits,
/// whose host part is zero.
#[derive(Debug, Clone, Copy, PartialEq, Eq, Structural)]
pub struct Ipv4Network {
    address: Ipv4Addr,
    size: u8,
}

impl View for Ipv4Network {
    type V = (u32, u8);

    closed spec fn view(&self) -> (u32, u8) {
        (self.address@, self.size)
    }
}

/// The message of a prefix length above 32.
pub open spec fn size_error_text(size: u8) -> Seq<char> {
    "Network size has to be 32 or less, not "@ + decimal(size as nat)
}

/// The message of an address whose host part is not zero.
pub open spec fn host_bits_error_text(address: u32, size: u8) -> Seq<char> {
    "Address part of network "@ + ipv4_text(address) + "/"@ + decimal(size as nat)
        + " is not 0"@
}

/// `a.b.c.d/size`, as `Display` writes a network.
pub open spec fn ipv4_network_text(n: (u32, u8)) -> Seq<char> {
    ipv4_text(n.0) + "/"@ + decimal(n.1 as nat)
}

/// The result of [`Ipv4Network::try_new`].
pub open spec fn ipv4_network_check(address: u32, size: u8) -> Result<(u32, u8), Seq<char>> {
    if size > 32 {
        Err(size_error_text(size))
    } else if address & host_mask(size) != 0 {
        Err(host_bits_error_text(address, size))
    } else {
        Ok((address, size))
    }
}

/// The network that an interface address and its subnet mask describe:
/// the masked address, with as many prefix bits as the mask has one bits.
pub open spec fn ipv4_network_of_mask(address: u32, mask: u32) -> Result<(u32, u8), Seq<char>> {
    ipv4_network_check(address & mask, count_ones(mask as nat) as u8)
}

/// The address and prefix-length parts of a network text `address/size`,
/// split at the first `/`; `Other("No '/' found")` without one.
pub fn split_network_text<'a>(s: &'a str) -> (r: Result<(&'a str, &'a str), ReadNetworkAdaptersError>)
    ensures
        match split_once_text(s@, '/') {
            None => r matches Err(ReadNetworkAdaptersError::Other(t)) && t@ == "No '/' found"@,
            Some((a, b)) => r matches Ok((x, y)) && x@ == a && y@ == b,
        },
{
    match split_once(s, '/') {
        Some(p) => Ok(p),
        None => {
            let mut m = String::new();
            m.append("No '/' found");
            proof {
                assert(Seq::<char>::empty() + "No '/' found"@ == "No '/' found"@);
            }
            Err(ReadNetworkAdaptersError::Other(m))
        },
    }
}

impl Ipv4Network {
    /// Whether this is a valid network: prefix at most 32, host part zero.
    pub closed spec fn wf(&self) -> bool {
        self.size <= 32 && self.address@ & host_mask(self.size) == 0
    }

    /// `172.21.0.0/16`, the network flecs prefers for its bridge.
    pub fn default() -> (r: Ipv4Network)
        ensures
            r@ == (0xac150000u32, 16u8),
            r.wf(),
    {
        let r = Ipv4Network { address: Ipv4Addr::new(172, 21, 0, 0), size: 16 };
        proof {
            assert(0xac150000u32 & (0xffffffffu32 >> 16u8) == 0) by (bit_vector);
        }
        r
    }

    /// The network `address/size`; the prefix must be at most 32 bits and
    /// the host part of the address zero, else `Other` with a message.
    pub fn try_new(address: Ipv4Addr, size: u8) -> (r: Result<Ipv4Network, ReadNetworkAdaptersError>)
        ensures
            match ipv4_network_check(address@, size) {
                Ok(v) => r matches Ok(n) && n@ == v && n.wf(),
                Err(m) => r matches Err(ReadNetworkAdaptersError::Other(t)) && t@ == m,
            },
    {
        if size > 32 {
            let mut m = String::new();
            m.append("Network size has to be 32 or less, not ");
            push_decimal(&mut m, size as u64);
            return Err(ReadNetworkAdaptersError::Other(m));
        }
        let mask = if size >= 32 {
            0u32
        } else {
            0xffffffffu32 >> size
        };
        if address.bitand(&Ipv4Addr::from_bits(mask)).to_bits() != 0 {
            let mut m = String::new();
            m.append("Address part of network ");
            address.push_text(&mut m);
            push_char(&mut m, '/');
            push_decimal(&mut m, size as u64);
            m.append(" is not 0");
            proof {
                assert(seq!['/'] == "/"@) by {
                    reveal_strlit("/");
                }
            }
            return Err(ReadNetworkAdaptersError::Other(m));
        }
        Ok(Ipv4Network { address, size })
    }

    /// The network of an interface address and its subnet mask:
    /// `try_new(address & mask, number of one bits of mask)`.
    pub fn new_from_address_and_subnet_mask(address: Ipv4Addr, subnet_mask: Ipv4Addr) -> (r: Result<
        Ipv4Network,
        ReadNetworkAdaptersError,
    >)
        ensures
            match ipv4_network_of_mask(address@, subnet_mask@) {
                Ok(v) => r matches Ok(n) && n@ == v && n.wf(),
                Err(m) => r matches Err(ReadNetworkAdaptersError::Other(t)) && t@ == m,
            },
    {
        let size = count_ones_u32(subnet_mask.to_bits());
        Self::try_new(address.bitand(&subnet_mask), size as u8)
    }

    /// The network address.
    pub fn address(&self) -> (r: Ipv4Addr)
        ensures
            r@ == self@.0,
    {
        self.address
    }

    /// The prefix length.
    pub fn size(&self) -> (r: u8)
        ensures
            r == self@.1,
    {
        self.size
    }

    /// `a.b.c.d/size`, e.g. `172.21.0.0/16`.
    pub fn to_string(&self) -> (s: String)
        ensures
            s@ == ipv4_network_text(self@),
    {
        let mut s = self.address.to_string();
        push_char(&mut s, '/');
        push_decimal(&mut s, self.size as u64);
        proof {
            assert(seq!['/'] == "/"@) by {
                reveal_strlit("/");
            }
        }
        s
    }

    /// Reads `a.b.c.d/size`: `Other` without a `/`, `InvalidAddress` for a
    /// bad address, `InvalidInt` for a bad prefix length, and then the
    /// checks of [`Ipv4Network::try_new`].
    pub fn from_str(s: &str) -> (r: Result<Ipv4Network, ReadNetworkAdaptersError>)
        ensures
            match split_once_text(s@, '/') {
                None => r matches Err(ReadNetworkAdaptersError::Other(t)) && t@ == "No '/' found"@,
                Some((a, b)) => match parse_ipv4_text(a) {
                    None => r matches Err(ReadNetworkAdaptersError::InvalidAddress(_)),
                    Some(bits) => match parse_u8_text(b) {
                        None => r matches Err(ReadNetworkAdaptersError::InvalidInt(_)),
                        Some(size) => match ipv4_network_check(bits, size) {
                            Ok(v) => r matches Ok(n) && n@ == v && n.wf(),
                            Err(m) => r matches Err(ReadNetworkAdaptersError::Other(t)) && t@
                                == m,
                        },
                    },
                },
            },
    {
        let (a, b) = match split_network_text(s) {
            Ok(p) => p,
            Err(e) => {
                return Err(e);
            },
        };
        let address = match Ipv4Addr::from_str(a) {
            Ok(x) => x,
            Err(e) => {
                return Err(ReadNetworkAdaptersError::InvalidAddress(e));
            },
        };
        let size = match parse_u8(b) {
            Some(x) => x,
            None => {
                return Err(ReadNetworkAdaptersError::InvalidInt(ParseIntError));
            },
        };
        Self::try_new(address, size)
    }
}

/// An IPv6 network: an address and a prefix length.
#[derive(Debug, Clone, Copy, PartialEq, Eq)]
pub struct Ipv6Network {
    pub address: Ipv6Addr,
    prefix_len: u8,
}

/// The sum of the one bits of the first `k` octets.
pub open spec fn octet_ones(o: Seq<u8>, k: int) -> nat
    decreases k,
{
    if k <= 0 {
        0
    } else {
        octet_ones(o, k - 1) + count_ones(o[k - 1] as nat)
    }
}

impl View for Ipv6Network {
    type V = (Seq<u8>, u8);

    closed spec fn view(&self) -> (Seq<u8>, u8) {
        (self.address@, self.prefix_len)
    }
}

/// The network of an IPv6 address and subnet mask: the octet-wise masked
/// address and the number of one bits of the mask.
pub open spec fn ipv6_network_of_mask(address: Seq<u8>, mask: Seq<u8>) -> (Seq<u8>, u8) {
    (Seq::new(16, |i: int| address[i] & mask[i]), octet_ones(mask, 16) as u8)
}

/// The octets of the IPv6 mask whose first `k` bits are one and whose
/// other bits are zero.
pub open spec fn ipv6_prefix_mask(k: int) -> Seq<u8> {
    Seq::new(
        16,
        |i: int|
            if k >= 8 * i + 8 {
                255u8
            } else if k <= 8 * i {
                0u8
            } else {
                (256 - pow2((8 * i + 8 - k) as nat)) as u8
            },
    )
}

/// The number of one bits of an octet whose first `r` bits are one.
proof fn lemma_octet_prefix_ones(r: int)
    requires
        0 < r < 8,
    ensures
        count_ones((256 - pow2((8 - r) as nat)) as u8 as nat) == r,
{
    reveal_with_fuel(pow2, 9);
    reveal_with_fuel(count_ones, 9);
    if r == 1 {
        assert(count_ones(128) == 1);
    } else if r == 2 {
        assert(count_ones(192) == 2);
    } else if r == 3 {
        assert(count_ones(224) == 3);
    } else if r == 4 {
        assert(count_ones(240) == 4);
    } else if r == 5 {
        assert(count_ones(248) == 5);
    } else if r == 6 {
        assert(count_ones(252) == 6);
    } else {
        assert(count_ones(254) == 7);
    }
}

/// The one bits of the first `j` octets of the `k`-bit prefix mask.
proof fn lemma_prefix_mask_octet_ones(k: int, j: int)
    requires
        0 <= k <= 128,
        0 <= j <= 16,
    ensures
        octet_ones(ipv6_prefix_mask(k), j) == if k < 8 * j {
            k
        } else {
            8 * j
        },
    decreases j,
{
    if j > 0 {
        lemma_prefix_mask_octet_ones(k, j - 1);
        let m = ipv6_prefix_mask(k);
        let i = j - 1;
        if k >= 8 * i + 8 {
            assert(m[i] == 255u8);
            assert(count_ones(255) == 8) by {
                reveal_with_fuel(count_ones, 9);
            }
        } else if k <= 8 * i {
            assert(m[i] == 0u8);
        } else {
            lemma_octet_prefix_ones(k - 8 * i);
            assert(m[i] == (256 - pow2((8 * i + 8 - k) as nat)) as u8);
            assert((8 * i + 8 - k) == 8 - (k - 8 * i));
        }
    }
}

/// The network of an IPv6 address and the mask of a `k`-bit prefix has
/// prefix length `k`: every one bit of all sixteen mask octets counts;
/// its address is the address with the bits after the prefix cleared.
pub proof fn law_ipv6_prefix_mask_network(address: Seq<u8>, k: int)
    requires
        0 <= k <= 128,
    ensures
        ipv6_network_of_mask(address, ipv6_prefix_mask(k)).1 == k,
        ipv6_network_of_mask(address, ipv6_prefix_mask(k)).0.len() == 16,
        forall|i: int|
            0 <= i < 16 ==> #[trigger] ipv6_network_of_mask(address, ipv6_prefix_mask(k)).0[i]
                == address[i] & ipv6_prefix_mask(k)[i],
{
    lemma_prefix_mask_octet_ones(k, 16);
}

impl Ipv6Network {

    /// The network `address/prefix_len`, taken as given.
    pub fn new(address: Ipv6Addr, prefix_len: u8) -> (r: Ipv6Network)
        ensures
            r@ == (address@, prefix_len),
    {
        Ipv6Network { address, prefix_len }
    }

    /// The network of the parts of a text `address/size`: `address` is the
    /// outcome of reading the address part as an IPv6 address (an error
    /// becomes `InvalidAddress`), and `size` the prefix-length part, read
    /// as `u8::from_str` does (else `InvalidInt`). The prefix is taken as
    /// given.
    pub fn from_parts(address: Result<Ipv6Addr, AddrParseError>, size: &str) -> (r: Result<
        Ipv6Network,
        ReadNetworkAdaptersError,
    >)
        ensures
            match address {
                Err(e) => r == Err::<Ipv6Network, ReadNetworkAdaptersError>(
                    ReadNetworkAdaptersError::InvalidAddress(e),
                ),
                Ok(a) => match parse_u8_text(size@) {
                    None => r matches Err(ReadNetworkAdaptersError::InvalidInt(_)),
                    Some(n) => r matches Ok(net) && net@ == (a@, n),
                },
            },
    {
        let address = match address {
            Ok(a) => a,
            Err(e) => {
                return Err(ReadNetworkAdaptersError::InvalidAddress(e));
            },
        };
        match parse_u8(size) {
            Some(n) => Ok(Self::new(address, n)),
            None => Err(ReadNetworkAdaptersError::InvalidInt(ParseIntError)),
        }
    }

    /// The prefix length.
    pub fn prefix_len(&self) -> (r: u8)
        ensures
            r == self@.1,
    {
        self.prefix_len
    }

    /// The network of an interface address and its subnet mask: the
    /// masked address, with as many prefix bits as the mask has one bits.
    pub fn new_from_address_and_subnet_mask(address: Ipv6Addr, subnet_mask: Ipv6Addr) -> (r:
        Ipv6Network)
        ensures
            r@ == ipv6_network_of_mask(address@, subnet_mask@),
    {
        let octets = subnet_mask.octets();
        let mut suffix: u32 = 0;
        let mut i: usize = 0;
        while i < 16
            invariant
                i <= 16,
                octets@ == subnet_mask@,
                octets@.len() == 16,
                suffix == octet_ones(subnet_mask@, i as int),
                suffix <= 8 * i,
            decreases 16 - i,
        {
            let c = count_ones_u32(octets[i] as u32);
            proof {
                reveal_with_fuel(crate::text::pow2, 9);
                crate::text::lemma_count_ones_bound(octets[i as int] as nat, 8);
            }
            suffix = suffix + c;
            i = i + 1;
        }
        let masked = address.bitand(&subnet_mask);
        proof {
            assert(masked@ == Seq::new(16, |i: int| address@[i] & subnet_mask@[i]));
        }
        Self::new(masked, suffix as u8)
    }
}

/// The socket address of an `ifaddrs` entry, read according to its family.
#[allow(inconsistent_fields)]
#[derive(Debug, Clone, Copy, PartialEq, Eq)]
pub enum SockAddr {
    /// `AF_PACKET`: the link-layer address bytes `sll_addr`.
    Packet { sll_addr: [u8; 8] },
    /// `AF_INET`: the address and the netmask.
    Inet { address: Ipv4Addr, netmask: Ipv4Addr },
    /// `AF_INET6`: the address and the netmask.
    Inet6 { address: Ipv6Addr, netmask: Ipv6Addr },
    /// Any other family, by its number.
    Unsupported(u16),
}

/// One entry of the `getifaddrs` list: the interface name and its socket
/// address (`None` where `ifa_addr` is null).
#[derive(Debug, Clone, PartialEq, Eq)]
pub struct IfAddrsEntry {
    pub name: String,
    pub address: Option<SockAddr>,
}

impl View for IfAddrsEntry {
    type V = (Seq<char>, Option<SockAddr>);

    open spec fn view(&self) -> (Seq<char>, Option<SockAddr>) {
        (self.name@, self.address)
    }
}

/// A default-route candidate of `/proc/net/route`.
#[derive(Debug, Clone, PartialEq, Eq)]
pub struct RouteEntry {
    pub iface: String,
    pub destination: Ipv4Addr,
    pub gateway: Ipv4Addr,
}

impl View for RouteEntry {
    type V = (Seq<char>, Ipv4Addr, Ipv4Addr);

    open spec fn view(&self) -> (Seq<char>, Ipv4Addr, Ipv4Addr) {
        (self.iface@, self.destination, self.gateway)
    }
}

/// The address of one interface record.
#[allow(inconsistent_fields)]
#[derive(Debug, Clone, PartialEq, Eq)]
pub enum IfAddrsReadResultAddress {
    Mac(String),
    Ipv4 { address: Ipv4Addr, subnet_mask: Ipv4Addr },
    Ipv6 { address: Ipv6Addr, subnet_mask: Ipv6Addr },
}

/// [`IfAddrsReadResultAddress`] with the MAC address as characters.
#[verifier::ext_equal]
#[allow(inconsistent_fields)]
pub enum AddressView {
    Mac(Seq<char>),
    Ipv4 { address: Ipv4Addr, subnet_mask: Ipv4Addr },
    Ipv6 { address: Ipv6Addr, subnet_mask: Ipv6Addr },
}

impl View for IfAddrsReadResultAddress {
    type V = AddressView;

    open spec fn view(&self) -> AddressView {
        match self {
            IfAddrsReadResultAddress::Mac(m) => AddressView::Mac(m@),
            IfAddrsReadResultAddress::Ipv4 { address, subnet_mask } => AddressView::Ipv4 {
                address: *address,
                subnet_mask: *subnet_mask,
            },
            IfAddrsReadResultAddress::Ipv6 { address, subnet_mask } => AddressView::Ipv6 {
                address: *address,
                subnet_mask: *subnet_mask,
            },
        }
    }
}

/// One usable interface record: a name and an address.
#[derive(Debug, Clone, PartialEq, Eq)]
pub struct IfAddrsReadResult {
    pub name: String,
    pub address: IfAddrsReadResultAddress,
}

impl View for IfAddrsReadResult {
    type V = (Seq<char>, AddressView);

    open spec fn view(&self) -> (Seq<char>, AddressView) {
        (self.name@, self.address@)
    }
}

/// A MAC address from the first six link-layer bytes, as
/// `{:02x}:{:02x}:{:02x}:{:02x}:{:02x}:{:02x}`.
pub open spec fn mac_text(b: Seq<u8>) -> Seq<char> {
    hex_byte(b[0]) + seq![':'] + hex_byte(b[1]) + seq![':'] + hex_byte(b[2]) + seq![':'] + hex_byte(
        b[3],
    ) + seq![':'] + hex_byte(b[4]) + seq![':'] + hex_byte(b[5])
}

/// The record of an entry: `None` for a null address or an unsupported
/// family.
pub open spec fn read_result_of(e: (Seq<char>, Option<SockAddr>)) -> Option<(Seq<char>, AddressView)> {
    match e.1 {
        None => None,
        Some(SockAddr::Unsupported(_)) => None,
        Some(SockAddr::Packet { sll_addr }) => Some((e.0, AddressView::Mac(mac_text(sll_addr@)))),
        Some(SockAddr::Inet { address, netmask }) => Some(
            (e.0, AddressView::Ipv4 { address, subnet_mask: netmask }),
        ),
        Some(SockAddr::Inet6 { address, netmask }) => Some(
            (e.0, AddressView::Ipv6 { address, subnet_mask: netmask }),
        ),
    }
}

impl IfAddrsReadResult {
    /// The record of an `ifaddrs` entry: `PropertyNull("ifa_addr")` for a
    /// null address, `UnsupportedSaFamily` for a family other than packet,
    /// IPv4 and IPv6; a packet address becomes its MAC address text.
    pub fn try_from(value: IfAddrsEntry) -> (r: Result<IfAddrsReadResult, ReadNetworkAdaptersError>)
        ensures
            value@.1 is None ==> (r matches Err(ReadNetworkAdaptersError::PropertyNull(p)) && p@
                == "ifa_addr"@),
            value@.1 matches Some(SockAddr::Unsupported(f)) ==> (r matches Err(
                ReadNetworkAdaptersError::UnsupportedSaFamily(g),
            ) && g == f),
            read_result_of(value@) matches Some(x) ==> (r matches Ok(y) && y@ == x),
            read_result_of(value@) is None <==> r is Err,
    {
        let IfAddrsEntry { name, address } = value;
        match address {
            None => {
                let r: Result<IfAddrsReadResult, ReadNetworkAdaptersError> = Err(
                    ReadNetworkAdaptersError::PropertyNull("ifa_addr"),
                );
                assert(r matches Err(ReadNetworkAdaptersError::PropertyNull(p)) && p@ == "ifa_addr"@);
                r
            },
            Some(SockAddr::Unsupported(f)) => Err(ReadNetworkAdaptersError::UnsupportedSaFamily(f)),
            Some(SockAddr::Packet { sll_addr }) => {
                let mut mac = String::new();
                push_hex_byte(&mut mac, sll_addr[0]);
                push_char(&mut mac, ':');
                push_hex_byte(&mut mac, sll_addr[1]);
                push_char(&mut mac, ':');
                push_hex_byte(&mut mac, sll_addr[2]);
                push_char(&mut mac, ':');
                push_hex_byte(&mut mac, sll_addr[3]);
                push_char(&mut mac, ':');
                push_hex_byte(&mut mac, sll_addr[4]);
                push_char(&mut mac, ':');
                push_hex_byte(&mut mac, sll_addr[5]);
                proof {
                    let b = sll_addr@;
                    assert(Seq::<char>::empty() + hex_byte(b[0]) + seq![':'] + hex_byte(b[1])
                        + seq![':'] + hex_byte(b[2]) + seq![':'] + hex_byte(b[3]) + seq![':']
                        + hex_byte(b[4]) + seq![':'] + hex_byte(b[5]) == mac_text(b));
                    assert(mac@ =~= mac_text(b));
                }
                Ok(IfAddrsReadResult { name, address: IfAddrsReadResultAddress::Mac(mac) })
            },
            Some(SockAddr::Inet { address, netmask }) => Ok(
                IfAddrsReadResult {
                    name,
                    address: IfAddrsReadResultAddress::Ipv4 { address, subnet_mask: netmask },
                },
            ),
            Some(SockAddr::Inet6 { address, netmask }) => Ok(
                IfAddrsReadResult {
                    name,
                    address: IfAddrsReadResultAddress::Ipv6 { address, subnet_mask: netmask },
                },
            ),
        }
    }
}

/// A network adapter and what is known of it.
#[derive(Debug, Clone, PartialEq, Eq)]
pub struct NetworkAdapter {
    pub name: String,
    pub mac: Option<String>,
    pub net_type: NetType,
    pub ipv4_networks: Vec<Ipv4Network>,
    pub ipv6_networks: Vec<Ipv6Network>,
    pub ip_addresses: Vec<IpAddr>,
    pub gateway: Option<Ipv4Addr>,
}

/// [`NetworkAdapter`] as plain values.
pub struct NetworkAdapterView {
    pub name: Seq<char>,
    pub mac: Option<Seq<char>>,
    pub net_type: NetType,
    pub ipv4_networks: Seq<(u32, u8)>,
    pub ipv6_networks: Seq<(Seq<u8>, u8)>,
    pub ip_addresses: Seq<IpAddr>,
    pub gateway: Option<Ipv4Addr>,
}

impl View for NetworkAdapter {
    type V = NetworkAdapterView;

    open spec fn view(&self) -> NetworkAdapterView {
        NetworkAdapterView {
            name: self.name@,
            mac: match self.mac {
                Some(m) => Some(m@),
                None => None,
            },
            net_type: self.net_type,
            ipv4_networks: self.ipv4_networks@.map_values(|n: Ipv4Network| n@),
            ipv6_networks: self.ipv6_networks@.map_values(|n: Ipv6Network| n@),
            ip_addresses: self.ip_addresses@,
            gateway: self.gateway,
        }
    }
}

/// A fresh adapter: its kind from its name, nothing else known.
pub open spec fn adapter_new(name: Seq<char>) -> NetworkAdapterView {
    NetworkAdapterView {
        name,
        mac: None,
        net_type: net_type_of(name),
        ipv4_networks: Seq::empty(),
        ipv6_networks: Seq::empty(),
        ip_addresses: Seq::empty(),
        gateway: None,
    }
}

/// What one record adds to its adapter: a MAC address replaces the MAC; an
/// IPv4 address adds its network (when it is a valid one) and the address;
/// an IPv6 address adds its network and the address.
pub open spec fn apply_address(a: NetworkAdapterView, x: AddressView) -> NetworkAdapterView {
    match x {
        AddressView::Mac(m) => NetworkAdapterView { mac: Some(m), ..a },
        AddressView::Ipv4 { address, subnet_mask } => NetworkAdapterView {
            ipv4_networks: match ipv4_network_of_mask(address@, subnet_mask@) {
                Ok(v) => a.ipv4_networks.push(v),
                Err(_) => a.ipv4_networks,
            },
            ip_addresses: a.ip_addresses.push(IpAddr::V4(address)),
            ..a
        },
        AddressView::Ipv6 { address, subnet_mask } => NetworkAdapterView {
            ipv6_networks: a.ipv6_networks.push(ipv6_network_of_mask(address@, subnet_mask@)),
            ip_addresses: a.ip_addresses.push(IpAddr::V6(address)),
            ..a
        },
    }
}

/// The position of the first adapter named `name`.
pub open spec fn adapter_index(adapters: Seq<NetworkAdapterView>, name: Seq<char>) -> Option<int>
    decreases adapters.len(),
{
    if adapters.len() == 0 {
        None
    } else if adapters[0].name == name {
        Some(0)
    } else {
        match adapter_index(adapters.drop_first(), name) {
            Some(i) => Some(i + 1),
            None => None,
        }
    }
}

/// Applies `f` to the adapter named `name`, adding a fresh one at the end
/// when there is none.
pub open spec fn upsert_adapter(
    adapters: Seq<NetworkAdapterView>,
    name: Seq<char>,
    f: spec_fn(NetworkAdapterView) -> NetworkAdapterView,
) -> Seq<NetworkAdapterView> {
    match adapter_index(adapters, name) {
        Some(i) => adapters.update(i, f(adapters[i])),
        None => adapters.push(f(adapter_new(name))),
    }
}

/// The adapters after the first `k` entries.
pub open spec fn adapters_of_entries(entries: Seq<(Seq<char>, Option<SockAddr>)>, k: int) -> Seq<
    NetworkAdapterView,
>
    decreases k,
{
    if k <= 0 {
        Seq::empty()
    } else {
        let before = adapters_of_entries(entries, k - 1);
        match read_result_of(entries[k - 1]) {
            Some(r) => upsert_adapter(before, r.0, |a: NetworkAdapterView| apply_address(a, r.1)),
            None => before,
        }
    }
}

/// The adapters after the entries and the first `k` routes: a route to
/// `0.0.0.0` sets the gateway of its interface.
pub open spec fn adapters_of(
    entries: Seq<(Seq<char>, Option<SockAddr>)>,
    routes: Seq<(Seq<char>, Ipv4Addr, Ipv4Addr)>,
    k: int,
) -> Seq<NetworkAdapterView>
    decreases k,
{
    if k <= 0 {
        adapters_of_entries(entries, entries.len() as int)
    } else {
        let before = adapters_of(entries, routes, k - 1);
        let r = routes[k - 1];
        if r.1@ == 0 {
            upsert_adapter(
                before,
                r.0,
                |a: NetworkAdapterView| NetworkAdapterView { gateway: Some(r.2), ..a },
            )
        } else {
            before
        }
    }
}

impl NetworkAdapter {
    /// A fresh adapter named `name`, its kind told by the name.
    pub fn new(name: String) -> (r: NetworkAdapter)
        ensures
            r@ == adapter_new(name@),
    {
        let net_type = NetType::from(name.as_str());
        let r = NetworkAdapter {
            net_type,
            ipv6_networks: Vec::new(),
            ipv4_networks: Vec::new(),
            gateway: None,
            name,
            mac: None,
            ip_addresses: Vec::new(),
        };
        proof {
            assert(r@.ipv4_networks == Seq::<(u32, u8)>::empty());
            assert(r@.ipv6_networks == Seq::<(Seq<u8>, u8)>::empty());
        }
        r
    }

    /// Gathers the adapters of the host from its `getifaddrs` entries and
    /// its routes, one adapter per interface name, in order of first
    /// appearance: entries that are not usable records are skipped, and
    /// every route to `0.0.0.0` sets the gateway of its interface.
    pub fn try_read_from_system(if_addrs: Vec<IfAddrsEntry>, routes: Vec<RouteEntry>) -> (r: Vec<
        NetworkAdapter,
    >)
        ensures
            r@.map_values(|a: NetworkAdapter| a@) == adapters_of(
                if_addrs@.map_values(|e: IfAddrsEntry| e@),
                routes@.map_values(|x: RouteEntry| x@),
                routes@.len() as int,
            ),
    {
        let ghost entries = if_addrs@.map_values(|e: IfAddrsEntry| e@);
        let ghost rts = routes@.map_values(|x: RouteEntry| x@);
        let mut adapters: Vec<NetworkAdapter> = Vec::new();
        let n = if_addrs.len();
        let mut i: usize = 0;
        let mut if_addrs = if_addrs;
        proof {
            assert(adapters@.map_values(|a: NetworkAdapter| a@) == Seq::<NetworkAdapterView>::empty());
        }
        while i < n
            invariant
                n == if_addrs@.len(),
                i <= n,
                entries == if_addrs@.map_values(|e: IfAddrsEntry| e@),
                adapters@.map_values(|a: NetworkAdapter| a@) == adapters_of_entries(
                    entries,
                    i as int,
                ),
            decreases n - i,
        {
            let entry = IfAddrsEntry { name: if_addrs[i].name.clone(), address: if_addrs[i].address };
            proof {
                assert(entry@ == entries[i as int]);
            }
            let ghost before = adapters@.map_values(|a: NetworkAdapter| a@);
            match IfAddrsReadResult::try_from(entry) {
                Ok(record) => {
                    let ghost rv = record@;
                    let idx = Self::entry_index(&mut adapters, &record.name);
                    let ghost mid = adapters@.map_values(|a: NetworkAdapter| a@);
                    Self::apply_record(&mut adapters, idx, record);
                    proof {
                        assert(read_result_of(entries[i as int]) == Some(rv));
                        let f = |a: NetworkAdapterView| apply_address(a, rv.1);
                        assert(adapters_of_entries(entries, i + 1) == upsert_adapter(
                            before,
                            rv.0,
                            f,
                        ));
                        match adapter_index(before, rv.0) {
                            Some(k) => {
                                assert(mid == before);
                                assert(mid[k] == adapters_of_entries(entries, i as int)[k]);
                            },
                            None => {
                                assert(mid == before.push(adapter_new(rv.0)));
                                assert(mid[before.len() as int] == adapter_new(rv.0));
                                assert(mid.update(before.len() as int, f(adapter_new(rv.0)))
                                    == before.push(f(adapter_new(rv.0))));
                            },
                        }
                    }
                },
                Err(_) => {
                    proof {
                        assert(read_result_of(entries[i as int]) is None);
                    }
                },
            }
            i = i + 1;
        }
        let m = routes.len();
        let mut j: usize = 0;
        while j < m
            invariant
                m == routes@.len(),
                j <= m,
                rts == routes@.map_values(|x: RouteEntry| x@),
                entries.len() == if_addrs@.len(),
                adapters@.map_values(|a: NetworkAdapter| a@) == adapters_of(
                    entries,
                    rts,
                    j as int,
                ),
            decreases m - j,
        {
            let route = &routes[j];
            proof {
                assert(route@ == rts[j as int]);
            }
            let ghost views0 = adapters@.map_values(|a: NetworkAdapter| a@);
            if route.destination.is_unspecified() {
                let idx = Self::entry_index(&mut adapters, &route.iface);
                let ghost before = adapters@;
                let ghost mid = adapters@.map_values(|a: NetworkAdapter| a@);
                let a = &mut adapters[idx];
                a.gateway = Some(route.gateway);
                proof {
                    let rv = rts[j as int];
                    let f = |a: NetworkAdapterView| NetworkAdapterView { gateway: Some(rv.2), ..a };
                    assert(adapters@ == before.update(idx as int, adapters@[idx as int]));
                    assert(adapters@.map_values(|a: NetworkAdapter| a@) == mid.update(
                        idx as int,
                        f(mid[idx as int]),
                    ));
                    assert(adapters_of(entries, rts, j + 1) == upsert_adapter(views0, rv.0, f));
                    match adapter_index(views0, rv.0) {
                        Some(k) => {
                            assert(mid == views0);
                        },
                        None => {
                            assert(mid == views0.push(adapter_new(rv.0)));
                            assert(mid.update(views0.len() as int, f(adapter_new(rv.0)))
                                == views0.push(f(adapter_new(rv.0))));
                        },
                    }
                }
            }
            j = j + 1;
        }
        adapters
    }

    /// The position of the adapter named `name`, a fresh one being added at
    /// the end when there is none.
    fn entry_index(adapters: &mut Vec<NetworkAdapter>, name: &String) -> (idx: usize)
        ensures
            idx < final(adapters)@.len(),
            match adapter_index(old(adapters)@.map_values(|a: NetworkAdapter| a@), name@) {
                Some(i) => idx == i && final(adapters)@ == old(adapters)@,
                None => idx == old(adapters)@.len() && final(adapters)@.map_values(
                    |a: NetworkAdapter| a@,
                ) == old(adapters)@.map_values(|a: NetworkAdapter| a@).push(adapter_new(name@)),
            },
    {
        let ghost views = adapters@.map_values(|a: NetworkAdapter| a@);
        let n = adapters.len();
        let mut i: usize = 0;
        proof {
            assert(views.skip(0) == views);
        }
        while i < n
            invariant
                n == adapters@.len(),
                i <= n,
                views == adapters@.map_values(|a: NetworkAdapter| a@),
                adapter_index(views, name@) == (match adapter_index(views.skip(i as int), name@) {
                    Some(k) => Some(k + i),
                    None => None::<int>,
                }),
            decreases n - i,
        {
            proof {
                assert(views.skip(i as int).drop_first() == views.skip(i + 1));
                assert(views.skip(i as int)[0] == views[i as int]);
            }
            if adapters[i].name == *name {
                return i;
            }
            i = i + 1;
        }
        proof {
            assert(views.skip(n as int).len() == 0);
        }
        adapters.push(NetworkAdapter::new(name.clone()));
        proof {
            assert(adapters@.map_values(|a: NetworkAdapter| a@) == views.push(adapter_new(name@)));
        }
        n
    }

    /// Adds what `record` tells to the adapter at `idx`.
    fn apply_record(adapters: &mut Vec<NetworkAdapter>, idx: usize, record: IfAddrsReadResult)
        requires
            idx < old(adapters)@.len(),
        ensures
            final(adapters)@.map_values(|a: NetworkAdapter| a@) == old(adapters)@.map_values(
                |a: NetworkAdapter| a@,
            ).update(idx as int, apply_address(old(adapters)@[idx as int]@, record.address@)),
    {
        let ghost before = adapters@;
        let a = &mut adapters[idx];
        match record.address {
            IfAddrsReadResultAddress::Mac(mac) => {
                a.mac = Some(mac);
            },
            IfAddrsReadResultAddress::Ipv4 { address, subnet_mask } => {
                let ghost nets = a.ipv4_networks@;
                match Ipv4Network::new_from_address_and_subnet_mask(address, subnet_mask) {
                    Ok(network) => {
                        a.ipv4_networks.push(network);
                        proof {
                            assert(a.ipv4_networks@.map_values(|n: Ipv4Network| n@) == nets.map_values(
                                |n: Ipv4Network| n@,
                            ).push(network@));
                        }
                    },
                    Err(_) => {},
                }
                a.ip_addresses.push(IpAddr::V4(address));
            },
            IfAddrsReadResultAddress::Ipv6 { address, subnet_mask } => {
                let ghost nets = a.ipv6_networks@;
                let network = Ipv6Network::new_from_address_and_subnet_mask(address, subnet_mask);
                a.ipv6_networks.push(network);
                proof {
                    assert(a.ipv6_networks@.map_values(|n: Ipv6Network| n@) == nets.map_values(
                        |n: Ipv6Network| n@,
                    ).push(network@));
                }
                a.ip_addresses.push(IpAddr::V6(address));
            },
        }
        proof {
            assert(adapters@ == before.update(idx as int, adapters@[idx as int]));
            assert(adapters@.map_values(|a: NetworkAdapter| a@) == before.map_values(
                |a: NetworkAdapter| a@,
            ).update(idx as int, adapters@[idx as int]@));
        }
    }
}

/// No two adapters have the same name.
pub open spec fn names_distinct(adapters: Seq<NetworkAdapterView>) -> bool {
    forall|i: int, j: int|
        0 <= i < adapters.len() && 0 <= j < adapters.len() && i != j ==> #[trigger] adapters[i].name
            != #[trigger] adapters[j].name
}

proof fn lemma_adapter_index(adapters: Seq<NetworkAdapterView>, name: Seq<char>)
    ensures
        match adapter_index(adapters, name) {
            Some(i) => 0 <= i < adapters.len() && adapters[i].name == name,
            None => forall|j: int| 0 <= j < adapters.len() ==> #[trigger] adapters[j].name != name,
        },
    decreases adapters.len(),
{
    if adapters.len() > 0 && adapters[0].name != name {
        lemma_adapter_index(adapters.drop_first(), name);
        assert forall|j: int| 0 < j < adapters.len() implies adapters[j] == adapters.drop_first()[j
            - 1] by {}
    }
}

proof fn lemma_upsert_keeps_names(
    adapters: Seq<NetworkAdapterView>,
    name: Seq<char>,
    f: spec_fn(NetworkAdapterView) -> NetworkAdapterView,
)
    requires
        names_distinct(adapters),
        forall|a: NetworkAdapterView| #[trigger] f(a).name == a.name,
    ensures
        names_distinct(upsert_adapter(adapters, name, f)),
        exists|i: int|
            0 <= i < upsert_adapter(adapters, name, f).len() && #[trigger] upsert_adapter(
                adapters,
                name,
                f,
            )[i].name == name,
        upsert_adapter(adapters, name, f).len() >= adapters.len(),
        forall|i: int|
            0 <= i < adapters.len() ==> #[trigger] upsert_adapter(adapters, name, f)[i].name
                == adapters[i].name,
{
    lemma_adapter_index(adapters, name);
    let r = upsert_adapter(adapters, name, f);
    match adapter_index(adapters, name) {
        Some(k) => {
            assert(r[k].name == name);
        },
        None => {
            assert(f(adapter_new(name)).name == name);
            assert(r[adapters.len() as int].name == name);
        },
    }
}

proof fn lemma_entries_cover(entries: Seq<(Seq<char>, Option<SockAddr>)>, k: int)
    requires
        0 <= k <= entries.len(),
    ensures
        names_distinct(adapters_of_entries(entries, k)),
        forall|e: int|
            0 <= e < k && #[trigger] read_result_of(entries[e]) is Some ==> exists|i: int|
                0 <= i < adapters_of_entries(entries, k).len() && adapters_of_entries(
                    entries,
                    k,
                )[i].name == entries[e].0,
    decreases k,
{
    if k > 0 {
        lemma_entries_cover(entries, k - 1);
        let before = adapters_of_entries(entries, k - 1);
        let now = adapters_of_entries(entries, k);
        match read_result_of(entries[k - 1]) {
            Some(r) => {
                let f = |a: NetworkAdapterView| apply_address(a, r.1);
                assert forall|a: NetworkAdapterView| #[trigger] f(a).name == a.name by {}
                lemma_upsert_keeps_names(before, r.0, f);
                assert(now == upsert_adapter(before, r.0, f));
                assert forall|e: int|
                    0 <= e < k && #[trigger] read_result_of(entries[e]) is Some implies exists|i: int|
                    0 <= i < now.len() && now[i].name == entries[e].0 by {
                    if e < k - 1 {
                        let i = choose|i: int| 0 <= i < before.len() && before[i].name == entries[e].0;
                        assert(now[i].name == before[i].name);
                        assert(0 <= i < now.len() && now[i].name == entries[e].0);
                    } else {
                        let i = choose|i: int| 0 <= i < now.len() && #[trigger] now[i].name == r.0;
                        assert(r.0 == entries[e].0);
                        assert(0 <= i < now.len() && now[i].name == entries[e].0);
                    }
                }
            },
            None => {
                assert(now == before);
                assert forall|e: int|
                    0 <= e < k && #[trigger] read_result_of(entries[e]) is Some implies exists|i: int|
                    0 <= i < now.len() && now[i].name == entries[e].0 by {
                    if e == k - 1 {
                        assert(false);
                    }
                }
            },
        }
    }
}

/// The adapters have one entry per interface name (as a map by name
/// would), and every interface that has a usable record or a default route
/// has an adapter.
#[verifier::spinoff_prover]
pub proof fn law_adapters_by_name(
    entries: Seq<(Seq<char>, Option<SockAddr>)>,
    routes: Seq<(Seq<char>, Ipv4Addr, Ipv4Addr)>,
    k: int,
)
    requires
        0 <= k <= routes.len(),
    ensures
        names_distinct(adapters_of(entries, routes, k)),
        forall|e: int|
            0 <= e < entries.len() && #[trigger] read_result_of(entries[e]) is Some ==> exists|i: int|
                0 <= i < adapters_of(entries, routes, k).len() && adapters_of(entries, routes, k)[i].name
                    == entries[e].0,
        forall|j: int|
            0 <= j < k && #[trigger] routes[j].1@ == 0 ==> exists|i: int|
                0 <= i < adapters_of(entries, routes, k).len() && adapters_of(entries, routes, k)[i].name
                    == routes[j].0,
    decreases k,
{
    if k == 0 {
        lemma_entries_cover(entries, entries.len() as int);
    } else {
        law_adapters_by_name(entries, routes, k - 1);
        let before = adapters_of(entries, routes, k - 1);
        let now = adapters_of(entries, routes, k);
        let r = routes[k - 1];
        if r.1@ == 0 {
            let f = |a: NetworkAdapterView| NetworkAdapterView { gateway: Some(r.2), ..a };
            assert forall|a: NetworkAdapterView| #[trigger] f(a).name == a.name by {}
            lemma_upsert_keeps_names(before, r.0, f);
            assert(now == upsert_adapter(before, r.0, f));
        } else {
            assert(now == before);
        }
        assert(now.len() >= before.len());
        assert forall|i: int| 0 <= i < before.len() implies #[trigger] now[i].name
            == before[i].name by {}
        assert forall|e: int|
            0 <= e < entries.len() && #[trigger] read_result_of(entries[e]) is Some implies exists|
            i: int|
            0 <= i < now.len() && now[i].name == entries[e].0 by {
            let i = choose|i: int| 0 <= i < before.len() && before[i].name == entries[e].0;
            assert(now[i].name == before[i].name);
            assert(0 <= i < now.len() && now[i].name == entries[e].0);
        }
        assert forall|j: int| 0 <= j < k && #[trigger] routes[j].1@ == 0 implies exists|i: int|
            0 <= i < now.len() && now[i].name == routes[j].0 by {
            if j < k - 1 {
                let i = choose|i: int| 0 <= i < before.len() && before[i].name == routes[j].0;
                assert(now[i].name == before[i].name);
                assert(0 <= i < now.len() && now[i].name == routes[j].0);
            } else {
                let i = choose|i: int| 0 <= i < now.len() && #[trigger] now[i].name == r.0;
                assert(0 <= i < now.len() && now[i].name == routes[j].0);
            }
        }
    }
}

/// The address that entry `e` gives the interface `name`: the IPv4 or
/// IPv6 address of an address entry of that interface, else nothing.
pub open spec fn record_ip(e: (Seq<char>, Option<SockAddr>), name: Seq<char>) -> Seq<IpAddr> {
    if e.0 == name {
        match e.1 {
            Some(SockAddr::Inet { address, .. }) => seq![IpAddr::V4(address)],
            Some(SockAddr::Inet6 { address, .. }) => seq![IpAddr::V6(address)],
            _ => Seq::empty(),
        }
    } else {
        Seq::empty()
    }
}

/// The IPv4 and IPv6 addresses of the entries of interface `name`, in
/// the order of the entries.
pub open spec fn record_ips(entries: Seq<(Seq<char>, Option<SockAddr>)>, name: Seq<char>) -> Seq<
    IpAddr,
>
    decreases entries.len(),
{
    if entries.len() == 0 {
        Seq::empty()
    } else {
        record_ips(entries.drop_last(), name) + record_ip(entries.last(), name)
    }
}

/// Each adapter holds the addresses of its interface's entries, and an
/// interface without adapter has no address entry.
spec fn ips_match(adapters: Seq<NetworkAdapterView>, entries: Seq<(Seq<char>, Option<SockAddr>)>) -> bool {
    &&& forall|j: int|
        0 <= j < adapters.len() ==> (#[trigger] adapters[j]).ip_addresses == record_ips(
            entries,
            adapters[j].name,
        )
    &&& forall|n: Seq<char>|
        (forall|j: int| 0 <= j < adapters.len() ==> adapters[j].name != n) ==> #[trigger] record_ips(
            entries,
            n,
        ) == Seq::<IpAddr>::empty()
}

/// What [`upsert_adapter`] does to the addresses when `f` appends `extra`.
proof fn lemma_upsert_ips(
    adapters: Seq<NetworkAdapterView>,
    name: Seq<char>,
    f: spec_fn(NetworkAdapterView) -> NetworkAdapterView,
    extra: Seq<IpAddr>,
)
    requires
        names_distinct(adapters),
        forall|a: NetworkAdapterView| #[trigger] f(a).name == a.name,
        forall|a: NetworkAdapterView| #[trigger] f(a).ip_addresses == a.ip_addresses + extra,
    ensures
        upsert_adapter(adapters, name, f).len() >= adapters.len(),
        forall|j: int|
            0 <= j < adapters.len() ==> (#[trigger] upsert_adapter(adapters, name, f)[j]).name
                == adapters[j].name && upsert_adapter(adapters, name, f)[j].ip_addresses == if adapters[j].name
                == name {
                adapters[j].ip_addresses + extra
            } else {
                adapters[j].ip_addresses
            },
        forall|j: int|
            adapters.len() <= j < upsert_adapter(adapters, name, f).len() ==> (#[trigger] upsert_adapter(
                adapters,
                name,
                f,
            )[j]).name == name && upsert_adapter(adapters, name, f)[j].ip_addresses == extra && forall|
                i: int,
            |
                0 <= i < adapters.len() ==> adapters[i].name != name,
{
    lemma_adapter_index(adapters, name);
    let r = upsert_adapter(adapters, name, f);
    match adapter_index(adapters, name) {
        Some(k) => {
            assert forall|j: int| 0 <= j < adapters.len() && j != k implies adapters[j].name != name by {
                assert(adapters[j].name != adapters[k].name);
            }
        },
        None => {
            assert(adapter_new(name).ip_addresses + extra =~= extra);
        },
    }
}

/// Starting from `adapters` with `ips_match` for `entries`, the step for
/// one more entry `e` keeps it.
proof fn lemma_ips_step(
    adapters: Seq<NetworkAdapterView>,
    entries: Seq<(Seq<char>, Option<SockAddr>)>,
    e: (Seq<char>, Option<SockAddr>),
)
    requires
        names_distinct(adapters),
        ips_match(adapters, entries),
    ensures
        ips_match(
            match read_result_of(e) {
                Some(r) => upsert_adapter(adapters, r.0, |a: NetworkAdapterView| apply_address(a, r.1)),
                None => adapters,
            },
            entries.push(e),
        ),
{
    let p2 = entries.push(e);
    assert(p2.drop_last() == entries);
    assert(p2.last() == e);
    assert forall|n: Seq<char>| #[trigger] record_ips(p2, n) == record_ips(entries, n) + record_ip(e, n) by {}
    match read_result_of(e) {
        Some(r) => {
            let f = |a: NetworkAdapterView| apply_address(a, r.1);
            let extra = record_ip(e, e.0);
            assert forall|a: NetworkAdapterView| #[trigger] f(a).name == a.name by {}
            assert forall|a: NetworkAdapterView| #[trigger] f(a).ip_addresses == a.ip_addresses + extra by {
                match e.1 {
                    Some(SockAddr::Inet { address, .. }) => {
                        assert(a.ip_addresses.push(IpAddr::V4(address)) =~= a.ip_addresses + seq![
                            IpAddr::V4(address),
                        ]);
                    },
                    Some(SockAddr::Inet6 { address, .. }) => {
                        assert(a.ip_addresses.push(IpAddr::V6(address)) =~= a.ip_addresses + seq![
                            IpAddr::V6(address),
                        ]);
                    },
                    _ => {
                        assert(a.ip_addresses + extra =~= a.ip_addresses);
                    },
                }
            }
            lemma_upsert_ips(adapters, r.0, f, extra);
            lemma_upsert_keeps_names(adapters, r.0, f);
            let now = upsert_adapter(adapters, r.0, f);
            assert forall|j: int| 0 <= j < now.len() implies (#[trigger] now[j]).ip_addresses == record_ips(
                p2,
                now[j].name,
            ) by {
                if j < adapters.len() {
                    if adapters[j].name != e.0 {
                        assert(record_ip(e, adapters[j].name) =~= Seq::<IpAddr>::empty());
                        assert(record_ips(entries, adapters[j].name) + Seq::<IpAddr>::empty() =~= record_ips(
                            entries,
                            adapters[j].name,
                        ));
                    }
                } else {
                    assert(record_ips(entries, e.0) == Seq::<IpAddr>::empty());
                    assert(Seq::<IpAddr>::empty() + extra =~= extra);
                }
            }
            assert forall|n: Seq<char>|
                (forall|j: int| 0 <= j < now.len() ==> now[j].name != n) implies #[trigger] record_ips(
                p2,
                n,
            ) == Seq::<IpAddr>::empty() by {
                assert forall|j: int| 0 <= j < adapters.len() implies adapters[j].name != n by {
                    assert(now[j].name == adapters[j].name);
                }
                let i = choose|i: int| 0 <= i < now.len() && #[trigger] now[i].name == r.0;
                assert(n != e.0);
                assert(record_ip(e, n) =~= Seq::<IpAddr>::empty());
                assert(record_ips(entries, n) == Seq::<IpAddr>::empty());
                assert(Seq::<IpAddr>::empty() + Seq::<IpAddr>::empty() =~= Seq::<IpAddr>::empty());
            }
        },
        None => {
            assert forall|n: Seq<char>| #[trigger] record_ip(e, n) == Seq::<IpAddr>::empty() by {
                assert(record_ip(e, n) =~= Seq::<IpAddr>::empty());
            }
            assert forall|n: Seq<char>| #[trigger] record_ips(p2, n) == record_ips(entries, n) by {
                assert(record_ips(entries, n) + record_ip(e, n) =~= record_ips(entries, n));
            }
        },
    }
}

/// `ips_match` holds after the first `k` entries.
proof fn lemma_ips_entries(entries: Seq<(Seq<char>, Option<SockAddr>)>, k: int)
    requires
        0 <= k <= entries.len(),
    ensures
        ips_match(adapters_of_entries(entries, k), entries.take(k)),
    decreases k,
{
    if k == 0 {
        assert forall|n: Seq<char>| #[trigger] record_ips(entries.take(0), n) == Seq::<IpAddr>::empty() by {}
    } else {
        lemma_ips_entries(entries, k - 1);
        lemma_entries_cover(entries, k - 1);
        assert(entries.take(k - 1).push(entries[k - 1]) == entries.take(k));
        lemma_ips_step(adapters_of_entries(entries, k - 1), entries.take(k - 1), entries[k - 1]);
    }
}

/// `ips_match` holds after all entries and the first `k` routes.
proof fn lemma_ips_routes(
    entries: Seq<(Seq<char>, Option<SockAddr>)>,
    routes: Seq<(Seq<char>, Ipv4Addr, Ipv4Addr)>,
    k: int,
)
    requires
        0 <= k <= routes.len(),
    ensures
        ips_match(adapters_of(entries, routes, k), entries),
    decreases k,
{
    if k == 0 {
        lemma_ips_entries(entries, entries.len() as int);
        assert(entries.take(entries.len() as int) == entries);
    } else {
        lemma_ips_routes(entries, routes, k - 1);
        law_adapters_by_name(entries, routes, k - 1);
        let before = adapters_of(entries, routes, k - 1);
        let r = routes[k - 1];
        if r.1@ == 0 {
            let f = |a: NetworkAdapterView| NetworkAdapterView { gateway: Some(r.2), ..a };
            let extra = Seq::<IpAddr>::empty();
            assert forall|a: NetworkAdapterView| #[trigger] f(a).name == a.name by {}
            assert forall|a: NetworkAdapterView| #[trigger] f(a).ip_addresses == a.ip_addresses + extra by {
                assert(a.ip_addresses + extra =~= a.ip_addresses);
            }
            lemma_upsert_ips(before, r.0, f, extra);
            let now = upsert_adapter(before, r.0, f);
            assert(now == adapters_of(entries, routes, k));
            assert forall|j: int| 0 <= j < now.len() implies (#[trigger] now[j]).ip_addresses == record_ips(
                entries,
                now[j].name,
            ) by {
                if j < before.len() {
                    assert(before[j].ip_addresses + extra =~= before[j].ip_addresses);
                } else {
                    assert(record_ips(entries, r.0) == Seq::<IpAddr>::empty());
                }
            }
            assert forall|n: Seq<char>|
                (forall|j: int| 0 <= j < now.len() ==> now[j].name != n) implies #[trigger] record_ips(
                entries,
                n,
            ) == Seq::<IpAddr>::empty() by {
                assert forall|j: int| 0 <= j < before.len() implies before[j].name != n by {
                    assert(now[j].name == before[j].name);
                }
            }
        }
    }
}

/// The address `a` of entry `e` is among the addresses of its interface.
proof fn lemma_record_ips_contains(entries: Seq<(Seq<char>, Option<SockAddr>)>, e: int)
    requires
        0 <= e < entries.len(),
    ensures
        entries[e].1 matches Some(SockAddr::Inet { address, .. }) ==> record_ips(
            entries,
            entries[e].0,
        ).contains(IpAddr::V4(address)),
        entries[e].1 matches Some(SockAddr::Inet6 { address, .. }) ==> record_ips(
            entries,
            entries[e].0,
        ).contains(IpAddr::V6(address)),
    decreases entries.len(),
{
    let name = entries[e].0;
    let front = entries.drop_last();
    let tail = record_ip(entries.last(), name);
    let whole = record_ips(entries, name);
    assert(whole == record_ips(front, name) + tail);
    if e < entries.len() - 1 {
        lemma_record_ips_contains(front, e);
        assert(front[e] == entries[e]);
        let prev = record_ips(front, name);
        if prev.len() > 0 {
            assert forall|x: IpAddr| prev.contains(x) implies whole.contains(x) by {
                let i = choose|i: int| 0 <= i < prev.len() && prev[i] == x;
                assert(whole[i] == x);
            }
        }
    } else {
        assert(entries.last() == entries[e]);
        let n = record_ips(front, name).len();
        match entries[e].1 {
            Some(SockAddr::Inet { address, .. }) => {
                assert(whole[n as int] == IpAddr::V4(address));
            },
            Some(SockAddr::Inet6 { address, .. }) => {
                assert(whole[n as int] == IpAddr::V6(address));
            },
            _ => {},
        }
    }
}

/// The adapters hold exactly the host's addresses: each adapter's
/// addresses are the IPv4 and IPv6 addresses of its interface's entries,
/// in the order of the entries (routes add none), so every address entry's
/// address is among the addresses of the adapter of its interface.
pub proof fn law_adapter_addresses(
    entries: Seq<(Seq<char>, Option<SockAddr>)>,
    routes: Seq<(Seq<char>, Ipv4Addr, Ipv4Addr)>,
)
    ensures
        forall|j: int|
            0 <= j < adapters_of(entries, routes, routes.len() as int).len() ==> (#[trigger] adapters_of(
                entries,
                routes,
                routes.len() as int,
            )[j]).ip_addresses == record_ips(
                entries,
                adapters_of(entries, routes, routes.len() as int)[j].name,
            ),
        forall|e: int|
            0 <= e < entries.len() ==> ((#[trigger] entries[e]).1 matches Some(
                SockAddr::Inet { address, .. },
            ) ==> exists|j: int|
                0 <= j < adapters_of(entries, routes, routes.len() as int).len() && adapters_of(
                    entries,
                    routes,
                    routes.len() as int,
                )[j].name == entries[e].0 && adapters_of(entries, routes, routes.len() as int)[j].ip_addresses.contains(
                    IpAddr::V4(address),
                )),
        forall|e: int|
            0 <= e < entries.len() ==> ((#[trigger] entries[e]).1 matches Some(
                SockAddr::Inet6 { address, .. },
            ) ==> exists|j: int|
                0 <= j < adapters_of(entries, routes, routes.len() as int).len() && adapters_of(
                    entries,
                    routes,
                    routes.len() as int,
                )[j].name == entries[e].0 && adapters_of(entries, routes, routes.len() as int)[j].ip_addresses.contains(
                    IpAddr::V6(address),
                )),
{
    let k = routes.len() as int;
    lemma_ips_routes(entries, routes, k);
    law_adapters_by_name(entries, routes, k);
    let ads = adapters_of(entries, routes, k);
    assert forall|e: int| 0 <= e < entries.len() implies ((#[trigger] entries[e]).1 matches Some(
        SockAddr::Inet { address, .. },
    ) ==> exists|j: int|
        0 <= j < ads.len() && ads[j].name == entries[e].0 && ads[j].ip_addresses.contains(
            IpAddr::V4(address),
        )) && (entries[e].1 matches Some(SockAddr::Inet6 { address, .. }) ==> exists|j: int|
        0 <= j < ads.len() && ads[j].name == entries[e].0 && ads[j].ip_addresses.contains(
            IpAddr::V6(address),
        )) by {
        lemma_record_ips_contains(entries, e);
        match entries[e].1 {
            Some(SockAddr::Inet { address, .. }) => {
                assert(read_result_of(entries[e]) is Some);
                let j = choose|j: int| 0 <= j < ads.len() && ads[j].name == entries[e].0;
                assert(ads[j].ip_addresses == record_ips(entries, ads[j].name));
            },
            Some(SockAddr::Inet6 { address, .. }) => {
                assert(read_result_of(entries[e]) is Some);
                let j = choose|j: int| 0 <= j < ads.len() && ads[j].name == entries[e].0;
                assert(ads[j].ip_addresses == record_ips(entries, ads[j].name));
            },
            _ => {},
        }
    }
}

/// `c` does not occur in `s`.
pub open spec fn lacks_char(s: Seq<char>, c: char) -> bool {
    forall|i: int| 0 <= i < s.len() ==> #[trigger] s[i] != c
}

proof fn lemma_lacks_concat(a: Seq<char>, b: Seq<char>, c: char)
    requires
        lacks_char(a, c),
        lacks_char(b, c),
    ensures
        lacks_char(a + b, c),
{
    assert forall|i: int| 0 <= i < (a + b).len() implies #[trigger] (a + b)[i] != c by {
        if i < a.len() {
            assert((a + b)[i] == a[i]);
        } else {
            assert((a + b)[i] == b[i - a.len()]);
        }
    }
}

proof fn lemma_decimal_lacks_slash(n: nat)
    ensures
        lacks_char(decimal(n), '/'),
{
    lemma_decimal(n);
    assert forall|i: int| 0 <= i < decimal(n).len() implies #[trigger] decimal(n)[i] != '/' by {
        assert(is_digit(decimal(n)[i]));
    }
}

proof fn lemma_ipv4_text_lacks_slash(bits: u32)
    ensures
        lacks_char(ipv4_text(bits), '/'),
{
    let o = ipv4_octets(bits);
    let dot = seq!['.'];
    assert(lacks_char(dot, '/'));
    lemma_decimal_lacks_slash(o[0] as nat);
    lemma_decimal_lacks_slash(o[1] as nat);
    lemma_decimal_lacks_slash(o[2] as nat);
    lemma_decimal_lacks_slash(o[3] as nat);
    let t1 = decimal(o[0] as nat) + dot;
    lemma_lacks_concat(decimal(o[0] as nat), dot, '/');
    lemma_lacks_concat(t1, decimal(o[1] as nat), '/');
    let t2 = t1 + decimal(o[1] as nat);
    lemma_lacks_concat(t2, dot, '/');
    let t3 = t2 + dot;
    lemma_lacks_concat(t3, decimal(o[2] as nat), '/');
    let t4 = t3 + decimal(o[2] as nat);
    lemma_lacks_concat(t4, dot, '/');
    let t5 = t4 + dot;
    lemma_lacks_concat(t5, decimal(o[3] as nat), '/');
}

proof fn lemma_find_char_after(p: Seq<char>, q: Seq<char>, c: char)
    requires
        lacks_char(p, c),
        q.len() > 0,
        q[0] == c,
    ensures
        find_char(p + q, c) == Some(p.len() as int),
    decreases p.len(),
{
    if p.len() == 0 {
        assert(p + q == q);
    } else {
        let rest = p.drop_first();
        assert forall|i: int| 0 <= i < rest.len() implies #[trigger] rest[i] != c by {
            assert(rest[i] == p[i + 1]);
        }
        lemma_find_char_after(rest, q, c);
        assert((p + q).drop_first() == rest + q);
        assert((p + q)[0] == p[0]);
        assert(p[0] != c);
    }
}

/// Reading back the text of a valid network gives the network:
/// [`Ipv4Network::from_str`] splits the text at its `/` into the address
/// and the prefix length, both of which read back, and the pair passes
/// the checks of [`Ipv4Network::try_new`].
pub proof fn law_ipv4_network_text_round_trip(v: (u32, u8))
    requires
        ipv4_network_check(v.0, v.1) is Ok,
    ensures
        split_once_text(ipv4_network_text(v), '/') == Some((ipv4_text(v.0), decimal(v.1 as nat))),
        parse_ipv4_text(ipv4_text(v.0)) == Some(v.0),
        parse_u8_text(decimal(v.1 as nat)) == Some(v.1),
        ipv4_network_check(v.0, v.1) == Ok::<(u32, u8), Seq<char>>(v),
{
    reveal_strlit("/");
    let a = ipv4_text(v.0);
    let d = decimal(v.1 as nat);
    let q = seq!['/'] + d;
    lemma_ipv4_text_lacks_slash(v.0);
    lemma_find_char_after(a, q, '/');
    assert(ipv4_network_text(v) == a + q);
    assert((a + q).take(a.len() as int) == a);
    assert((a + q).skip(a.len() as int + 1) == d);
    law_ipv4_text_round_trip(v.0);
    law_u8_text_round_trip(v.1);
}

/// The subnet mask of a `k`-bit prefix: `k` one bits, then zeros.
pub open spec fn subnet_mask_of(k: u8) -> u32 {
    !host_mask(k)
}

proof fn lemma_count_ones_half(x: nat)
    requires
        x % 2 == 0,
    ensures
        count_ones(x / 2) == count_ones(x),
{
}

#[verifier::spinoff_prover]
proof fn lemma_count_ones_top(y: nat, m: nat)
    requires
        y < pow2(m),
    ensures
        count_ones(y + pow2(m)) == count_ones(y) + 1,
    decreases m,
{
    if m == 0 {
        assert(y == 0);
        assert(count_ones(0) == 0);
        assert(count_ones(1) == 1 + count_ones(0));
    } else {
        let h = pow2((m - 1) as nat);
        assert(pow2(m) == 2 * h);
        assert((y + pow2(m)) % 2 == y % 2);
        assert((y + pow2(m)) / 2 == y / 2 + h);
        lemma_count_ones_top(y / 2, (m - 1) as nat);
        if y == 0 {
            assert(count_ones(0) == 0);
        }
    }
}

proof fn lemma_subnet_mask_ones(k: u8)
    requires
        k <= 32,
    ensures
        count_ones(subnet_mask_of(k) as nat) == k,
    decreases k,
{
    if k == 0 {
        assert(!(0xffffffffu32 >> 0u8) == 0u32) by (bit_vector);
        assert(count_ones(0) == 0);
    } else {
        let j = (k - 1) as u8;
        lemma_subnet_mask_ones(j);
        let x = subnet_mask_of(j);
        let y = subnet_mask_of(k);
        if k == 32 {
            assert(!(0xffffffffu32 >> 31u8) == 0xfffffffeu32) by (bit_vector);
            assert(!0u32 == 0xffffffffu32) by (bit_vector);
            assert(x == 0xfffffffeu32);
            assert(y == 0xffffffffu32);
        } else {
            assert(!(0xffffffffu32 >> k) == (!(0xffffffffu32 >> j)) / 2 + 0x80000000u32) by (bit_vector)
                requires
                    1 <= k < 32,
                    j == k - 1,
            ;
            assert((!(0xffffffffu32 >> j)) % 2 == 0) by (bit_vector)
                requires
                    j < 31,
            ;
        }
        assert(y as nat == (x as nat) / 2 + 0x80000000);
        assert(x as nat % 2 == 0);
        reveal_with_fuel(pow2, 32);
        assert(pow2(31) == 0x80000000);
        lemma_count_ones_half(x as nat);
        lemma_count_ones_top((x as nat) / 2, 31);
    }
}

/// An interface whose netmask is the mask of a `k`-bit prefix always has a
/// network: its address with the host part cleared, with prefix length `k`.
pub proof fn law_prefix_mask_network(address: u32, k: u8)
    requires
        k <= 32,
    ensures
        ipv4_network_of_mask(address, subnet_mask_of(k)) == Ok::<(u32, u8), Seq<char>>(
            (address & subnet_mask_of(k), k),
        ),
{
    lemma_subnet_mask_ones(k);
    let m = subnet_mask_of(k);
    let h = host_mask(k);
    assert(m == !h);
    assert((address & !h) & h == 0) by (bit_vector);
}

} // verus!
