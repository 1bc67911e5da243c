//! The `flecs` bridge network and the host ports for the proxy: which HTTP
//! and HTTPS ports are free, which subnet the network gets and what its
//! gateway is. `network_setup_step` is a state machine; the driver performs each
//! action (reading `/proc`, asking Docker) and hands back the outcome.

pub mod ifaddr;

use crate::docker::network::ifaddr::{NetworkAdapter, NetworkAdapterView, ReadNetworkAdaptersError};
use crate::net::{ipv4_bits, ipv4_text, parse_ipv4_text, AddrParseError, IpAddr, Ipv4Addr};
use crate::text::{decimal, push_char, push_decimal, to_owned_string};
use vstd::prelude::*;

verus! {

broadcast use {Ipv4Addr::lemma_from_bits_spec, Ipv4Addr::lemma_view_injective};

/// The name of the bridge network that flecs creates or reuses.
pub const FLECS_NETWORK_NAME: &'static str = "flecs";

/// HTTP ports for the proxy, in order of preference.
pub const HTTP_PORTS: [u16; 3] = [80, 8080, 8000];

/// HTTPS ports for the proxy, in order of preference.
pub const HTTPS_PORTS: [u16; 3] = [443, 8443, 4443];

/// [`HTTP_PORTS`] as a sequence.
pub open spec fn http_ports() -> Seq<u16> {
    seq![80u16, 8080u16, 8000u16]
}

/// [`HTTPS_PORTS`] as a sequence.
pub open spec fn https_ports() -> Seq<u16> {
    seq![443u16, 8443u16, 4443u16]
}

/// Why setting up the network failed.
#[derive(Debug, Clone, PartialEq, Eq)]
pub enum NetworkSetupError {
    /// An error of the Docker API, by its message.
    Bollard(String),
    Logic { message: String },
    InvalidIpv4(AddrParseError),
    ReadNetworkAdapters(ReadNetworkAdaptersError),
    PortBusy(&'static str),
    /// An error of reading `/proc`, by its message.
    Procfs(String),
}

/// The state of a TCP socket, as `/proc/net/tcp` reports it.
#[derive(Debug, Clone, Copy, PartialEq, Eq, Structural)]
pub enum TcpState {
    Established,
    SynSent,
    SynRecv,
    FinWait1,
    FinWait2,
    TimeWait,
    Close,
    CloseWait,
    LastAck,
    Listen,
    Closing,
    NewSynRecv,
}

/// A TCP socket of `/proc/net/tcp` or `/proc/net/tcp6`: its state and the
/// port of its local address.
#[derive(Debug, Clone, Copy, PartialEq, Eq, Structural)]
pub struct TcpNetEntry {
    pub state: TcpState,
    pub local_port: u16,
}

/// The socket listens on port `p`.
pub open spec fn listens_at(e: TcpNetEntry, p: u16) -> bool {
    e.state == TcpState::Listen && e.local_port == p
}

/// Some socket listens on port `p`.
pub open spec fn is_listening_port(entries: Seq<TcpNetEntry>, p: u16) -> bool {
    exists|i: int| 0 <= i < entries.len() && #[trigger] listens_at(entries[i], p)
}

/// A port is busy exactly when a socket in state `Listen` has it as its
/// local port; sockets in any other state (such as `TimeWait` after a
/// server stopped) make no port busy.
pub proof fn law_busy_means_listening(entries: Seq<TcpNetEntry>, p: u16)
    ensures
        is_listening_port(entries, p) <==> exists|i: int|
            0 <= i < entries.len() && #[trigger] entries[i].state == TcpState::Listen
                && entries[i].local_port == p,
{
    if is_listening_port(entries, p) {
        let i = choose|i: int| 0 <= i < entries.len() && #[trigger] listens_at(entries[i], p);
        assert(entries[i].state == TcpState::Listen && entries[i].local_port == p);
    }
    if exists|i: int|
        0 <= i < entries.len() && #[trigger] entries[i].state == TcpState::Listen
            && entries[i].local_port == p {
        let i = choose|i: int|
            0 <= i < entries.len() && #[trigger] entries[i].state == TcpState::Listen
                && entries[i].local_port == p;
        assert(listens_at(entries[i], p));
    }
}

/// The ports on which some socket listens, each once.
pub fn get_busy_ports(entries: &Vec<TcpNetEntry>) -> (ports: Vec<u16>)
    ensures
        ports@.no_duplicates(),
        forall|p: u16| #[trigger] ports@.contains(p) <==> is_listening_port(entries@, p),
        forall|p: u16|
            #[trigger] ports@.contains(p) <==> exists|i: int|
                0 <= i < entries@.len() && #[trigger] entries@[i].state == TcpState::Listen
                    && entries@[i].local_port == p,
{
    let mut ports: Vec<u16> = Vec::new();
    let n = entries.len();
    let mut i: usize = 0;
    while i < n
        invariant
            n == entries@.len(),
            i <= n,
            ports@.no_duplicates(),
            forall|p: u16| #[trigger]
                ports@.contains(p) <==> is_listening_port(entries@.take(i as int), p),
        decreases n - i,
    {
        let e = entries[i];
        proof {
            assert forall|p: u16|
                is_listening_port(entries@.take(i + 1), p) <==> (is_listening_port(
                    entries@.take(i as int),
                    p,
                ) || listens_at(e, p)) by {
                if is_listening_port(entries@.take(i + 1), p) {
                    let k = choose|k: int|
                        0 <= k < i + 1 && #[trigger] listens_at(entries@.take(i + 1)[k], p);
                    if k < i {
                        assert(entries@.take(i as int)[k] == entries@.take(i + 1)[k]);
                    }
                }
                if is_listening_port(entries@.take(i as int), p) {
                    let k = choose|k: int|
                        0 <= k < i && #[trigger] listens_at(entries@.take(i as int)[k], p);
                    assert(entries@.take(i + 1)[k] == entries@.take(i as int)[k]);
                }
                if listens_at(e, p) {
                    assert(entries@.take(i + 1)[i as int] == e);
                }
            }
        }
        if !(e.state == TcpState::Listen) || contains_port(&ports, e.local_port) {
            proof {
                assert forall|p: u16| #[trigger] ports@.contains(p) <==> is_listening_port(
                    entries@.take(i + 1),
                    p,
                ) by {
                    if listens_at(e, p) {
                        assert(ports@.contains(e.local_port));
                    }
                }
            }
        } else {
            let ghost before = ports@;
            ports.push(e.local_port);
            proof {
                assert forall|p: u16| #[trigger] ports@.contains(p) <==> (before.contains(p) || p
                    == e.local_port) by {
                    if ports@.contains(p) {
                        let k = choose|k: int| 0 <= k < ports@.len() && ports@[k] == p;
                        if k < before.len() {
                            assert(before[k] == p);
                        }
                    }
                    if before.contains(p) {
                        let k = choose|k: int| 0 <= k < before.len() && before[k] == p;
                        assert(ports@[k] == p);
                    }
                    if p == e.local_port {
                        assert(ports@[before.len() as int] == p);
                    }
                }
                assert(listens_at(e, e.local_port));
                assert forall|p: u16| #[trigger] ports@.contains(p) <==> is_listening_port(
                    entries@.take(i + 1),
                    p,
                ) by {
                    assert(before.contains(p) <==> is_listening_port(entries@.take(i as int), p));
                    assert(listens_at(e, p) <==> p == e.local_port);
                }
            }
        }
        i = i + 1;
    }
    proof {
        assert(entries@.take(n as int) == entries@);
        assert forall|p: u16| #[trigger] ports@.contains(p) <==> exists|i: int|
            0 <= i < entries@.len() && #[trigger] entries@[i].state == TcpState::Listen
                && entries@[i].local_port == p by {
            law_busy_means_listening(entries@, p);
        }
    }
    ports
}

/// Whether `p` occurs in `ports`.
fn contains_port(ports: &Vec<u16>, p: u16) -> (r: bool)
    ensures
        r == ports@.contains(p),
{
    let n = ports.len();
    let mut i: usize = 0;
    while i < n
        invariant
            n == ports@.len(),
            i <= n,
            forall|j: int| 0 <= j < i ==> ports@[j] != p,
        decreases n - i,
    {
        if ports[i] == p {
            return true;
        }
        i = i + 1;
    }
    false
}

/// The first of `candidates` on which no socket listens.
pub open spec fn first_free_port(candidates: Seq<u16>, entries: Seq<TcpNetEntry>) -> Option<u16>
    decreases candidates.len(),
{
    if candidates.len() == 0 {
        None
    } else if !is_listening_port(entries, candidates[0]) {
        Some(candidates[0])
    } else {
        first_free_port(candidates.drop_first(), entries)
    }
}

/// The first of the three `candidates` that is not in `busy`.
fn free_port(candidates: &[u16; 3], busy: &Vec<u16>, Ghost(entries): Ghost<Seq<TcpNetEntry>>) -> (r:
    Option<u16>)
    requires
        forall|p: u16| #[trigger] busy@.contains(p) <==> is_listening_port(entries, p),
    ensures
        r == first_free_port(candidates@, entries),
{
    let mut i: usize = 0;
    proof {
        assert(candidates@.skip(0) == candidates@);
    }
    while i < 3
        invariant
            i <= 3,
            candidates@.len() == 3,
            forall|p: u16| #[trigger] busy@.contains(p) <==> is_listening_port(entries, p),
            first_free_port(candidates@, entries) == first_free_port(
                candidates@.skip(i as int),
                entries,
            ),
        decreases 3 - i,
    {
        proof {
            assert(candidates@.skip(i as int)[0] == candidates@[i as int]);
            assert(candidates@.skip(i as int).drop_first() == candidates@.skip(i + 1));
        }
        let c = candidates[i];
        if !contains_port(busy, c) {
            return Some(c);
        }
        i = i + 1;
    }
    proof {
        assert(candidates@.skip(3).len() == 0);
    }
    None
}

/// The mask of a network with an `n`-bit prefix, as the subnet test
/// computes it (`0xffffffff << (32 - n)`).
pub open spec fn prefix_mask(n: u8) -> u32 {
    0xffffffffu32 << ((32 - n) as u32)
}

/// Whether `ip` lies in the IPv4 network `network`; never for IPv6.
pub open spec fn network_contains(network: (u32, u8), ip: IpAddr) -> bool {
    match ip {
        IpAddr::V4(a) => prefix_mask(network.1) & a@ == network.0,
        IpAddr::V6(_) => false,
    }
}

/// Whether `ip` lies in `network`, a network address with a prefix length
/// of 1 to 32 bits.
pub fn network_contains_ip(network: (Ipv4Addr, u8), ip: IpAddr) -> (r: bool)
    requires
        1 <= network.1 <= 32,
    ensures
        r == network_contains((network.0@, network.1), ip),
{
    match ip {
        IpAddr::V4(ip) => {
            let subnet_mask = Ipv4Addr::from_bits(0xffffffffu32 << (32 - network.1));
            subnet_mask.bitand(&ip) == network.0
        },
        IpAddr::V6(_) => false,
    }
}

/// The `k`-th candidate subnet of the flecs network: `172.(21+k).0.0/16`.
pub open spec fn flecs_subnet(k: int) -> (u32, u8) {
    (ipv4_bits(172, (21 + k) as u8, 0, 0), 16)
}

/// The number of candidate subnets: `172.21.0.0/16` to `172.31.0.0/16`.
pub open spec fn flecs_subnet_count() -> int {
    11
}

/// `network` is free: none of `ips` lies in it.
pub open spec fn subnet_is_free(network: (u32, u8), ips: Seq<IpAddr>) -> bool {
    forall|i: int| 0 <= i < ips.len() ==> !network_contains(network, #[trigger] ips[i])
}

/// The first candidate subnet that holds none of `ips`.
pub open spec fn free_subnet_index(ips: Seq<IpAddr>) -> Option<int> {
    if exists|k: int| 0 <= k < flecs_subnet_count() && subnet_is_free(flecs_subnet(k), ips) {
        Some(
            choose|k: int|
                0 <= k < flecs_subnet_count() && subnet_is_free(flecs_subnet(k), ips) && forall|j: int|
                    0 <= j < k ==> !subnet_is_free(#[trigger] flecs_subnet(j), ips),
        )
    } else {
        None
    }
}

/// Whether none of `ips` lies in `network`.
fn holds_none_of(network: (Ipv4Addr, u8), ips: &Vec<IpAddr>) -> (r: bool)
    requires
        1 <= network.1 <= 32,
    ensures
        r == subnet_is_free((network.0@, network.1), ips@),
{
    let n = ips.len();
    let mut i: usize = 0;
    while i < n
        invariant
            n == ips@.len(),
            i <= n,
            1 <= network.1 <= 32,
            forall|j: int| 0 <= j < i ==> !network_contains((network.0@, network.1), #[trigger] ips@[j]),
        decreases n - i,
    {
        if network_contains_ip(network, ips[i]) {
            return false;
        }
        i = i + 1;
    }
    true
}

/// The first candidate subnet that holds none of `ips`.
fn find_subnet(ips: &Vec<IpAddr>) -> (r: Option<(Ipv4Addr, u8)>)
    ensures
        match free_subnet_index(ips@) {
            Some(k) => r matches Some(s) && (s.0@, s.1) == flecs_subnet(k),
            None => r is None,
        },
{
    let mut k: u8 = 0;
    while k < 11
        invariant
            k <= 11,
            forall|j: int| 0 <= j < k ==> !subnet_is_free(#[trigger] flecs_subnet(j), ips@),
        decreases 11 - k,
    {
        let subnet = (Ipv4Addr::new(172, 21 + k, 0, 0), 16u8);
        if holds_none_of(subnet, ips) {
            proof {
                assert(subnet_is_free(flecs_subnet(k as int), ips@));
                let c = choose|c: int|
                    0 <= c < flecs_subnet_count() && subnet_is_free(flecs_subnet(c), ips@) && forall|
                        j: int,
                    |
                        0 <= j < c ==> !subnet_is_free(#[trigger] flecs_subnet(j), ips@);
                if c < k {
                    assert(!subnet_is_free(flecs_subnet(c), ips@));
                }
                if c > k {
                    assert(!subnet_is_free(flecs_subnet(k as int), ips@));
                }
            }
            return Some(subnet);
        }
        k = k + 1;
    }
    None
}

/// One address pool of a network's IPAM configuration.
#[derive(Debug, Clone, PartialEq, Eq)]
pub struct IpamConfig {
    pub gateway: Option<String>,
    pub subnet: Option<String>,
}

/// The IPAM settings of a network.
#[derive(Debug, Clone, PartialEq, Eq)]
pub struct Ipam {
    pub config: Option<Vec<IpamConfig>>,
}

/// What Docker reports of an existing network.
#[derive(Debug, Clone, PartialEq, Eq)]
pub struct ExistingNetwork {
    pub ipam: Option<Ipam>,
}

/// A request to create a network.
#[derive(Debug, Clone, PartialEq, Eq)]
pub struct NetworkCreateRequest {
    pub name: String,
    pub driver: Option<String>,
    pub ipam: Option<Ipam>,
}

/// An optional string as characters.
pub open spec fn opt_text(s: Option<String>) -> Option<Seq<char>> {
    match s {
        Some(t) => Some(t@),
        None => None,
    }
}

/// [`IpamConfig`] as plain values: gateway and subnet.
pub open spec fn ipam_config_view(c: IpamConfig) -> (Option<Seq<char>>, Option<Seq<char>>) {
    (opt_text(c.gateway), opt_text(c.subnet))
}

/// [`Ipam`] as plain values: its pools, if it has a configuration.
pub open spec fn ipam_view(i: Option<Ipam>) -> Option<Option<Seq<(Option<Seq<char>>, Option<Seq<char>>)>>> {
    match i {
        Some(ipam) => Some(
            match ipam.config {
                Some(v) => Some(v@.map_values(|c: IpamConfig| ipam_config_view(c))),
                None => None,
            },
        ),
        None => None,
    }
}

/// What the gateway of an existing network is.
pub enum GatewayLookup {
    /// The gateway address.
    Found(u32),
    /// A part of the configuration is missing; the message says which.
    Missing(Seq<char>),
    /// The gateway is not a dotted-decimal address.
    Invalid,
}

/// The gateway of the first pool of an existing network's IPAM settings.
pub open spec fn gateway_lookup(ipam: Option<Option<Seq<(Option<Seq<char>>, Option<Seq<char>>)>>>) -> GatewayLookup {
    match ipam {
        None => GatewayLookup::Missing("Network flecs has no ipam"@),
        Some(None) => GatewayLookup::Missing("Network flecs has no ipam config"@),
        Some(Some(pools)) => if pools.len() == 0 {
            GatewayLookup::Missing("Network flecs has no ipam config"@)
        } else {
            match pools[0].0 {
                None => GatewayLookup::Missing("Network flecs has no gateway"@),
                Some(g) => match parse_ipv4_text(g) {
                    Some(bits) => GatewayLookup::Found(bits),
                    None => GatewayLookup::Invalid,
                },
            }
        },
    }
}

/// A `Logic` error with a copy of `message`.
fn logic_error(message: &str) -> (e: NetworkSetupError)
    ensures
        e matches NetworkSetupError::Logic { message: m } && m@ == message@,
{
    NetworkSetupError::Logic { message: to_owned_string(message) }
}

/// The gateway of an existing network: its first IPAM pool's gateway,
/// which must parse as an IPv4 address.
fn existing_gateway(network: &ExistingNetwork) -> (r: Result<Ipv4Addr, NetworkSetupError>)
    ensures
        match gateway_lookup(ipam_view(network.ipam)) {
            GatewayLookup::Found(bits) => r matches Ok(g) && g@ == bits,
            GatewayLookup::Missing(m) => r matches Err(NetworkSetupError::Logic { message }) && message@
                == m,
            GatewayLookup::Invalid => r matches Err(NetworkSetupError::InvalidIpv4(_)),
        },
{
    let ipam = match &network.ipam {
        Some(i) => i,
        None => {
            return Err(logic_error("Network flecs has no ipam"));
        },
    };
    let config = match &ipam.config {
        Some(c) => c,
        None => {
            return Err(logic_error("Network flecs has no ipam config"));
        },
    };
    if config.len() == 0 {
        return Err(logic_error("Network flecs has no ipam config"));
    }
    let first = &config[0];
    proof {
        assert(ipam_view(network.ipam) == Some(Some(config@.map_values(|c: IpamConfig| ipam_config_view(c)))));
        assert(config@.map_values(|c: IpamConfig| ipam_config_view(c))[0] == ipam_config_view(*first));
    }
    let gateway = match &first.gateway {
        Some(g) => g,
        None => {
            return Err(logic_error("Network flecs has no gateway"));
        },
    };
    match Ipv4Addr::from_str(gateway.as_str()) {
        Ok(g) => Ok(g),
        Err(e) => Err(NetworkSetupError::InvalidIpv4(e)),
    }
}

/// All addresses of all adapters, adapter by adapter.
pub open spec fn adapter_ips(adapters: Seq<NetworkAdapterView>) -> Seq<IpAddr>
    decreases adapters.len(),
{
    if adapters.len() == 0 {
        Seq::empty()
    } else {
        adapter_ips(adapters.drop_last()) + adapters.last().ip_addresses
    }
}

/// The gateway of a new flecs network in subnet `k`: its first host address.
pub open spec fn subnet_gateway(k: int) -> u32 {
    flecs_subnet(k).0 | 1u32
}

/// The request that creates the flecs bridge network in subnet `k`: its
/// one pool has the gateway and the subnet `a.b.c.d/16`.
pub open spec fn create_request_matches(req: NetworkCreateRequest, k: int) -> bool {
    &&& req.name@ == "flecs"@
    &&& opt_text(req.driver) == Some("bridge"@)
    &&& ipam_view(req.ipam) == Some(
        Some(
            seq![
                (
                    Some(ipv4_text(subnet_gateway(k))),
                    Some(ipv4_text(flecs_subnet(k).0) + "/"@ + decimal(16)),
                ),
            ],
        ),
    )
}

/// The addresses of all adapters.
fn collect_ips(adapters: &Vec<NetworkAdapter>) -> (ips: Vec<IpAddr>)
    ensures
        ips@ == adapter_ips(adapters@.map_values(|a: NetworkAdapter| a@)),
{
    let mut ips: Vec<IpAddr> = Vec::new();
    let n = adapters.len();
    let mut i: usize = 0;
    while i < n
        invariant
            n == adapters@.len(),
            i <= n,
            ips@ == adapter_ips(adapters@.map_values(|a: NetworkAdapter| a@).take(i as int)),
        decreases n - i,
    {
        let a = &adapters[i];
        let m = a.ip_addresses.len();
        let mut j: usize = 0;
        let ghost start = ips@;
        while j < m
            invariant
                m == a.ip_addresses@.len(),
                j <= m,
                ips@ == start + a.ip_addresses@.take(j as int),
            decreases m - j,
        {
            ips.push(a.ip_addresses[j]);
            proof {
                assert(a.ip_addresses@.take(j + 1) == a.ip_addresses@.take(j as int).push(
                    a.ip_addresses@[j as int],
                ));
            }
            j = j + 1;
        }
        proof {
            let views = adapters@.map_values(|a: NetworkAdapter| a@);
            assert(a.ip_addresses@.take(m as int) == a.ip_addresses@);
            assert(views.take(i + 1).drop_last() == views.take(i as int));
            assert(views.take(i + 1).last() == a@);
        }
        i = i + 1;
    }
    proof {
        let views = adapters@.map_values(|a: NetworkAdapter| a@);
        assert(views.take(n as int) == views);
    }
    ips
}

/// The gateway and the create request of a new flecs network: the first
/// candidate subnet that holds no address of the adapters, else a `Logic`
/// error.
fn plan_flecs_network(adapters: &Vec<NetworkAdapter>) -> (r: Result<
    (Ipv4Addr, NetworkCreateRequest),
    NetworkSetupError,
>)
    ensures
        match free_subnet_index(adapter_ips(adapters@.map_values(|a: NetworkAdapter| a@))) {
            Some(k) => r matches Ok((g, req)) && g@ == subnet_gateway(k) && create_request_matches(req, k),
            None => r matches Err(NetworkSetupError::Logic { message }) && message@
                == "No free subnet found for network flecs"@,
        },
{
    let ips = collect_ips(adapters);
    let subnet = match find_subnet(&ips) {
        Some(s) => s,
        None => {
            return Err(logic_error("No free subnet found for network flecs"));
        },
    };
    let gateway = subnet.0.bitor(&Ipv4Addr::new(0, 0, 0, 1));
    let mut subnet_text = subnet.0.to_string();
    push_char(&mut subnet_text, '/');
    push_decimal(&mut subnet_text, subnet.1 as u64);
    let config = IpamConfig { gateway: Some(gateway.to_string()), subnet: Some(subnet_text) };
    let req = NetworkCreateRequest {
        name: to_owned_string(FLECS_NETWORK_NAME),
        driver: Some(to_owned_string("bridge")),
        ipam: Some(Ipam { config: Some(vec![config]) }),
    };
    proof {
        reveal_strlit("/");
        reveal_strlit("flecs");
        reveal_strlit("bridge");
        assert(ipv4_bits(0, 0, 0, 1) == 1);
        let k = free_subnet_index(ips@)->0;
        assert(gateway@ == subnet_gateway(k));
        assert(subnet_text@ == ipv4_text(flecs_subnet(k).0) + "/"@ + decimal(16));
        assert(ipam_config_view(config) == (
            Some(ipv4_text(subnet_gateway(k))),
            Some(ipv4_text(flecs_subnet(k).0) + "/"@ + decimal(16)),
        ));
        assert(req.ipam->0.config->0@.map_values(|c: IpamConfig| ipam_config_view(c)) == seq![
            ipam_config_view(config),
        ]);
        assert(req.name@ == "flecs"@);
        assert(opt_text(req.driver) == Some("bridge"@));
    }
    Ok((gateway, req))
}

/// The ports and gateway the proxy uses.
#[derive(Debug, Clone, Copy, PartialEq, Eq, Structural)]
pub struct NetworkInfo {
    pub free_http_port: u16,
    pub free_https_port: u16,
    pub gateway: Ipv4Addr,
}

/// Where [`network_setup_step`] stands.
#[derive(Debug, Clone, Copy, PartialEq, Eq, Structural)]
pub enum NetworkSetupState {
    /// Waiting for the TCP sockets of the host.
    ReadingPorts,
    /// Ports chosen; waiting for Docker's answer about the flecs network.
    Inspecting { http: u16, https: u16 },
    /// The network does not exist; waiting for the host's adapters.
    ReadingAdapters { http: u16, https: u16 },
    /// Waiting for Docker to create the network.
    Creating { http: u16, https: u16, gateway: Ipv4Addr },
    /// Done; the last action carried the result.
    Finished,
}

/// What Docker answered when asked for the flecs network.
#[derive(Debug, Clone, PartialEq, Eq)]
pub enum InspectOutcome {
    Found(ExistingNetwork),
    /// Docker answered 404.
    NotFound,
    /// Any other error, by its message.
    Failed(String),
}

/// The outcome of an action of [`network_setup_step`].
#[derive(Debug, PartialEq, Eq)]
pub enum NetworkSetupEvent {
    /// The sockets of `/proc/net/tcp` and `/proc/net/tcp6`, or the error.
    BusyPorts(Result<Vec<TcpNetEntry>, String>),
    NetworkInspected(InspectOutcome),
    AdaptersRead(Result<Vec<NetworkAdapter>, ReadNetworkAdaptersError>),
    /// The outcome of creating the network, an error by its message.
    NetworkCreated(Result<(), String>),
}

/// What the driver does next for [`network_setup_step`].
#[derive(Debug, PartialEq, Eq)]
pub enum NetworkSetupAction {
    ReadBusyPorts,
    /// Ask Docker for the network named [`FLECS_NETWORK_NAME`].
    InspectNetwork,
    ReadAdapters,
    CreateNetwork(NetworkCreateRequest),
    Finish(Result<NetworkInfo, NetworkSetupError>),
}

/// Whether `event` answers the action that led to `state`.
pub open spec fn network_setup_expects(state: NetworkSetupState, event: NetworkSetupEvent) -> bool {
    match state {
        NetworkSetupState::ReadingPorts => event is BusyPorts,
        NetworkSetupState::Inspecting { .. } => event is NetworkInspected,
        NetworkSetupState::ReadingAdapters { .. } => event is AdaptersRead,
        NetworkSetupState::Creating { .. } => event is NetworkCreated,
        NetworkSetupState::Finished => false,
    }
}

impl NetworkSetupState {
    /// Whether `event` answers the action that led to this state.
    pub fn expects(&self, event: &NetworkSetupEvent) -> (r: bool)
        ensures
            r == network_setup_expects(*self, *event),
    {
        match self {
            NetworkSetupState::ReadingPorts => matches!(event, NetworkSetupEvent::BusyPorts(_)),
            NetworkSetupState::Inspecting { .. } => matches!(event, NetworkSetupEvent::NetworkInspected(_)),
            NetworkSetupState::ReadingAdapters { .. } => matches!(event, NetworkSetupEvent::AdaptersRead(_)),
            NetworkSetupState::Creating { .. } => matches!(event, NetworkSetupEvent::NetworkCreated(_)),
            NetworkSetupState::Finished => false,
        }
    }
}

/// Starts setting up the network: first read the host's TCP sockets; then
/// feed each outcome to [`network_setup_step`].
pub fn network_setup() -> (r: (NetworkSetupState, NetworkSetupAction))
    ensures
        r.0 == NetworkSetupState::ReadingPorts,
        r.1 is ReadBusyPorts,
{
    (NetworkSetupState::ReadingPorts, NetworkSetupAction::ReadBusyPorts)
}

/// The finishing action of a successful setup.
pub open spec fn finished_ok(action: NetworkSetupAction, http: u16, https: u16, gateway: u32) -> bool {
    action matches NetworkSetupAction::Finish(Ok(info)) && info.free_http_port == http
        && info.free_https_port == https && info.gateway@ == gateway
}

/// One step of setting up the network: the first free HTTP and HTTPS
/// ports of [`HTTP_PORTS`] and [`HTTPS_PORTS`] (else `PortBusy`), then the
/// gateway of the existing flecs network, or, when Docker answers 404, a
/// new network in the first candidate subnet that holds no adapter
/// address. Errors of `/proc` and Docker end the setup with that error.
pub fn network_setup_step(state: NetworkSetupState, event: NetworkSetupEvent) -> (r: (
    NetworkSetupState,
    NetworkSetupAction,
))
    requires
        network_setup_expects(state, event),
    ensures
        (r.1 is Finish) == (r.0 == NetworkSetupState::Finished),
        state is ReadingPorts ==> match event {
            NetworkSetupEvent::BusyPorts(Err(m)) => r.1 matches NetworkSetupAction::Finish(
                Err(NetworkSetupError::Procfs(t)),
            ) && t@ == m@,
            NetworkSetupEvent::BusyPorts(Ok(entries)) => match (
                first_free_port(http_ports(), entries@),
                first_free_port(https_ports(), entries@),
            ) {
                (Some(h), Some(s)) => r.0 == NetworkSetupState::Inspecting { http: h, https: s }
                    && r.1 is InspectNetwork,
                (None, _) => r.1 matches NetworkSetupAction::Finish(
                    Err(NetworkSetupError::PortBusy(w)),
                ) && w@ == "http"@,
                (Some(_), None) => r.1 matches NetworkSetupAction::Finish(
                    Err(NetworkSetupError::PortBusy(w)),
                ) && w@ == "https"@,
            },
            _ => true,
        },
        state matches NetworkSetupState::Inspecting { http, https } ==> match event {
            NetworkSetupEvent::NetworkInspected(InspectOutcome::Found(network)) => match gateway_lookup(
                ipam_view(network.ipam),
            ) {
                GatewayLookup::Found(g) => finished_ok(r.1, http, https, g),
                GatewayLookup::Missing(m) => r.1 matches NetworkSetupAction::Finish(
                    Err(NetworkSetupError::Logic { message }),
                ) && message@ == m,
                GatewayLookup::Invalid => r.1 matches NetworkSetupAction::Finish(
                    Err(NetworkSetupError::InvalidIpv4(_)),
                ),
            },
            NetworkSetupEvent::NetworkInspected(InspectOutcome::NotFound) => r.0
                == NetworkSetupState::ReadingAdapters { http, https } && r.1 is ReadAdapters,
            NetworkSetupEvent::NetworkInspected(InspectOutcome::Failed(m)) => r.1 matches NetworkSetupAction::Finish(
                Err(NetworkSetupError::Bollard(t)),
            ) && t@ == m@,
            _ => true,
        },
        state matches NetworkSetupState::ReadingAdapters { http, https } ==> match event {
            NetworkSetupEvent::AdaptersRead(Err(e)) => r.1 == NetworkSetupAction::Finish(
                Err(NetworkSetupError::ReadNetworkAdapters(e)),
            ),
            NetworkSetupEvent::AdaptersRead(Ok(adapters)) => match free_subnet_index(
                adapter_ips(adapters@.map_values(|a: NetworkAdapter| a@)),
            ) {
                Some(k) => r.0 matches NetworkSetupState::Creating { http: h, https: s, gateway }
                    && h == http && s == https && gateway@ == subnet_gateway(k) && (
                r.1 matches NetworkSetupAction::CreateNetwork(req) && create_request_matches(req, k)),
                None => r.1 matches NetworkSetupAction::Finish(
                    Err(NetworkSetupError::Logic { message }),
                ) && message@ == "No free subnet found for network flecs"@,
            },
            _ => true,
        },
        state matches NetworkSetupState::Creating { http, https, gateway } ==> match event {
            NetworkSetupEvent::NetworkCreated(Ok(())) => finished_ok(r.1, http, https, gateway@),
            NetworkSetupEvent::NetworkCreated(Err(m)) => r.1 matches NetworkSetupAction::Finish(
                Err(NetworkSetupError::Bollard(t)),
            ) && t@ == m@,
            _ => true,
        },
{
    let fin = NetworkSetupState::Finished;
    match (state, event) {
        (NetworkSetupState::ReadingPorts, NetworkSetupEvent::BusyPorts(Err(m))) => (
            fin,
            NetworkSetupAction::Finish(Err(NetworkSetupError::Procfs(m))),
        ),
        (NetworkSetupState::ReadingPorts, NetworkSetupEvent::BusyPorts(Ok(entries))) => {
            let busy = get_busy_ports(&entries);
            let http = match free_port(&HTTP_PORTS, &busy, Ghost(entries@)) {
                Some(p) => p,
                None => {
                    return (fin, NetworkSetupAction::Finish(Err(NetworkSetupError::PortBusy("http"))));
                },
            };
            let https = match free_port(&HTTPS_PORTS, &busy, Ghost(entries@)) {
                Some(p) => p,
                None => {
                    return (fin, NetworkSetupAction::Finish(Err(NetworkSetupError::PortBusy("https"))));
                },
            };
            (NetworkSetupState::Inspecting { http, https }, NetworkSetupAction::InspectNetwork)
        },
        (
            NetworkSetupState::Inspecting { http, https },
            NetworkSetupEvent::NetworkInspected(outcome),
        ) => match outcome {
            InspectOutcome::Found(network) => match existing_gateway(&network) {
                Ok(gateway) => (
                    fin,
                    NetworkSetupAction::Finish(
                        Ok(NetworkInfo { free_https_port: https, free_http_port: http, gateway }),
                    ),
                ),
                Err(e) => (fin, NetworkSetupAction::Finish(Err(e))),
            },
            InspectOutcome::NotFound => (
                NetworkSetupState::ReadingAdapters { http, https },
                NetworkSetupAction::ReadAdapters,
            ),
            InspectOutcome::Failed(m) => (
                fin,
                NetworkSetupAction::Finish(Err(NetworkSetupError::Bollard(m))),
            ),
        },
        (
            NetworkSetupState::ReadingAdapters { http, https },
            NetworkSetupEvent::AdaptersRead(read),
        ) => match read {
            Err(e) => (fin, NetworkSetupAction::Finish(Err(NetworkSetupError::ReadNetworkAdapters(e)))),
            Ok(adapters) => match plan_flecs_network(&adapters) {
                Ok((gateway, req)) => (
                    NetworkSetupState::Creating { http, https, gateway },
                    NetworkSetupAction::CreateNetwork(req),
                ),
                Err(e) => (fin, NetworkSetupAction::Finish(Err(e))),
            },
        },
        (
            NetworkSetupState::Creating { http, https, gateway },
            NetworkSetupEvent::NetworkCreated(created),
        ) => match created {
            Ok(()) => (
                fin,
                NetworkSetupAction::Finish(
                    Ok(NetworkInfo { free_https_port: https, free_http_port: http, gateway }),
                ),
            ),
            Err(m) => (fin, NetworkSetupAction::Finish(Err(NetworkSetupError::Bollard(m)))),
        },
        _ => (fin, NetworkSetupAction::ReadBusyPorts),
    }
}

/// The port chosen from `candidates` is one of them on which no socket
/// listens, and a socket listens on every candidate before it; no port is
/// chosen only when a socket listens on every candidate.
pub proof fn law_first_free_port(candidates: Seq<u16>, entries: Seq<TcpNetEntry>)
    ensures
        match first_free_port(candidates, entries) {
            Some(p) => exists|k: int|
                0 <= k < candidates.len() && candidates[k] == p && !is_listening_port(entries, p)
                    && forall|j: int| 0 <= j < k ==> is_listening_port(entries, #[trigger] candidates[j]),
            None => forall|k: int|
                0 <= k < candidates.len() ==> is_listening_port(entries, #[trigger] candidates[k]),
        },
    decreases candidates.len(),
{
    if candidates.len() > 0 && is_listening_port(entries, candidates[0]) {
        let rest = candidates.drop_first();
        law_first_free_port(rest, entries);
        match first_free_port(rest, entries) {
            Some(p) => {
                let k = choose|k: int|
                    0 <= k < rest.len() && rest[k] == p && !is_listening_port(entries, p) && forall|j: int|
                        0 <= j < k ==> is_listening_port(entries, #[trigger] rest[j]);
                assert(candidates[k + 1] == p);
                assert forall|j: int| 0 <= j < k + 1 implies is_listening_port(
                    entries,
                    #[trigger] candidates[j],
                ) by {
                    if j > 0 {
                        assert(candidates[j] == rest[j - 1]);
                    }
                }
            },
            None => {
                assert forall|k: int| 0 <= k < candidates.len() implies is_listening_port(
                    entries,
                    #[trigger] candidates[k],
                ) by {
                    if k > 0 {
                        assert(candidates[k] == rest[k - 1]);
                    }
                }
            },
        }
    } else if candidates.len() > 0 {
        assert(candidates[0] == candidates[0]);
    }
}

/// The port chosen from `candidates` is the first one that no socket in
/// state `Listen` has as its local port; no port is chosen only when each
/// candidate has such a socket.
pub proof fn law_first_port_without_listener(candidates: Seq<u16>, entries: Seq<TcpNetEntry>)
    ensures
        match first_free_port(candidates, entries) {
            Some(p) => exists|k: int|
                0 <= k < candidates.len() && candidates[k] == p && !(exists|i: int|
                    0 <= i < entries.len() && #[trigger] entries[i].state == TcpState::Listen
                        && entries[i].local_port == p) && forall|j: int|
                    0 <= j < k ==> exists|i: int|
                        0 <= i < entries.len() && #[trigger] entries[i].state == TcpState::Listen
                            && entries[i].local_port == #[trigger] candidates[j],
            None => forall|k: int|
                0 <= k < candidates.len() ==> exists|i: int|
                    0 <= i < entries.len() && #[trigger] entries[i].state == TcpState::Listen
                        && entries[i].local_port == #[trigger] candidates[k],
        },
{
    law_first_free_port(candidates, entries);
    assert forall|q: u16| is_listening_port(entries, q) <==> exists|i: int|
        0 <= i < entries.len() && #[trigger] entries[i].state == TcpState::Listen
            && entries[i].local_port == q by {
        law_busy_means_listening(entries, q);
    }
}

/// The subnet chosen for a new flecs network is the first free candidate,
/// one that holds none of the given addresses; none is chosen only when
/// every candidate holds some address.
pub proof fn law_free_subnet(ips: Seq<IpAddr>)
    ensures
        match free_subnet_index(ips) {
            Some(k) => 0 <= k < flecs_subnet_count() && subnet_is_free(flecs_subnet(k), ips)
                && forall|j: int| 0 <= j < k ==> !subnet_is_free(#[trigger] flecs_subnet(j), ips),
            None => forall|k: int|
                0 <= k < flecs_subnet_count() ==> !subnet_is_free(#[trigger] flecs_subnet(k), ips),
        },
{
    if exists|k: int| 0 <= k < flecs_subnet_count() && subnet_is_free(flecs_subnet(k), ips) {
        let k0 = choose|k: int| 0 <= k < flecs_subnet_count() && subnet_is_free(flecs_subnet(k), ips);
        lemma_least_free_subnet(ips, k0);
    }
}

/// Below a free candidate `c` there is a least free candidate.
proof fn lemma_least_free_subnet(ips: Seq<IpAddr>, c: int)
    requires
        0 <= c < flecs_subnet_count(),
        subnet_is_free(flecs_subnet(c), ips),
    ensures
        exists|m: int|
            0 <= m < flecs_subnet_count() && subnet_is_free(flecs_subnet(m), ips) && forall|j: int|
                0 <= j < m ==> !subnet_is_free(#[trigger] flecs_subnet(j), ips),
    decreases c,
{
    if forall|j: int| 0 <= j < c ==> !subnet_is_free(#[trigger] flecs_subnet(j), ips) {
        assert(subnet_is_free(flecs_subnet(c), ips));
    } else {
        let d = choose|j: int| 0 <= j < c && subnet_is_free(#[trigger] flecs_subnet(j), ips);
        lemma_least_free_subnet(ips, d);
    }
}

/// The gateway of a new flecs network lies in its subnet.
pub proof fn law_gateway_in_subnet(k: int)
    requires
        0 <= k < flecs_subnet_count(),
    ensures
        network_contains(flecs_subnet(k), IpAddr::V4(Ipv4Addr::from_bits_spec(subnet_gateway(k)))),
{
    let base = flecs_subnet(k).0;
    assert(((21 + k) as u8) as int == 21 + k);
    assert(base == (172 * 256 + 21 + k) * 65536);
    assert(base % 65536 == 0);
    assert(base & 0xffffu32 == 0) by (bit_vector)
        requires
            base % 65536 == 0,
    ;
    assert((0xffffffffu32 << 16u32) & (base | 1u32) == base) by (bit_vector)
        requires
            base & 0xffffu32 == 0,
    ;
}

} // verus!
