//! Addressing of point-to-point links between namespaces.

use vstd::prelude::*;
use vstd::string::*;

use crate::netns_testbench::netns::NetNsError;
use crate::network_sim::qdisc::lit;
use crate::netns_testbench::veth::opt_view;
use crate::text::{decimal, u64_to_decimal};

verus! {

/// Errors of address and route configuration.
#[derive(Debug)]
pub enum AddrError {
    Io(std::io::Error),
    Connection(rtnetlink::Error),
    AddAddress(rtnetlink::Error),
    AddRoute(rtnetlink::Error),
    Loopback(rtnetlink::Error),
    InterfaceNotFound(String),
    NetNs(NetNsError),
    InvalidConfig(String),
}

/// An IPv4 address with a prefix length.
#[derive(Clone, Copy, Debug)]
pub struct Ipv4Subnet {
    pub octets: [u8; 4],
    pub prefix: u8,
}

/// `ipnetwork::Ipv4Network::new(addr, prefix)`: a network for any prefix
/// length up to 32 holding the given address and prefix; a longer prefix is
/// rejected (the error is returned as its message).
#[verifier::external_body]
fn ipv4_network(octets: [u8; 4], prefix: u8) -> (r: Result<Ipv4Subnet, String>)
    ensures
        (r is Ok) == (prefix <= 32),
        (r matches Ok(n) ==> n.octets@ == octets@ && n.prefix == prefix),
{
    match ipnetwork::Ipv4Network::new(octets.into(), prefix) {
        Ok(n) => Ok(Ipv4Subnet { octets: n.ip().octets(), prefix: n.prefix() }),
        Err(e) => Err(e.to_string()),
    }
}

/// Address configuration manager holding a netlink handle of the host
/// namespace.
pub struct Configurer {
    handle: rtnetlink::Handle,
}

/// The last octet base of the /30 subnet of link `link_id`: 10, 14, 18, ...
pub open spec fn p2p_base(link_id: u8) -> int {
    10 + (link_id - 1) * 4
}

impl Configurer {
    /// The netlink handle this configurer uses.
    pub closed spec fn handle_of(&self) -> rtnetlink::Handle {
        self.handle
    }

    /// A configurer using `handle`.
    pub fn from_handle(handle: rtnetlink::Handle) -> (c: Self)
        ensures
            c.handle_of() == handle,
    {
        Configurer { handle }
    }

    /// The netlink handle of the host namespace.
    pub fn handle(&self) -> (h: &rtnetlink::Handle)
        ensures
            *h == self.handle_of(),
    {
        &self.handle
    }

    /// The /30 addresses of both ends of point-to-point link `link_id`:
    /// `10.0.0.(b+1)/30` and `10.0.0.(b+2)/30` with `b = 10 + 4 * (link_id - 1)`.
    /// Link 0 and links whose base passes 250 are rejected.
    pub fn generate_p2p_subnet(link_id: u8) -> (r: Result<(Ipv4Subnet, Ipv4Subnet), AddrError>)
        ensures
            link_id == 0 ==> (r matches Err(AddrError::InvalidConfig(m)) && m@
                == "Link ID cannot be 0"@),
            link_id > 0 && p2p_base(link_id) > 250 ==> (r matches Err(AddrError::InvalidConfig(m))
                && m@ == "Link ID "@ + decimal(link_id as nat) + " too high"@),
            link_id > 0 && p2p_base(link_id) <= 250 ==> (r matches Ok((left, right))
                && left.octets@ == seq![10u8, 0u8, 0u8, (p2p_base(link_id) + 1) as u8]
                && right.octets@ == seq![10u8, 0u8, 0u8, (p2p_base(link_id) + 2) as u8]
                && left.prefix == 30 && right.prefix == 30),
    {
        if link_id == 0 {
            return Err(AddrError::InvalidConfig(String::from_str("Link ID cannot be 0")));
        }
        let base: u32 = 10 + (link_id as u32 - 1) * 4;
        if base > 250 {
            let mut m = String::from_str("Link ID ");
            m.append(u64_to_decimal(link_id as u64).as_str());
            m.append(" too high");
            return Err(AddrError::InvalidConfig(m));
        }
        let left = match ipv4_network([10, 0, 0, base as u8 + 1], 30) {
            Ok(n) => n,
            Err(e) => {
                return Err(AddrError::InvalidConfig(e));
            },
        };
        let right = match ipv4_network([10, 0, 0, base as u8 + 2], 30) {
            Ok(n) => n,
            Err(e) => {
                return Err(AddrError::InvalidConfig(e));
            },
        };
        Ok((left, right))
    }
}

/// Links never share an address: for two different accepted link ids, the
/// blocks of four addresses starting at their bases are apart, so the
/// addresses of their ends (base + 1 and base + 2) are all different.
pub proof fn lemma_p2p_addresses_distinct(a: u8, b: u8)
    requires
        a > 0,
        b > 0,
        p2p_base(a) <= 250,
        p2p_base(b) <= 250,
        a != b,
    ensures
        p2p_base(a) + 3 < p2p_base(b) || p2p_base(b) + 3 < p2p_base(a),
        p2p_base(a) + 1 != p2p_base(b) + 1 && p2p_base(a) + 1 != p2p_base(b) + 2,
        p2p_base(a) + 2 != p2p_base(b) + 1 && p2p_base(a) + 2 != p2p_base(b) + 2,
{
}

// ---------------------------------------------------------------------------
// Address and route plans
// ---------------------------------------------------------------------------

/// An IPv6 address with a prefix length.
#[derive(Clone, Copy, Debug)]
pub struct Ipv6Subnet {
    pub octets: [u8; 16],
    pub prefix: u8,
}

/// An IP address with a prefix length, of either family.
#[derive(Clone, Copy, Debug)]
pub enum IpNet {
    V4(Ipv4Subnet),
    V6(Ipv6Subnet),
}

/// An IP address of either family.
#[derive(Clone, Copy, Debug)]
pub enum IpAddress {
    V4([u8; 4]),
    V6([u8; 16]),
}

/// An address to assign to an interface, in a namespace or the root one.
#[derive(Debug)]
pub struct AddressConfig {
    pub interface: String,
    pub address: IpNet,
    pub namespace: Option<String>,
}

/// A route to add, through a gateway and/or an interface, in a namespace or
/// the root one.
#[derive(Debug)]
pub struct RouteConfig {
    pub destination: IpNet,
    pub gateway: Option<IpAddress>,
    pub interface: Option<String>,
    pub namespace: Option<String>,
}

/// The content of an `AddressConfig`.
pub struct AddressView {
    pub interface: Seq<char>,
    pub address: IpNet,
    pub namespace: Option<Seq<char>>,
}

/// The content of a `RouteConfig`.
pub struct RouteView {
    pub destination: IpNet,
    pub gateway: Option<IpAddress>,
    pub interface: Option<Seq<char>>,
    pub namespace: Option<Seq<char>>,
}

impl View for AddressConfig {
    type V = AddressView;

    open spec fn view(&self) -> AddressView {
        AddressView {
            interface: self.interface@,
            address: self.address,
            namespace: opt_view(self.namespace),
        }
    }
}

impl View for RouteConfig {
    type V = RouteView;

    open spec fn view(&self) -> RouteView {
        RouteView {
            destination: self.destination,
            gateway: self.gateway,
            interface: opt_view(self.interface),
            namespace: opt_view(self.namespace),
        }
    }
}

/// The contents of a sequence of address assignments.
pub open spec fn address_views(v: Seq<AddressConfig>) -> Seq<AddressView> {
    v.map_values(|a: AddressConfig| a@)
}

/// The contents of a sequence of routes.
pub open spec fn route_views(v: Seq<RouteConfig>) -> Seq<RouteView> {
    v.map_values(|r: RouteConfig| r@)
}

/// Addresses and routes to apply, addresses first, each list in order.
pub struct NetworkConfigBuilder {
    pub addresses: Vec<AddressConfig>,
    pub routes: Vec<RouteConfig>,
}

impl NetworkConfigBuilder {
    /// Nothing to apply.
    pub fn new() -> (b: Self)
        ensures
            b.addresses@.len() == 0,
            b.routes@.len() == 0,
    {
        NetworkConfigBuilder { addresses: Vec::new(), routes: Vec::new() }
    }

    /// Adds an address assignment.
    pub fn add_address(self, config: AddressConfig) -> (b: Self)
        ensures
            address_views(b.addresses@) == address_views(self.addresses@).push(config@),
            route_views(b.routes@) == route_views(self.routes@),
    {
        let mut b = self;
        let ghost before = b.addresses@;
        let ghost cv = config@;
        b.addresses.push(config);
        assert(address_views(b.addresses@) =~= address_views(before).push(cv));
        b
    }

    /// Adds a route.
    pub fn add_route(self, config: RouteConfig) -> (b: Self)
        ensures
            route_views(b.routes@) == route_views(self.routes@).push(config@),
            address_views(b.addresses@) == address_views(self.addresses@),
    {
        let mut b = self;
        let ghost before = b.routes@;
        let ghost cv = config@;
        b.routes.push(config);
        assert(route_views(b.routes@) =~= route_views(before).push(cv));
        b
    }

    /// A point-to-point link: each end gets its address in its namespace,
    /// and a route to the other end's address through its interface.
    pub fn p2p_link(
        self,
        left_ns: String,
        left_iface: String,
        left_addr: Ipv4Subnet,
        right_ns: String,
        right_iface: String,
        right_addr: Ipv4Subnet,
    ) -> (b: Self)
        ensures
            address_views(b.addresses@) == address_views(self.addresses@).push(
                AddressView {
                    interface: left_iface@,
                    address: IpNet::V4(left_addr),
                    namespace: Some(left_ns@),
                },
            ).push(
                AddressView {
                    interface: right_iface@,
                    address: IpNet::V4(right_addr),
                    namespace: Some(right_ns@),
                },
            ),
            route_views(b.routes@) == route_views(self.routes@).push(
                RouteView {
                    destination: IpNet::V4(right_addr),
                    gateway: None,
                    interface: Some(left_iface@),
                    namespace: Some(left_ns@),
                },
            ).push(
                RouteView {
                    destination: IpNet::V4(left_addr),
                    gateway: None,
                    interface: Some(right_iface@),
                    namespace: Some(right_ns@),
                },
            ),
    {
        let b = self.add_address(
            AddressConfig {
                interface: lit(left_iface.as_str()),
                address: IpNet::V4(left_addr),
                namespace: Some(lit(left_ns.as_str())),
            },
        );
        let b = b.add_address(
            AddressConfig {
                interface: lit(right_iface.as_str()),
                address: IpNet::V4(right_addr),
                namespace: Some(lit(right_ns.as_str())),
            },
        );
        let b = b.add_route(
            RouteConfig {
                destination: IpNet::V4(right_addr),
                gateway: None,
                interface: Some(left_iface),
                namespace: Some(left_ns),
            },
        );
        b.add_route(
            RouteConfig {
                destination: IpNet::V4(left_addr),
                gateway: None,
                interface: Some(right_iface),
                namespace: Some(right_ns),
            },
        )
    }
}

impl Default for NetworkConfigBuilder {
    fn default() -> (b: Self)
        ensures
            b.addresses@.len() == 0,
            b.routes@.len() == 0,
    {
        NetworkConfigBuilder::new()
    }
}

} // verus!
