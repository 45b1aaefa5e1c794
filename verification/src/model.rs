//! The data of a report: addresses, subdomains and the root domain.

use vstd::prelude::*;

verus! {

/// A resolved IP address. A-record lookups fill in `V4` only.
#[derive(Clone, Copy, Debug, PartialEq, Eq, Structural)]
pub enum Ip {
    /// The four octets of an IPv4 address, first octet first.
    V4(u8, u8, u8, u8),
    /// The 128 bits of an IPv6 address, in network order.
    V6(u128),
}

/// One address of a name, as the report lists it.
#[derive(Clone, Copy, Debug, PartialEq, Eq, Structural)]
pub struct Address {
    pub ip: Ip,
}

/// A candidate that resolved, with the addresses it resolved to.
#[derive(Clone, Debug, PartialEq, Eq)]
pub struct Subdomain {
    pub name: String,
    pub addresses: Vec<Address>,
}

/// The report: the root domain, what it resolves to, and the subdomains found.
#[derive(Clone, Debug, PartialEq, Eq)]
pub struct RootDomain {
    pub name: String,
    pub subdomains: Vec<Subdomain>,
    pub addresses: Vec<Address>,
}

/// What a `Subdomain` is: its name as characters, and its addresses in order.
pub struct SubdomainView {
    pub name: Seq<char>,
    pub addresses: Seq<Address>,
}

/// What a `RootDomain` is.
pub struct RootDomainView {
    pub name: Seq<char>,
    pub subdomains: Seq<SubdomainView>,
    pub addresses: Seq<Address>,
}

impl View for Subdomain {
    type V = SubdomainView;

    open spec fn view(&self) -> SubdomainView {
        SubdomainView { name: self.name@, addresses: self.addresses@ }
    }
}

impl View for RootDomain {
    type V = RootDomainView;

    open spec fn view(&self) -> RootDomainView {
        RootDomainView {
            name: self.name@,
            subdomains: subdomain_views(self.subdomains@),
            addresses: self.addresses@,
        }
    }
}

/// The views of a sequence of subdomains, in the same order.
pub open spec fn subdomain_views(subdomains: Seq<Subdomain>) -> Seq<SubdomainView> {
    subdomains.map_values(|s: Subdomain| s@)
}

/// The names of a sequence of subdomains, in the same order.
pub open spec fn names(subdomains: Seq<SubdomainView>) -> Seq<Seq<char>> {
    subdomains.map_values(|s: SubdomainView| s.name)
}

/// Each address wrapped as the report lists it, in the same order.
pub open spec fn as_addresses(ips: Seq<Ip>) -> Seq<Address> {
    ips.map_values(|ip: Ip| Address { ip })
}

/// Wraps each resolved address as the report lists it, keeping the order.
pub fn to_addresses(ips: Vec<Ip>) -> (addresses: Vec<Address>)
    ensures
        addresses@ == as_addresses(ips@),
{
    let mut addresses: Vec<Address> = Vec::new();
    let mut i: usize = 0;
    while i < ips.len()
        invariant
            i <= ips.len(),
            addresses@ == as_addresses(ips@.take(i as int)),
        decreases ips.len() - i,
    {
        addresses.push(Address { ip: ips[i] });
        assert(ips@.take(i + 1) == ips@.take(i as int).push(ips@[i as int]));
        assert(as_addresses(ips@.take(i + 1)) == as_addresses(ips@.take(i as int)).push(
            Address { ip: ips@[i as int] },
        ));
        i += 1;
    }
    assert(ips@.take(ips.len() as int) == ips@);
    addresses
}

} // verus!
