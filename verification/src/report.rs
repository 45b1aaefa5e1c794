//! The report assembler: the root domain's own addresses and the merged hits
//! become the report.

use vstd::prelude::*;

use crate::model::{
    as_addresses, subdomain_views, to_addresses, Address, Ip, RootDomain, RootDomainView,
    Subdomain, SubdomainView,
};
use crate::worker::is_hit;

verus! {

/// The report for a root domain, the hits of the pool and the outcome of the
/// root's own lookup: the root's addresses if it resolved, none if it did not.
pub open spec fn assembled(
    target: Seq<char>,
    subdomains: Seq<SubdomainView>,
    root: Option<Seq<Ip>>,
) -> RootDomainView {
    RootDomainView {
        name: target,
        subdomains,
        addresses: if is_hit(root) {
            as_addresses(root->Some_0)
        } else {
            Seq::empty()
        },
    }
}

/// Builds the report. The subdomains go in as they are, whatever came of the
/// root's lookup. The second part of the result says whether the root did not
/// resolve, which the user is to be told.
pub fn assemble(target: String, subdomains: Vec<Subdomain>, root: Option<Vec<Ip>>) -> (out: (
    RootDomain,
    bool,
))
    ensures
        out.0@ == assembled(
            target@,
            subdomain_views(subdomains@),
            match root {
                Some(ips) => Some(ips@),
                None => None,
            },
        ),
        out.1 == !(root is Some && root->Some_0@.len() > 0),
{
    let (addresses, unresolved): (Vec<Address>, bool) = match root {
        Some(ips) => {
            let unresolved = ips.len() == 0;
            (to_addresses(ips), unresolved)
        },
        None => (Vec::new(), true),
    };
    let report = RootDomain { name: target, subdomains, addresses };
    assert(report@.addresses =~= assembled(
        target@,
        subdomain_views(subdomains@),
        match root {
            Some(ips) => Some(ips@),
            None => None,
        },
    ).addresses);
    (report, unresolved)
}

} // verus!
