//! Client addresses, CIDR ranges, and the whitelist rule that grants scopes
//! by address.
use vstd::prelude::*;

use crate::auth::scopes::parse_scopes;
use crate::auth::scopes::scopes_granted;
use crate::auth::scopes::ScopeSet;
use crate::config::auth_view;
use crate::config::AuthConfig;
use crate::config::AuthRules;
use crate::config::WhitelistEntry;
use crate::config::WhitelistRule;

verus! {

/// An IP address: IPv4 as its 32 bits, IPv6 as its 128 bits, most
/// significant first.
#[derive(Clone, Copy, Debug, PartialEq, Eq, Structural)]
pub enum IpAddress {
    V4(u32),
    V6(u128),
}

/// Whether `ip` lies in the network `net/prefix`: both of one family, and
/// their leading `prefix` bits equal.
pub open spec fn in_network(net: IpAddress, prefix: nat, ip: IpAddress) -> bool {
    match (net, ip) {
        (IpAddress::V4(n), IpAddress::V4(a)) => prefix == 0 || (a >> ((32 - prefix) as u32)) == (n
            >> ((32 - prefix) as u32)),
        (IpAddress::V6(n), IpAddress::V6(a)) => prefix == 0 || (a >> ((128 - prefix) as u32)) == (n
            >> ((128 - prefix) as u32)),
        _ => false,
    }
}

/// The largest prefix length of an address family.
pub open spec fn max_prefix(net: IpAddress) -> nat {
    match net {
        IpAddress::V4(_) => 32,
        IpAddress::V6(_) => 128,
    }
}

/// A network in CIDR notation: an address and a prefix length no longer
/// than its family allows.
#[derive(Clone, Copy, Debug)]
pub struct Cidr {
    net: IpAddress,
    prefix_len: u8,
}

impl Cidr {
    #[verifier::type_invariant]
    spec fn wf(self) -> bool {
        self.prefix_len as nat <= max_prefix(self.net)
    }

    /// The address that the network was written with.
    pub closed spec fn address(self) -> IpAddress {
        self.net
    }

    /// The prefix length.
    pub closed spec fn prefix(self) -> nat {
        self.prefix_len as nat
    }

    /// Whether the network holds `ip`.
    pub open spec fn covers(self, ip: IpAddress) -> bool {
        in_network(self.address(), self.prefix(), ip)
    }

    /// The network `net/prefix_len`, or `None` where the prefix is longer
    /// than the family's address.
    pub fn new(net: IpAddress, prefix_len: u8) -> (r: Option<Cidr>)
        ensures
            r is Some <==> prefix_len as nat <= max_prefix(net),
            r matches Some(c) ==> c.address() == net && c.prefix() == prefix_len as nat,
    {
        let max: u8 = match net {
            IpAddress::V4(_) => 32,
            IpAddress::V6(_) => 128,
        };
        if prefix_len <= max {
            Some(Cidr { net, prefix_len })
        } else {
            None
        }
    }

    /// The address that the network was written with.
    pub fn addr(&self) -> (r: IpAddress)
        ensures
            r == self.address(),
    {
        self.net
    }

    /// The prefix length.
    pub fn prefix_len(&self) -> (r: u8)
        ensures
            r as nat == self.prefix(),
    {
        self.prefix_len
    }

    /// Whether the network holds `ip`.
    pub fn contains(&self, ip: &IpAddress) -> (r: bool)
        ensures
            r == self.covers(*ip),
    {
        proof {
            use_type_invariant(self);
        }
        let p = self.prefix_len;
        match (self.net, *ip) {
            (IpAddress::V4(n), IpAddress::V4(a)) => {
                if p == 0 {
                    true
                } else {
                    let k: u32 = (32 - p) as u32;
                    (a >> k) == (n >> k)
                }
            },
            (IpAddress::V6(n), IpAddress::V6(a)) => {
                if p == 0 {
                    true
                } else {
                    let k: u32 = (128 - p) as u32;
                    (a >> k) == (n >> k)
                }
            },
            _ => false,
        }
    }
}

/// Whether one of the entry's networks holds `ip`.
pub open spec fn entry_matches(e: WhitelistRule, ip: IpAddress) -> bool {
    exists|j: int| 0 <= j < e.cidrs.len() && (#[trigger] e.cidrs[j]).covers(ip)
}

/// The index of the first entry at or after `i` that matches `ip`.
pub open spec fn first_match_from(entries: Seq<WhitelistRule>, ip: IpAddress, i: int) -> Option<
    int,
>
    decreases entries.len() - i,
{
    if i < 0 || i >= entries.len() {
        None
    } else if entry_matches(entries[i], ip) {
        Some(i)
    } else {
        first_match_from(entries, ip, i + 1)
    }
}

/// The index of the first whitelist entry that matches `ip`.
pub open spec fn first_whitelist_match(entries: Seq<WhitelistRule>, ip: IpAddress) -> Option<
    int,
> {
    first_match_from(entries, ip, 0)
}

/// The models of a list of whitelist entries.
pub open spec fn rules_of(entries: Seq<WhitelistEntry>) -> Seq<WhitelistRule> {
    entries.map_values(|e: WhitelistEntry| e@)
}

/// Whether one of the networks of `e` holds `ip`.
pub fn entry_holds(e: &WhitelistEntry, ip: &IpAddress) -> (r: bool)
    ensures
        r == entry_matches(e@, *ip),
{
    let mut j: usize = 0;
    while j < e.cidrs.len()
        invariant
            j <= e.cidrs.len(),
            forall|k: int| 0 <= k < j ==> !(#[trigger] e.cidrs@[k]).covers(*ip),
        decreases e.cidrs.len() - j,
    {
        if e.cidrs[j].contains(ip) {
            assert(e@.cidrs[j as int].covers(*ip));
            return true;
        }
        j = j + 1;
    }
    false
}

/// The index of the first entry of `entries` whose networks hold `ip`.
pub fn find_whitelist_entry(entries: &Vec<WhitelistEntry>, ip: &IpAddress) -> (r: Option<usize>)
    ensures
        r matches Some(k) ==> first_whitelist_match(rules_of(entries@), *ip) == Some(k as int),
        r is None ==> first_whitelist_match(rules_of(entries@), *ip) is None,
        r matches Some(k) ==> k < entries.len(),
{
    let mut i: usize = 0;
    while i < entries.len()
        invariant
            i <= entries.len(),
            first_whitelist_match(rules_of(entries@), *ip) == first_match_from(
                rules_of(entries@),
                *ip,
                i as int,
            ),
        decreases entries.len() - i,
    {
        if entry_holds(&entries[i], ip) {
            return Some(i);
        }
        i = i + 1;
    }
    None
}

/// The scopes that the whitelist grants to `ip`: those of the first entry
/// whose networks hold it, or `None` where no entry does.
pub open spec fn whitelist_grant(auth: AuthRules, ip: IpAddress) -> Option<Set<Scope>> {
    match first_whitelist_match(auth.whitelist, ip) {
        Some(k) => Some(scopes_granted(auth.whitelist[k].scopes)),
        None => None,
    }
}

use crate::auth::scopes::Scope;

/// The scopes that the first whitelist entry holding `ip` grants, or
/// `None` where no entry holds it.
pub fn check_whitelist(auth: &AuthConfig, ip: &IpAddress) -> (r: Option<ScopeSet>)
    ensures
        r is Some <==> whitelist_grant(auth@, *ip) is Some,
        r matches Some(s) ==> Some(s@) == whitelist_grant(auth@, *ip),
{
    match find_whitelist_entry(&auth.whitelist, ip) {
        Some(k) => Some(parse_scopes(auth.whitelist[k].scopes.as_slice())),
        None => None,
    }
}

proof fn lemma_first_match_found(entries: Seq<WhitelistRule>, ip: IpAddress, start: int, i: int)
    requires
        0 <= start <= i < entries.len(),
        entry_matches(entries[i], ip),
    ensures
        first_match_from(entries, ip, start) matches Some(k) && start <= k <= i,
    decreases i - start,
{
    if !entry_matches(entries[start], ip) {
        lemma_first_match_found(entries, ip, start + 1, i);
    }
}

/// An entry holds an address that any one of its networks holds, the
/// first or any later one.
pub proof fn law_any_network_of_an_entry_matches(e: WhitelistRule, ip: IpAddress, j: int)
    requires
        0 <= j < e.cidrs.len(),
        e.cidrs[j].covers(ip),
    ensures
        entry_matches(e, ip),
{
}

/// An address that some network of some whitelist entry holds is granted
/// by the whitelist, by that entry or an earlier one.
pub proof fn law_covered_address_is_whitelisted(auth: AuthRules, ip: IpAddress, i: int, j: int)
    requires
        0 <= i < auth.whitelist.len(),
        0 <= j < auth.whitelist[i].cidrs.len(),
        auth.whitelist[i].cidrs[j].covers(ip),
    ensures
        whitelist_grant(auth, ip) is Some,
        first_whitelist_match(auth.whitelist, ip) matches Some(k) && k <= i,
{
    assert(entry_matches(auth.whitelist[i], ip));
    lemma_first_match_found(auth.whitelist, ip, 0, i);
}

} // verus!
