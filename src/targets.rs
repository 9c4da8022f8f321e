//! Startup check of the configured targets: each must be an IP literal or a
//! domain name, else startup fails before any monitor runs.
use crate::configs::AddressConfig;
use vstd::prelude::*;

verus! {

/// Whether a text parses as a domain name under the public suffix list.
pub uninterp spec fn parses_as_domain_name(s: Seq<char>) -> bool;

/// Relies on `addr::parse_domain_name`: its success or failure on a text.
/// The list of suffixes is compiled into that crate, so the answer depends
/// on the text alone.
#[verifier::external_body]
fn is_domain_name(address: &str) -> (r: bool)
    ensures
        r == parses_as_domain_name(address@),
{
    addr::parse_domain_name(address).is_ok()
}

/// How a valid target address is written.
#[derive(Debug, Clone, Copy, PartialEq, Eq, Structural)]
pub enum AddressKind {
    IpLiteral,
    DomainName,
}

/// A configuration that cannot be monitored.
#[derive(Debug, Clone, Copy, PartialEq, Eq, Structural)]
pub enum TargetError {
    /// The target at this index is neither an IP literal nor a domain name.
    InvalidAddress(usize),
}

/// The kind of an address, from whether it is an IP literal and whether it
/// is a domain name; an IP literal is taken as such first.
pub open spec fn kind_from(is_ip_literal: bool, is_domain_name: bool) -> Option<AddressKind> {
    if is_ip_literal {
        Some(AddressKind::IpLiteral)
    } else if is_domain_name {
        Some(AddressKind::DomainName)
    } else {
        None
    }
}

/// The kind of `address`, where `is_ip_literal` says whether it parses as
/// an IPv4 or IPv6 address.
pub open spec fn kind_of(address: Seq<char>, is_ip_literal: bool) -> Option<AddressKind> {
    kind_from(is_ip_literal, parses_as_domain_name(address))
}

/// Decides the kind of an address from the two parse results.
pub fn address_kind(is_ip_literal: bool, is_domain_name: bool) -> (r: Option<AddressKind>)
    ensures
        r == kind_from(is_ip_literal, is_domain_name),
{
    if is_ip_literal {
        Some(AddressKind::IpLiteral)
    } else if is_domain_name {
        Some(AddressKind::DomainName)
    } else {
        None
    }
}

/// The kind of `address`; `is_ip_literal` says whether it parses as an IPv4
/// or IPv6 address. The domain name parser runs only for other addresses.
pub fn classify_address(address: &str, is_ip_literal: bool) -> (r: Option<AddressKind>)
    ensures
        r == kind_of(address@, is_ip_literal),
{
    if is_ip_literal {
        address_kind(true, false)
    } else {
        address_kind(false, is_domain_name(address))
    }
}

/// Checks every target before any is monitored; `ip_literals[i]` says whether
/// the address of `targets[i]` parses as an IP address.
///
/// Succeeds, with each target's kind in order, exactly when every target is
/// valid; otherwise names the first invalid one.
pub fn validate_targets(targets: &Vec<AddressConfig>, ip_literals: &Vec<bool>) -> (r: Result<
    Vec<AddressKind>,
    TargetError,
>)
    requires
        ip_literals.len() == targets.len(),
    ensures
        r is Ok <==> forall|i: int|
            0 <= i < targets.len() ==> (#[trigger] kind_of(
                targets@[i].address@,
                ip_literals@[i],
            )) is Some,
        r is Ok ==> r->Ok_0@.len() == targets.len() && forall|i: int|
            0 <= i < targets.len() ==> Some(#[trigger] r->Ok_0@[i]) == kind_of(
                targets@[i].address@,
                ip_literals@[i],
            ),
        r matches Err(TargetError::InvalidAddress(i)) ==> {
            &&& i < targets.len()
            &&& kind_of(targets@[i as int].address@, ip_literals@[i as int]) is None
            &&& forall|j: int|
                0 <= j < i ==> (#[trigger] kind_of(
                    targets@[j].address@,
                    ip_literals@[j],
                )) is Some
        },
{
    let mut kinds: Vec<AddressKind> = Vec::new();
    let mut i: usize = 0;
    while i < targets.len()
        invariant
            i <= targets.len(),
            ip_literals.len() == targets.len(),
            kinds@.len() == i,
            forall|j: int|
                0 <= j < i ==> Some(#[trigger] kinds@[j]) == kind_of(
                    targets@[j].address@,
                    ip_literals@[j],
                ),
        decreases targets.len() - i,
    {
        match classify_address(targets[i].address.as_str(), ip_literals[i]) {
            Some(kind) => kinds.push(kind),
            None => {
                assert forall|j: int| 0 <= j < i implies (#[trigger] kind_of(
                    targets@[j].address@,
                    ip_literals@[j],
                )) is Some by {
                    assert(Some(kinds@[j]) == kind_of(targets@[j].address@, ip_literals@[j]));
                }
                return Err(TargetError::InvalidAddress(i));
            },
        }
        i += 1;
    }
    assert forall|j: int| 0 <= j < targets.len() implies (#[trigger] kind_of(
        targets@[j].address@,
        ip_literals@[j],
    )) is Some by {
        assert(Some(kinds@[j]) == kind_of(targets@[j].address@, ip_literals@[j]));
    }
    Ok(kinds)
}

} // verus!
