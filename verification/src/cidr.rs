use vstd::prelude::*;

use crate::errors::ApiError;

verus! {

/// An IP network in CIDR form, held as plain values: the address bits and
/// the prefix length.
#[derive(Clone, Copy, Debug, PartialEq, Eq, Structural)]
pub enum Cidr {
    V4 { addr: u32, prefix: u8 },
    V6 { addr: u128, prefix: u8 },
}

impl Cidr {
    /// A prefix length never exceeds the width of the address.
    pub open spec fn wf(self) -> bool {
        match self {
            Cidr::V4 { addr: _, prefix } => prefix <= 32,
            Cidr::V6 { addr: _, prefix } => prefix <= 128,
        }
    }
}

/// The network that `ipnetwork`'s CIDR grammar assigns to a string, if the
/// grammar accepts it; the result depends on the characters alone.
pub uninterp spec fn parsed_cidr(s: Seq<char>) -> Option<Cidr>;

/// Relies on `ipnetwork::IpNetwork::from_str`: parses CIDR notation
/// (IPv4 or IPv6), and accepts a prefix only up to the address width,
/// so every parsed network is well-formed.
#[verifier::external_body]
fn parse_ipnetwork(s: &str) -> (r: Option<Cidr>)
    ensures
        r == parsed_cidr(s@),
        r matches Some(c) ==> c.wf(),
{
    match s.parse::<ipnetwork::IpNetwork>() {
        Ok(ipnetwork::IpNetwork::V4(n)) => Some(Cidr::V4 {
            addr: u32::from(n.ip()),
            prefix: n.prefix(),
        }),
        Ok(ipnetwork::IpNetwork::V6(n)) => Some(Cidr::V6 {
            addr: u128::from(n.ip()),
            prefix: n.prefix(),
        }),
        Err(_) => None,
    }
}

impl Cidr {
    /// Parses CIDR text. A string the grammar refuses is a validation error.
    pub fn parse(s: &str) -> (r: Result<Cidr, ApiError>)
        ensures
            parsed_cidr(s@) matches Some(c) ==> r == Ok::<Cidr, ApiError>(c),
            parsed_cidr(s@) is None ==> (r matches Err(e) && e is Validation),
            r matches Ok(c) ==> c.wf(),
    {
        match parse_ipnetwork(s) {
            Some(c) => Ok(c),
            None => Err(ApiError::Validation("ip_address_virtual is not a valid CIDR".to_owned())),
        }
    }
}

} // verus!
