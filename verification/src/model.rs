use vstd::prelude::*;
use vstd::string::StrSliceExecFns;

use crate::cidr::Cidr;

verus! {

/// An administrative owner of overlay networks.
#[derive(Debug)]
pub struct Tenant {
    /// Server-assigned, unique, immutable; absent on a create request.
    pub tenant_id: Option<i32>,
    /// Non-empty, at most 255 characters, unique within the system.
    pub name: String,
    /// Base VNI from which per-tenant MAC-VRF VNIs are derived.
    pub mac_vrf_vni_base: i32,
}

/// A virtual routing-and-forwarding instance belonging to a tenant.
#[derive(Debug)]
pub struct Vrf {
    pub vrf_id: Option<i32>,
    /// Must resolve to an existing tenant.
    pub tenant_id: i32,
    /// Non-empty, at most 255 characters, unique within its tenant.
    pub name: String,
    /// Unique system-wide.
    pub vrf_vni: i32,
}

/// A switched virtual interface attached to a VLAN inside a VRF.
#[derive(Debug)]
pub struct Svi {
    pub svi_id: Option<i32>,
    /// Must resolve to an existing VRF.
    pub vrf_id: i32,
    /// In [1, 4094].
    pub vlan_id: i32,
    /// Non-empty, at most 255 characters, unique within its VRF.
    pub name: String,
    pub enabled: bool,
    pub ip_address_virtual: Option<Cidr>,
    /// Submitted as a sequence; stored as a set, canonically ordered.
    pub tags: Vec<String>,
}

/// Diagnostic record for a VTEP loopback allocation.
#[derive(Debug)]
pub struct VtepDiagnostic {
    pub vtep_id: Option<i32>,
    pub vrf_id: i32,
    pub loopback: i32,
    pub loopback_ip_range: Cidr,
}

/// The views of a tag list: each tag as its character sequence.
pub open spec fn tag_views(s: Seq<String>) -> Seq<Seq<char>> {
    s.map_values(|t: String| t@)
}

/// Mathematical value of an SVI: every field as a plain spec value.
pub ghost struct SviV {
    pub svi_id: Option<i32>,
    pub vrf_id: i32,
    pub vlan_id: i32,
    pub name: Seq<char>,
    pub enabled: bool,
    pub ip_address_virtual: Option<Cidr>,
    pub tags: Seq<Seq<char>>,
}

impl View for Svi {
    type V = SviV;

    open spec fn view(&self) -> SviV {
        SviV {
            svi_id: self.svi_id,
            vrf_id: self.vrf_id,
            vlan_id: self.vlan_id,
            name: self.name@,
            enabled: self.enabled,
            ip_address_virtual: self.ip_address_virtual,
            tags: tag_views(self.tags@),
        }
    }
}

pub open spec fn valid_name(s: Seq<char>) -> bool {
    1 <= s.len() <= 255
}

pub open spec fn valid_tag(s: Seq<char>) -> bool {
    1 <= s.len() <= 64
}

pub open spec fn valid_vlan(v: int) -> bool {
    1 <= v <= 4094
}

/// Field-level validity of a tenant body.
pub open spec fn tenant_ok(t: Tenant) -> bool {
    valid_name(t.name@)
}

/// Field-level validity of a VRF body.
pub open spec fn vrf_ok(v: Vrf) -> bool {
    valid_name(v.name@)
}

/// Field-level validity of an SVI body: name length, VLAN bound, tag
/// lengths, and a well-formed CIDR when one is present.
pub open spec fn svi_ok(s: Svi) -> bool {
    &&& valid_name(s.name@)
    &&& valid_vlan(s.vlan_id as int)
    &&& (s.ip_address_virtual matches Some(c) ==> c.wf())
    &&& forall|i: int| 0 <= i < s.tags@.len() ==> valid_tag(#[trigger] s.tags@[i]@)
}

impl Clone for Tenant {
    fn clone(&self) -> (r: Self)
        ensures
            r == *self,
    {
        Tenant {
            tenant_id: self.tenant_id,
            name: self.name.clone(),
            mac_vrf_vni_base: self.mac_vrf_vni_base,
        }
    }
}

impl Clone for Vrf {
    fn clone(&self) -> (r: Self)
        ensures
            r == *self,
    {
        Vrf {
            vrf_id: self.vrf_id,
            tenant_id: self.tenant_id,
            name: self.name.clone(),
            vrf_vni: self.vrf_vni,
        }
    }
}

/// Element-wise copy of a tag list; the view is preserved exactly.
pub fn clone_tags(v: &Vec<String>) -> (r: Vec<String>)
    ensures
        r@ == v@,
{
    let mut r: Vec<String> = Vec::new();
    let mut i: usize = 0;
    while i < v.len()
        invariant
            i <= v.len(),
            r@ == v@.subrange(0, i as int),
        decreases v.len() - i,
    {
        r.push(v[i].clone());
        proof {
            assert(r@ =~= v@.subrange(0, i + 1 as int));
        }
        i += 1;
    }
    proof {
        assert(r@ =~= v@);
    }
    r
}

impl Clone for Svi {
    fn clone(&self) -> (r: Self)
        ensures
            r@ == self@,
            r.tags@ == self.tags@,
    {
        Svi {
            svi_id: self.svi_id,
            vrf_id: self.vrf_id,
            vlan_id: self.vlan_id,
            name: self.name.clone(),
            enabled: self.enabled,
            ip_address_virtual: self.ip_address_virtual,
            tags: clone_tags(&self.tags),
        }
    }
}

/// Checks that a character count lies in [1, 255].
fn name_len_ok(s: &String) -> (r: bool)
    ensures
        r == valid_name(s@),
{
    let n = s.as_str().unicode_len();
    1 <= n && n <= 255
}

impl Tenant {
    /// Field-level validation, run before any store work.
    pub fn validate(&self) -> (r: bool)
        ensures
            r == tenant_ok(*self),
    {
        name_len_ok(&self.name)
    }
}

impl Vrf {
    /// Field-level validation, run before any store work.
    pub fn validate(&self) -> (r: bool)
        ensures
            r == vrf_ok(*self),
    {
        name_len_ok(&self.name)
    }
}

impl Svi {
    /// Field-level validation, run before any store work.
    pub fn validate(&self) -> (r: bool)
        ensures
            r == svi_ok(*self),
    {
        if !name_len_ok(&self.name) {
            return false;
        }
        if !(1 <= self.vlan_id && self.vlan_id <= 4094) {
            return false;
        }
        match self.ip_address_virtual {
            Some(c) => {
                let ok = match c {
                    Cidr::V4 { addr: _, prefix } => prefix <= 32,
                    Cidr::V6 { addr: _, prefix } => prefix <= 128,
                };
                if !ok {
                    return false;
                }
            },
            None => {},
        }
        let mut i: usize = 0;
        while i < self.tags.len()
            invariant
                i <= self.tags.len(),
                forall|j: int| 0 <= j < i ==> valid_tag(#[trigger] self.tags@[j]@),
            decreases self.tags.len() - i,
        {
            let n = self.tags[i].as_str().unicode_len();
            if n < 1 || n > 64 {
                return false;
            }
            i += 1;
        }
        true
    }
}

} // verus!
