use vstd::prelude::*;

use crate::errors::ApiError;
use crate::model::Svi;
use crate::model::Tenant;
use crate::model::Vrf;
use crate::model::svi_ok;
use crate::model::tenant_ok;
use crate::model::vrf_ok;
use crate::model::valid_tag;
use crate::tags::normalize_tags;
use crate::tags::tag_set;
use crate::tags::tags_sorted;

verus! {

/// The inventory: one table per entity, plus the next server-assigned id
/// of each. Rows are kept in ascending id order, so a listing is just a
/// copy of the table.
pub struct Inventory {
    pub(crate) tenants: Vec<Tenant>,
    pub(crate) vrfs: Vec<Vrf>,
    pub(crate) svis: Vec<Svi>,
    pub(crate) next_tenant_id: i32,
    pub(crate) next_vrf_id: i32,
    pub(crate) next_svi_id: i32,
}

pub open spec fn tid(t: Tenant) -> int {
    t.tenant_id.unwrap() as int
}

pub open spec fn vid(v: Vrf) -> int {
    v.vrf_id.unwrap() as int
}

pub open spec fn sid(s: Svi) -> int {
    s.svi_id.unwrap() as int
}

pub open spec fn has_tenant(s: Seq<Tenant>, id: i32) -> bool {
    exists|i: int| 0 <= i < s.len() && (#[trigger] s[i]).tenant_id == Some(id)
}

pub open spec fn tenant_index(s: Seq<Tenant>, id: i32) -> int {
    choose|i: int| 0 <= i < s.len() && (#[trigger] s[i]).tenant_id == Some(id)
}

pub open spec fn has_vrf(s: Seq<Vrf>, id: i32) -> bool {
    exists|i: int| 0 <= i < s.len() && (#[trigger] s[i]).vrf_id == Some(id)
}

pub open spec fn vrf_index(s: Seq<Vrf>, id: i32) -> int {
    choose|i: int| 0 <= i < s.len() && (#[trigger] s[i]).vrf_id == Some(id)
}

pub open spec fn has_svi(s: Seq<Svi>, id: i32) -> bool {
    exists|i: int| 0 <= i < s.len() && (#[trigger] s[i]).svi_id == Some(id)
}

pub open spec fn svi_index(s: Seq<Svi>, id: i32) -> int {
    choose|i: int| 0 <= i < s.len() && (#[trigger] s[i]).svi_id == Some(id)
}

/// Some tenant other than `excl` already holds this name.
pub open spec fn tenant_name_taken(s: Seq<Tenant>, name: Seq<char>, excl: Option<i32>) -> bool {
    exists|i: int|
        0 <= i < s.len() && (#[trigger] s[i]).name@ == name && s[i].tenant_id != excl
}

/// Some VRF of the same tenant, other than `excl`, already holds this name.
pub open spec fn vrf_name_taken(
    s: Seq<Vrf>,
    tenant_id: i32,
    name: Seq<char>,
    excl: Option<i32>,
) -> bool {
    exists|i: int|
        0 <= i < s.len() && (#[trigger] s[i]).tenant_id == tenant_id && s[i].name@ == name
            && s[i].vrf_id != excl
}

/// Some VRF other than `excl` already holds this VNI.
pub open spec fn vni_taken(s: Seq<Vrf>, vni: i32, excl: Option<i32>) -> bool {
    exists|i: int| 0 <= i < s.len() && (#[trigger] s[i]).vrf_vni == vni && s[i].vrf_id != excl
}

/// Some SVI of the same VRF, other than `excl`, already holds this name.
pub open spec fn svi_name_taken(
    s: Seq<Svi>,
    vrf_id: i32,
    name: Seq<char>,
    excl: Option<i32>,
) -> bool {
    exists|i: int|
        0 <= i < s.len() && (#[trigger] s[i]).vrf_id == vrf_id && s[i].name@ == name && s[i].svi_id
            != excl
}

/// Some VRF still references this tenant (FK restrict).
pub open spec fn vrf_refs_tenant(s: Seq<Vrf>, tenant_id: i32) -> bool {
    exists|i: int| 0 <= i < s.len() && (#[trigger] s[i]).tenant_id == tenant_id
}

/// Some SVI still references this VRF (FK restrict).
pub open spec fn svi_refs_vrf(s: Seq<Svi>, vrf_id: i32) -> bool {
    exists|i: int| 0 <= i < s.len() && (#[trigger] s[i]).vrf_id == vrf_id
}

/// Well-formedness of the tenant table: ids assigned and strictly
/// ascending, below the next free id, rows valid, names unique.
pub open spec fn tenant_rows_wf(s: Seq<Tenant>, next: int) -> bool {
    &&& 1 <= next
    &&& forall|i: int| 0 <= i < s.len() ==> (#[trigger] s[i]).tenant_id is Some
    &&& forall|i: int| 0 <= i < s.len() ==> tenant_ok(#[trigger] s[i])
    &&& forall|i: int| 0 <= i < s.len() ==> 1 <= tid(#[trigger] s[i]) < next
    &&& forall|i: int, j: int| 0 <= i < j < s.len() ==> tid(s[i]) < tid(s[j])
    &&& forall|i: int, j: int| 0 <= i < j < s.len() ==> s[i].name@ != s[j].name@
}

/// Well-formedness of the VRF table, against the tenant table it
/// references: ids as for tenants, names unique within a tenant, VNIs
/// unique system-wide, and every row's tenant resolves.
pub open spec fn vrf_rows_wf(s: Seq<Vrf>, next: int, tenants: Seq<Tenant>) -> bool {
    &&& 1 <= next
    &&& forall|i: int| 0 <= i < s.len() ==> (#[trigger] s[i]).vrf_id is Some
    &&& forall|i: int| 0 <= i < s.len() ==> vrf_ok(#[trigger] s[i])
    &&& forall|i: int| 0 <= i < s.len() ==> 1 <= vid(#[trigger] s[i]) < next
    &&& forall|i: int, j: int| 0 <= i < j < s.len() ==> vid(s[i]) < vid(s[j])
    &&& forall|i: int, j: int|
        0 <= i < j < s.len() && (#[trigger] s[i]).tenant_id == (#[trigger] s[j]).tenant_id
            ==> s[i].name@ != s[j].name@
    &&& forall|i: int, j: int| 0 <= i < j < s.len() ==> s[i].vrf_vni != s[j].vrf_vni
    &&& forall|i: int| 0 <= i < s.len() ==> has_tenant(tenants, (#[trigger] s[i]).tenant_id)
}

/// Well-formedness of the SVI table, against the VRF table it references.
/// Tag lists of stored rows are canonical.
pub open spec fn svi_rows_wf(s: Seq<Svi>, next: int, vrfs: Seq<Vrf>) -> bool {
    &&& 1 <= next
    &&& forall|i: int| 0 <= i < s.len() ==> (#[trigger] s[i]).svi_id is Some
    &&& forall|i: int| 0 <= i < s.len() ==> svi_ok(#[trigger] s[i])
    &&& forall|i: int| 0 <= i < s.len() ==> tags_sorted((#[trigger] s[i]).tags@)
    &&& forall|i: int| 0 <= i < s.len() ==> 1 <= sid(#[trigger] s[i]) < next
    &&& forall|i: int, j: int| 0 <= i < j < s.len() ==> sid(s[i]) < sid(s[j])
    &&& forall|i: int, j: int|
        0 <= i < j < s.len() && (#[trigger] s[i]).vrf_id == (#[trigger] s[j]).vrf_id
            ==> s[i].name@ != s[j].name@
    &&& forall|i: int| 0 <= i < s.len() ==> has_vrf(vrfs, (#[trigger] s[i]).vrf_id)
}

impl Inventory {
    pub closed spec fn tenants(&self) -> Seq<Tenant> {
        self.tenants@
    }

    pub closed spec fn vrfs(&self) -> Seq<Vrf> {
        self.vrfs@
    }

    pub closed spec fn svis(&self) -> Seq<Svi> {
        self.svis@
    }

    pub closed spec fn next_tenant_id(&self) -> i32 {
        self.next_tenant_id
    }

    pub closed spec fn next_vrf_id(&self) -> i32 {
        self.next_vrf_id
    }

    pub closed spec fn next_svi_id(&self) -> i32 {
        self.next_svi_id
    }

    /// The inventory invariant: every table well-formed, every foreign
    /// key resolving.
    pub open spec fn wf(&self) -> bool {
        &&& tenant_rows_wf(self.tenants(), self.next_tenant_id() as int)
        &&& vrf_rows_wf(self.vrfs(), self.next_vrf_id() as int, self.tenants())
        &&& svi_rows_wf(self.svis(), self.next_svi_id() as int, self.vrfs())
    }

    /// An empty inventory; the first created entity of each kind gets id 1.
    pub fn new() -> (inv: Inventory)
        ensures
            inv.wf(),
            inv.tenants().len() == 0,
            inv.vrfs().len() == 0,
            inv.svis().len() == 0,
            inv.next_tenant_id() == 1,
            inv.next_vrf_id() == 1,
            inv.next_svi_id() == 1,
    {
        Inventory {
            tenants: Vec::new(),
            vrfs: Vec::new(),
            svis: Vec::new(),
            next_tenant_id: 1,
            next_vrf_id: 1,
            next_svi_id: 1,
        }
    }
}

/// Both states hold exactly the same rows and counters.
pub open spec fn eq_state(a: Inventory, b: Inventory) -> bool {
    &&& a.tenants() == b.tenants()
    &&& a.vrfs() == b.vrfs()
    &&& a.svis() == b.svis()
    &&& a.next_tenant_id() == b.next_tenant_id()
    &&& a.next_vrf_id() == b.next_vrf_id()
    &&& a.next_svi_id() == b.next_svi_id()
}

/// In a well-formed tenant table an id occurs at one index only.
pub proof fn lemma_tenant_index_is(s: Seq<Tenant>, next: int, id: i32, i: int)
    requires
        tenant_rows_wf(s, next),
        0 <= i < s.len(),
        s[i].tenant_id == Some(id),
    ensures
        has_tenant(s, id),
        tenant_index(s, id) == i,
{
    assert(has_tenant(s, id));
    let k = tenant_index(s, id);
    if k < i {
        assert(tid(s[k]) < tid(s[i]));
        assert(false);
    } else if k > i {
        assert(tid(s[i]) < tid(s[k]));
        assert(false);
    }
}

/// In a well-formed VRF table an id occurs at one index only.
pub proof fn lemma_vrf_index_is(s: Seq<Vrf>, next: int, tenants: Seq<Tenant>, id: i32, i: int)
    requires
        vrf_rows_wf(s, next, tenants),
        0 <= i < s.len(),
        s[i].vrf_id == Some(id),
    ensures
        has_vrf(s, id),
        vrf_index(s, id) == i,
{
    assert(has_vrf(s, id));
    let k = vrf_index(s, id);
    if k < i {
        assert(vid(s[k]) < vid(s[i]));
        assert(false);
    } else if k > i {
        assert(vid(s[i]) < vid(s[k]));
        assert(false);
    }
}

/// In a well-formed SVI table an id occurs at one index only.
pub proof fn lemma_svi_index_is(s: Seq<Svi>, next: int, vrfs: Seq<Vrf>, id: i32, i: int)
    requires
        svi_rows_wf(s, next, vrfs),
        0 <= i < s.len(),
        s[i].svi_id == Some(id),
    ensures
        has_svi(s, id),
        svi_index(s, id) == i,
{
    assert(has_svi(s, id));
    let k = svi_index(s, id);
    if k < i {
        assert(sid(s[k]) < sid(s[i]));
        assert(false);
    } else if k > i {
        assert(sid(s[i]) < sid(s[k]));
        assert(false);
    }
}



impl Inventory {
    /// Index of the tenant row holding `id`, if any.
    pub(crate) fn tenant_pos(&self, id: i32) -> (r: Option<usize>)
        requires
            self.wf(),
        ensures
            match r {
                Some(i) => has_tenant(self.tenants(), id) && i == tenant_index(self.tenants(), id)
                    && i < self.tenants().len() && self.tenants()[i as int].tenant_id == Some(id),
                None => !has_tenant(self.tenants(), id),
            },
    {
        let mut i: usize = 0;
        while i < self.tenants.len()
            invariant
                self.wf(),
                i <= self.tenants().len(),
                forall|j: int| 0 <= j < i ==> (#[trigger] self.tenants()[j]).tenant_id != Some(id),
            decreases self.tenants().len() - i,
        {
            let hit = match self.tenants[i].tenant_id {
                Some(rid) => rid == id,
                None => false,
            };
            if hit {
                proof {
                    lemma_tenant_index_is(
                        self.tenants(),
                        self.next_tenant_id() as int,
                        id,
                        i as int,
                    );
                }
                return Some(i);
            }
            i += 1;
        }
        None
    }

    /// Whether a tenant other than `excl` already holds `name`.
    fn tenant_name_in_use(&self, name: &String, excl: Option<i32>) -> (r: bool)
        ensures
            r == tenant_name_taken(self.tenants(), name@, excl),
    {
        let mut i: usize = 0;
        while i < self.tenants.len()
            invariant
                i <= self.tenants().len(),
                forall|j: int|
                    0 <= j < i ==> !((#[trigger] self.tenants()[j]).name@ == name@
                        && self.tenants()[j].tenant_id != excl),
            decreases self.tenants().len() - i,
        {
            let row = &self.tenants[i];
            let differs = match (row.tenant_id, excl) {
                (Some(a), Some(b)) => a != b,
                (Some(_), None) => true,
                (None, Some(_)) => true,
                (None, None) => false,
            };
            if differs && row.name == *name {
                return true;
            }
            i += 1;
        }
        false
    }

    /// Creates a tenant. The id in the body, if any, is ignored: the store
    /// assigns the next free id. Fails with `Validation` on a bad name,
    /// `Conflict` on a name already in use, `Database` when the id space
    /// is exhausted; on failure the state is unchanged.
    pub fn create_tenant(&mut self, t: Tenant) -> (r: Result<Tenant, ApiError>)
        requires
            old(self).wf(),
        ensures
            final(self).wf(),
            !tenant_ok(t) ==> ((r matches Err(e) && e is Validation) && eq_state(
                *final(self),
                *old(self),
            )),
            tenant_ok(t) && tenant_name_taken(old(self).tenants(), t.name@, None) ==> ((
            r matches Err(e) && e is Conflict) && eq_state(*final(self), *old(self))),
            tenant_ok(t) && !tenant_name_taken(old(self).tenants(), t.name@, None) && old(
                self,
            ).next_tenant_id() == i32::MAX ==> ((r matches Err(e) && e is Database) && eq_state(
                *final(self),
                *old(self),
            )),
            tenant_ok(t) && !tenant_name_taken(old(self).tenants(), t.name@, None) && old(
                self,
            ).next_tenant_id() < i32::MAX ==> {
                let row = (Tenant {
                    tenant_id: Some(old(self).next_tenant_id()),
                    name: t.name,
                    mac_vrf_vni_base: t.mac_vrf_vni_base,
                });
                &&& r == Ok::<Tenant, ApiError>(row)
                &&& final(self).tenants() == old(self).tenants().push(row)
                &&& final(self).next_tenant_id() == old(self).next_tenant_id() + 1
                &&& final(self).vrfs() == old(self).vrfs()
                &&& final(self).svis() == old(self).svis()
                &&& final(self).next_vrf_id() == old(self).next_vrf_id()
                &&& final(self).next_svi_id() == old(self).next_svi_id()
            },
    {
        if !t.validate() {
            return Err(ApiError::Validation("tenant name must be 1..=255 characters".to_owned()));
        }
        if self.tenant_name_in_use(&t.name, None) {
            return Err(ApiError::Conflict);
        }
        if self.next_tenant_id == i32::MAX {
            return Err(ApiError::Database("tenant id space exhausted".to_owned()));
        }
        let id = self.next_tenant_id;
        let row = Tenant { tenant_id: Some(id), name: t.name, mac_vrf_vni_base: t.mac_vrf_vni_base };
        let out = row.clone();
        let ghost olds = self.tenants();
        self.tenants.push(row);
        self.next_tenant_id = id + 1;
        proof {
            let s2 = self.tenants();
            assert forall|i: int| 0 <= i < olds.len() implies s2[i] == olds[i] by {}
            assert(s2[olds.len() as int].name@ == t.name@);
            assert forall|i: int, j: int| 0 <= i < j < s2.len() implies s2[i].name@
                != s2[j].name@ by {
                if j == olds.len() {
                    assert(olds[i].tenant_id is Some);
                    assert(olds[i].tenant_id != None::<i32>);
                }
            }
            assert forall|i: int| 0 <= i < self.vrfs().len() implies has_tenant(
                s2,
                (#[trigger] self.vrfs()[i]).tenant_id,
            ) by {
                let w = choose|w: int|
                    0 <= w < olds.len() && (#[trigger] olds[w]).tenant_id == Some(
                        self.vrfs()[i].tenant_id,
                    );
                assert(s2[w].tenant_id == Some(self.vrfs()[i].tenant_id));
            }
        }
        Ok(out)
    }

    /// Returns the tenant with this id, or `NotFound`.
    pub fn get_tenant(&self, id: i32) -> (r: Result<Tenant, ApiError>)
        requires
            self.wf(),
        ensures
            has_tenant(self.tenants(), id) ==> r == Ok::<Tenant, ApiError>(
                self.tenants()[tenant_index(self.tenants(), id)],
            ),
            !has_tenant(self.tenants(), id) ==> (r matches Err(e) && e is NotFound),
    {
        match self.tenant_pos(id) {
            Some(i) => Ok(self.tenants[i].clone()),
            None => Err(ApiError::NotFound),
        }
    }

    /// Replaces the mutable fields of the tenant addressed by `id`; the id
    /// in the path wins over any id in the body. `NotFound` when no row
    /// matches, `Conflict` when the new name belongs to another tenant;
    /// on failure the state is unchanged.
    pub fn update_tenant(&mut self, id: i32, t: Tenant) -> (r: Result<Tenant, ApiError>)
        requires
            old(self).wf(),
        ensures
            final(self).wf(),
            !tenant_ok(t) ==> ((r matches Err(e) && e is Validation) && eq_state(
                *final(self),
                *old(self),
            )),
            tenant_ok(t) && !has_tenant(old(self).tenants(), id) ==> ((r matches Err(e)
                && e is NotFound) && eq_state(*final(self), *old(self))),
            tenant_ok(t) && has_tenant(old(self).tenants(), id) && tenant_name_taken(
                old(self).tenants(),
                t.name@,
                Some(id),
            ) ==> ((r matches Err(e) && e is Conflict) && eq_state(*final(self), *old(self))),
            tenant_ok(t) && has_tenant(old(self).tenants(), id) && !tenant_name_taken(
                old(self).tenants(),
                t.name@,
                Some(id),
            ) ==> {
                let row = (Tenant {
                    tenant_id: Some(id),
                    name: t.name,
                    mac_vrf_vni_base: t.mac_vrf_vni_base,
                });
                &&& r == Ok::<Tenant, ApiError>(row)
                &&& final(self).tenants() == old(self).tenants().update(
                    tenant_index(old(self).tenants(), id),
                    row,
                )
                &&& final(self).vrfs() == old(self).vrfs()
                &&& final(self).svis() == old(self).svis()
                &&& final(self).next_tenant_id() == old(self).next_tenant_id()
                &&& final(self).next_vrf_id() == old(self).next_vrf_id()
                &&& final(self).next_svi_id() == old(self).next_svi_id()
            },
    {
        if !t.validate() {
            return Err(ApiError::Validation("tenant name must be 1..=255 characters".to_owned()));
        }
        let pos = self.tenant_pos(id);
        match pos {
            None => Err(ApiError::NotFound),
            Some(i) => {
                if self.tenant_name_in_use(&t.name, Some(id)) {
                    return Err(ApiError::Conflict);
                }
                let row = Tenant {
                    tenant_id: Some(id),
                    name: t.name,
                    mac_vrf_vni_base: t.mac_vrf_vni_base,
                };
                let out = row.clone();
                let ghost olds = self.tenants();
                self.tenants[i] = row;
                proof {
                    let s2 = self.tenants();
                    assert(s2 == olds.update(i as int, (Tenant {
                        tenant_id: Some(id),
                        name: t.name,
                        mac_vrf_vni_base: t.mac_vrf_vni_base,
                    })));
                    assert forall|x: int| 0 <= x < s2.len() implies tid(s2[x]) == tid(olds[x])
                        && (s2[x].tenant_id is Some) by {}
                    assert forall|x: int, y: int| 0 <= x < y < s2.len() implies s2[x].name@
                        != s2[y].name@ by {
                        if x == i as int {
                            assert(olds[y].tenant_id is Some);
                            if olds[y].name@ == t.name@ {
                                assert(tenant_name_taken(olds, t.name@, Some(id)));
                            }
                        } else if y == i as int {
                            assert(olds[x].tenant_id is Some);
                            if olds[x].name@ == t.name@ {
                                assert(tenant_name_taken(olds, t.name@, Some(id)));
                            }
                        }
                    }
                    assert forall|x: int| 0 <= x < self.vrfs().len() implies has_tenant(
                        s2,
                        (#[trigger] self.vrfs()[x]).tenant_id,
                    ) by {
                        let w = choose|w: int|
                            0 <= w < olds.len() && (#[trigger] olds[w]).tenant_id == Some(
                                self.vrfs()[x].tenant_id,
                            );
                        assert(s2[w].tenant_id == Some(self.vrfs()[x].tenant_id));
                    }
                }
                Ok(out)
            },
        }
    }

    /// Deletes the tenant addressed by `id`. `NotFound` when no row
    /// matches; `Validation` while any VRF still references it (FK
    /// restrict); on failure the state is unchanged.
    pub fn delete_tenant(&mut self, id: i32) -> (r: Result<(), ApiError>)
        requires
            old(self).wf(),
        ensures
            final(self).wf(),
            !has_tenant(old(self).tenants(), id) ==> ((r matches Err(e) && e is NotFound)
                && eq_state(*final(self), *old(self))),
            has_tenant(old(self).tenants(), id) && vrf_refs_tenant(old(self).vrfs(), id) ==> ((
            r matches Err(e) && e is Validation) && eq_state(*final(self), *old(self))),
            has_tenant(old(self).tenants(), id) && !vrf_refs_tenant(old(self).vrfs(), id) ==> {
                &&& r == Ok::<(), ApiError>(())
                &&& final(self).tenants() == old(self).tenants().remove(
                    tenant_index(old(self).tenants(), id),
                )
                &&& final(self).vrfs() == old(self).vrfs()
                &&& final(self).svis() == old(self).svis()
                &&& final(self).next_tenant_id() == old(self).next_tenant_id()
                &&& final(self).next_vrf_id() == old(self).next_vrf_id()
                &&& final(self).next_svi_id() == old(self).next_svi_id()
            },
    {
        let pos = self.tenant_pos(id);
        match pos {
            None => Err(ApiError::NotFound),
            Some(i) => {
                let mut k: usize = 0;
                while k < self.vrfs.len()
                    invariant
                        self.wf(),
                        has_tenant(self.tenants(), id),
                        i as int == tenant_index(self.tenants(), id),
                        i < self.tenants().len(),
                        self.tenants()[i as int].tenant_id == Some(id),
                        k <= self.vrfs().len(),
                        forall|j: int|
                            0 <= j < k ==> (#[trigger] self.vrfs()[j]).tenant_id != id,
                    decreases self.vrfs().len() - k,
                {
                    if self.vrfs[k].tenant_id == id {
                        return Err(ApiError::Validation(
                            "tenant is still referenced by a VRF".to_owned(),
                        ));
                    }
                    k += 1;
                }
                let ghost olds = self.tenants();
                self.tenants.remove(i);
                proof {
                    let s2 = self.tenants();
                    olds.remove_ensures(i as int);
                    assert(s2.len() == olds.len() - 1);
                    assert forall|x: int| 0 <= x < self.vrfs().len() implies has_tenant(
                        s2,
                        (#[trigger] self.vrfs()[x]).tenant_id,
                    ) by {
                        let w = choose|w: int|
                            0 <= w < olds.len() && (#[trigger] olds[w]).tenant_id == Some(
                                self.vrfs()[x].tenant_id,
                            );
                        assert(self.vrfs()[x].tenant_id != id);
                        assert(w != i as int);
                        if w < i as int {
                            assert(s2[w].tenant_id == Some(self.vrfs()[x].tenant_id));
                        } else {
                            assert(s2[w - 1] == olds[w]);
                            assert(s2[w - 1].tenant_id == Some(self.vrfs()[x].tenant_id));
                        }
                    }
                }
                Ok(())
            },
        }
    }

    /// All tenants, in ascending id order.
    pub fn list_tenants(&self) -> (r: Vec<Tenant>)
        requires
            self.wf(),
        ensures
            r@ == self.tenants(),
            forall|i: int, j: int| 0 <= i < j < r@.len() ==> tid(r@[i]) < tid(r@[j]),
    {
        let mut r: Vec<Tenant> = Vec::new();
        let mut i: usize = 0;
        while i < self.tenants.len()
            invariant
                i <= self.tenants().len(),
                r@ == self.tenants().subrange(0, i as int),
            decreases self.tenants().len() - i,
        {
            r.push(self.tenants[i].clone());
            proof {
                assert(r@ =~= self.tenants().subrange(0, i + 1 as int));
            }
            i += 1;
        }
        proof {
            assert(r@ =~= self.tenants());
        }
        r
    }
}



impl Inventory {
    /// Index of the VRF row holding `id`, if any.
    pub(crate) fn vrf_pos(&self, id: i32) -> (r: Option<usize>)
        requires
            self.wf(),
        ensures
            match r {
                Some(i) => has_vrf(self.vrfs(), id) && i == vrf_index(self.vrfs(), id)
                    && i < self.vrfs().len() && self.vrfs()[i as int].vrf_id == Some(id),
                None => !has_vrf(self.vrfs(), id),
            },
    {
        let mut i: usize = 0;
        while i < self.vrfs.len()
            invariant
                self.wf(),
                i <= self.vrfs().len(),
                forall|j: int| 0 <= j < i ==> (#[trigger] self.vrfs()[j]).vrf_id != Some(id),
            decreases self.vrfs().len() - i,
        {
            let hit = match self.vrfs[i].vrf_id {
                Some(rid) => rid == id,
                None => false,
            };
            if hit {
                proof {
                    lemma_vrf_index_is(
                        self.vrfs(),
                        self.next_vrf_id() as int,
                        self.tenants(),
                        id,
                        i as int,
                    );
                }
                return Some(i);
            }
            i += 1;
        }
        None
    }

    /// Whether a VRF of tenant `tenant_id`, other than `excl`, holds `name`.
    fn vrf_name_in_use(&self, tenant_id: i32, name: &String, excl: Option<i32>) -> (r: bool)
        ensures
            r == vrf_name_taken(self.vrfs(), tenant_id, name@, excl),
    {
        let mut i: usize = 0;
        while i < self.vrfs.len()
            invariant
                i <= self.vrfs().len(),
                forall|j: int|
                    0 <= j < i ==> !((#[trigger] self.vrfs()[j]).tenant_id == tenant_id
                        && self.vrfs()[j].name@ == name@ && self.vrfs()[j].vrf_id != excl),
            decreases self.vrfs().len() - i,
        {
            let row = &self.vrfs[i];
            let differs = match (row.vrf_id, excl) {
                (Some(a), Some(b)) => a != b,
                (Some(_), None) => true,
                (None, Some(_)) => true,
                (None, None) => false,
            };
            if differs && row.tenant_id == tenant_id && row.name == *name {
                return true;
            }
            i += 1;
        }
        false
    }

    /// Whether a VRF other than `excl` holds `vni`.
    fn vni_in_use(&self, vni: i32, excl: Option<i32>) -> (r: bool)
        ensures
            r == vni_taken(self.vrfs(), vni, excl),
    {
        let mut i: usize = 0;
        while i < self.vrfs.len()
            invariant
                i <= self.vrfs().len(),
                forall|j: int|
                    0 <= j < i ==> !((#[trigger] self.vrfs()[j]).vrf_vni == vni
                        && self.vrfs()[j].vrf_id != excl),
            decreases self.vrfs().len() - i,
        {
            let row = &self.vrfs[i];
            let differs = match (row.vrf_id, excl) {
                (Some(a), Some(b)) => a != b,
                (Some(_), None) => true,
                (None, Some(_)) => true,
                (None, None) => false,
            };
            if differs && row.vrf_vni == vni {
                return true;
            }
            i += 1;
        }
        false
    }

    /// Creates a VRF. Fails with `Validation` on a bad name or when the
    /// referenced tenant does not exist, `Conflict` when the name is taken
    /// within the tenant or the VNI is taken system-wide, `Database` when
    /// the id space is exhausted; on failure the state is unchanged.
    pub fn create_vrf(&mut self, v: Vrf) -> (r: Result<Vrf, ApiError>)
        requires
            old(self).wf(),
        ensures
            final(self).wf(),
            !vrf_ok(v) ==> ((r matches Err(e) && e is Validation) && eq_state(
                *final(self),
                *old(self),
            )),
            vrf_ok(v) && !has_tenant(old(self).tenants(), v.tenant_id) ==> ((r matches Err(e)
                && e is Validation) && eq_state(*final(self), *old(self))),
            vrf_ok(v) && has_tenant(old(self).tenants(), v.tenant_id) && (vrf_name_taken(
                old(self).vrfs(),
                v.tenant_id,
                v.name@,
                None,
            ) || vni_taken(old(self).vrfs(), v.vrf_vni, None)) ==> ((r matches Err(e)
                && e is Conflict) && eq_state(*final(self), *old(self))),
            vrf_ok(v) && has_tenant(old(self).tenants(), v.tenant_id) && !vrf_name_taken(
                old(self).vrfs(),
                v.tenant_id,
                v.name@,
                None,
            ) && !vni_taken(old(self).vrfs(), v.vrf_vni, None) && old(self).next_vrf_id()
                == i32::MAX ==> ((r matches Err(e) && e is Database) && eq_state(
                *final(self),
                *old(self),
            )),
            vrf_ok(v) && has_tenant(old(self).tenants(), v.tenant_id) && !vrf_name_taken(
                old(self).vrfs(),
                v.tenant_id,
                v.name@,
                None,
            ) && !vni_taken(old(self).vrfs(), v.vrf_vni, None) && old(self).next_vrf_id()
                < i32::MAX ==> {
                let row = (Vrf {
                    vrf_id: Some(old(self).next_vrf_id()),
                    tenant_id: v.tenant_id,
                    name: v.name,
                    vrf_vni: v.vrf_vni,
                });
                &&& r == Ok::<Vrf, ApiError>(row)
                &&& final(self).vrfs() == old(self).vrfs().push(row)
                &&& final(self).next_vrf_id() == old(self).next_vrf_id() + 1
                &&& final(self).tenants() == old(self).tenants()
                &&& final(self).svis() == old(self).svis()
                &&& final(self).next_tenant_id() == old(self).next_tenant_id()
                &&& final(self).next_svi_id() == old(self).next_svi_id()
            },
    {
        if !v.validate() {
            return Err(ApiError::Validation("vrf name must be 1..=255 characters".to_owned()));
        }
        if self.tenant_pos(v.tenant_id).is_none() {
            return Err(ApiError::Validation("referenced tenant does not exist".to_owned()));
        }
        if self.vrf_name_in_use(v.tenant_id, &v.name, None) {
            return Err(ApiError::Conflict);
        }
        if self.vni_in_use(v.vrf_vni, None) {
            return Err(ApiError::Conflict);
        }
        if self.next_vrf_id == i32::MAX {
            return Err(ApiError::Database("vrf id space exhausted".to_owned()));
        }
        let id = self.next_vrf_id;
        let row = Vrf { vrf_id: Some(id), tenant_id: v.tenant_id, name: v.name, vrf_vni: v.vrf_vni };
        let out = row.clone();
        let ghost olds = self.vrfs();
        self.vrfs.push(row);
        self.next_vrf_id = id + 1;
        proof {
            let s2 = self.vrfs();
            assert forall|i: int| 0 <= i < olds.len() implies s2[i] == olds[i] by {}
            assert forall|i: int, j: int|
                0 <= i < j < s2.len() && (#[trigger] s2[i]).tenant_id == (#[trigger] s2[j]).tenant_id
                    implies s2[i].name@ != s2[j].name@ by {
                if j == olds.len() {
                    assert(olds[i].vrf_id is Some);
                    assert(olds[i].vrf_id != None::<i32>);
                }
            }
            assert forall|i: int, j: int| 0 <= i < j < s2.len() implies s2[i].vrf_vni
                != s2[j].vrf_vni by {
                if j == olds.len() {
                    assert(olds[i].vrf_id is Some);
                    assert(olds[i].vrf_id != None::<i32>);
                }
            }
            assert forall|i: int| 0 <= i < self.svis().len() implies has_vrf(
                s2,
                (#[trigger] self.svis()[i]).vrf_id,
            ) by {
                let w = choose|w: int|
                    0 <= w < olds.len() && (#[trigger] olds[w]).vrf_id == Some(
                        self.svis()[i].vrf_id,
                    );
                assert(s2[w].vrf_id == Some(self.svis()[i].vrf_id));
            }
        }
        Ok(out)
    }

    /// Returns the VRF with this id, or `NotFound`.
    pub fn get_vrf(&self, id: i32) -> (r: Result<Vrf, ApiError>)
        requires
            self.wf(),
        ensures
            has_vrf(self.vrfs(), id) ==> r == Ok::<Vrf, ApiError>(
                self.vrfs()[vrf_index(self.vrfs(), id)],
            ),
            !has_vrf(self.vrfs(), id) ==> (r matches Err(e) && e is NotFound),
    {
        match self.vrf_pos(id) {
            Some(i) => Ok(self.vrfs[i].clone()),
            None => Err(ApiError::NotFound),
        }
    }

    /// Replaces the mutable fields of the VRF addressed by `id`; the id in
    /// the path wins over any id in the body. `NotFound` when no row
    /// matches, `Validation` when the new tenant does not exist,
    /// `Conflict` on a name or VNI already taken by another VRF; on
    /// failure the state is unchanged.
    pub fn update_vrf(&mut self, id: i32, v: Vrf) -> (r: Result<Vrf, ApiError>)
        requires
            old(self).wf(),
        ensures
            final(self).wf(),
            !vrf_ok(v) ==> ((r matches Err(e) && e is Validation) && eq_state(
                *final(self),
                *old(self),
            )),
            vrf_ok(v) && !has_vrf(old(self).vrfs(), id) ==> ((r matches Err(e) && e is NotFound)
                && eq_state(*final(self), *old(self))),
            vrf_ok(v) && has_vrf(old(self).vrfs(), id) && !has_tenant(
                old(self).tenants(),
                v.tenant_id,
            ) ==> ((r matches Err(e) && e is Validation) && eq_state(*final(self), *old(self))),
            vrf_ok(v) && has_vrf(old(self).vrfs(), id) && has_tenant(
                old(self).tenants(),
                v.tenant_id,
            ) && (vrf_name_taken(old(self).vrfs(), v.tenant_id, v.name@, Some(id)) || vni_taken(
                old(self).vrfs(),
                v.vrf_vni,
                Some(id),
            )) ==> ((r matches Err(e) && e is Conflict) && eq_state(*final(self), *old(self))),
            vrf_ok(v) && has_vrf(old(self).vrfs(), id) && has_tenant(
                old(self).tenants(),
                v.tenant_id,
            ) && !vrf_name_taken(old(self).vrfs(), v.tenant_id, v.name@, Some(id)) && !vni_taken(
                old(self).vrfs(),
                v.vrf_vni,
                Some(id),
            ) ==> {
                let row = (Vrf {
                    vrf_id: Some(id),
                    tenant_id: v.tenant_id,
                    name: v.name,
                    vrf_vni: v.vrf_vni,
                });
                &&& r == Ok::<Vrf, ApiError>(row)
                &&& final(self).vrfs() == old(self).vrfs().update(
                    vrf_index(old(self).vrfs(), id),
                    row,
                )
                &&& final(self).tenants() == old(self).tenants()
                &&& final(self).svis() == old(self).svis()
                &&& final(self).next_tenant_id() == old(self).next_tenant_id()
                &&& final(self).next_vrf_id() == old(self).next_vrf_id()
                &&& final(self).next_svi_id() == old(self).next_svi_id()
            },
    {
        if !v.validate() {
            return Err(ApiError::Validation("vrf name must be 1..=255 characters".to_owned()));
        }
        let pos = self.vrf_pos(id);
        match pos {
            None => Err(ApiError::NotFound),
            Some(i) => {
                if self.tenant_pos(v.tenant_id).is_none() {
                    return Err(ApiError::Validation("referenced tenant does not exist".to_owned()));
                }
                if self.vrf_name_in_use(v.tenant_id, &v.name, Some(id)) {
                    return Err(ApiError::Conflict);
                }
                if self.vni_in_use(v.vrf_vni, Some(id)) {
                    return Err(ApiError::Conflict);
                }
                let row = Vrf {
                    vrf_id: Some(id),
                    tenant_id: v.tenant_id,
                    name: v.name,
                    vrf_vni: v.vrf_vni,
                };
                let out = row.clone();
                let ghost olds = self.vrfs();
                self.vrfs[i] = row;
                proof {
                    let s2 = self.vrfs();
                    assert forall|x: int| 0 <= x < s2.len() implies vid(s2[x]) == vid(olds[x])
                        && (s2[x].vrf_id is Some) by {}
                    assert forall|x: int, y: int|
                        0 <= x < y < s2.len() && (#[trigger] s2[x]).tenant_id == (
                        #[trigger] s2[y]).tenant_id implies s2[x].name@ != s2[y].name@ by {
                        if x == i as int {
                            assert(olds[y].vrf_id is Some);
                            if olds[y].name@ == v.name@ && olds[y].tenant_id == v.tenant_id {
                                assert(vrf_name_taken(olds, v.tenant_id, v.name@, Some(id)));
                            }
                        } else if y == i as int {
                            assert(olds[x].vrf_id is Some);
                            if olds[x].name@ == v.name@ && olds[x].tenant_id == v.tenant_id {
                                assert(vrf_name_taken(olds, v.tenant_id, v.name@, Some(id)));
                            }
                        }
                    }
                    assert forall|x: int, y: int| 0 <= x < y < s2.len() implies s2[x].vrf_vni
                        != s2[y].vrf_vni by {
                        if x == i as int {
                            assert(olds[y].vrf_id is Some);
                            if olds[y].vrf_vni == v.vrf_vni {
                                assert(vni_taken(olds, v.vrf_vni, Some(id)));
                            }
                        } else if y == i as int {
                            assert(olds[x].vrf_id is Some);
                            if olds[x].vrf_vni == v.vrf_vni {
                                assert(vni_taken(olds, v.vrf_vni, Some(id)));
                            }
                        }
                    }
                    assert forall|x: int| 0 <= x < self.svis().len() implies has_vrf(
                        s2,
                        (#[trigger] self.svis()[x]).vrf_id,
                    ) by {
                        let w = choose|w: int|
                            0 <= w < olds.len() && (#[trigger] olds[w]).vrf_id == Some(
                                self.svis()[x].vrf_id,
                            );
                        assert(s2[w].vrf_id == Some(self.svis()[x].vrf_id));
                    }
                }
                Ok(out)
            },
        }
    }

    /// Deletes the VRF addressed by `id`. `NotFound` when no row matches;
    /// `Validation` while any SVI still references it (FK restrict); on
    /// failure the state is unchanged.
    pub fn delete_vrf(&mut self, id: i32) -> (r: Result<(), ApiError>)
        requires
            old(self).wf(),
        ensures
            final(self).wf(),
            !has_vrf(old(self).vrfs(), id) ==> ((r matches Err(e) && e is NotFound) && eq_state(
                *final(self),
                *old(self),
            )),
            has_vrf(old(self).vrfs(), id) && svi_refs_vrf(old(self).svis(), id) ==> ((
            r matches Err(e) && e is Validation) && eq_state(*final(self), *old(self))),
            has_vrf(old(self).vrfs(), id) && !svi_refs_vrf(old(self).svis(), id) ==> {
                &&& r == Ok::<(), ApiError>(())
                &&& final(self).vrfs() == old(self).vrfs().remove(vrf_index(old(self).vrfs(), id))
                &&& final(self).tenants() == old(self).tenants()
                &&& final(self).svis() == old(self).svis()
                &&& final(self).next_tenant_id() == old(self).next_tenant_id()
                &&& final(self).next_vrf_id() == old(self).next_vrf_id()
                &&& final(self).next_svi_id() == old(self).next_svi_id()
            },
    {
        let pos = self.vrf_pos(id);
        match pos {
            None => Err(ApiError::NotFound),
            Some(i) => {
                let mut k: usize = 0;
                while k < self.svis.len()
                    invariant
                        self.wf(),
                        has_vrf(self.vrfs(), id),
                        i as int == vrf_index(self.vrfs(), id),
                        i < self.vrfs().len(),
                        self.vrfs()[i as int].vrf_id == Some(id),
                        k <= self.svis().len(),
                        forall|j: int| 0 <= j < k ==> (#[trigger] self.svis()[j]).vrf_id != id,
                    decreases self.svis().len() - k,
                {
                    if self.svis[k].vrf_id == id {
                        return Err(ApiError::Validation(
                            "vrf is still referenced by an SVI".to_owned(),
                        ));
                    }
                    k += 1;
                }
                let ghost olds = self.vrfs();
                self.vrfs.remove(i);
                proof {
                    let s2 = self.vrfs();
                    olds.remove_ensures(i as int);
                    assert(s2.len() == olds.len() - 1);
                    assert forall|x: int| 0 <= x < self.svis().len() implies has_vrf(
                        s2,
                        (#[trigger] self.svis()[x]).vrf_id,
                    ) by {
                        let w = choose|w: int|
                            0 <= w < olds.len() && (#[trigger] olds[w]).vrf_id == Some(
                                self.svis()[x].vrf_id,
                            );
                        assert(self.svis()[x].vrf_id != id);
                        assert(w != i as int);
                        if w < i as int {
                            assert(s2[w].vrf_id == Some(self.svis()[x].vrf_id));
                        } else {
                            assert(s2[w - 1] == olds[w]);
                            assert(s2[w - 1].vrf_id == Some(self.svis()[x].vrf_id));
                        }
                    }
                }
                Ok(())
            },
        }
    }

    /// All VRFs, in ascending id order.
    pub fn list_vrfs(&self) -> (r: Vec<Vrf>)
        requires
            self.wf(),
        ensures
            r@ == self.vrfs(),
            forall|i: int, j: int| 0 <= i < j < r@.len() ==> vid(r@[i]) < vid(r@[j]),
    {
        let mut r: Vec<Vrf> = Vec::new();
        let mut i: usize = 0;
        while i < self.vrfs.len()
            invariant
                i <= self.vrfs().len(),
                r@ == self.vrfs().subrange(0, i as int),
            decreases self.vrfs().len() - i,
        {
            r.push(self.vrfs[i].clone());
            proof {
                assert(r@ =~= self.vrfs().subrange(0, i + 1 as int));
            }
            i += 1;
        }
        proof {
            assert(r@ =~= self.vrfs());
        }
        r
    }
}


/// How a stored SVI row relates to the submitted body: the path/server id
/// wins, scalar fields are copied, and the tag list is the canonical form
/// of the submitted tag sequence.
pub open spec fn svi_stored(row: Svi, id: i32, input: Svi) -> bool {
    &&& row.svi_id == Some(id)
    &&& row.vrf_id == input.vrf_id
    &&& row.vlan_id == input.vlan_id
    &&& row.name@ == input.name@
    &&& row.enabled == input.enabled
    &&& row.ip_address_virtual == input.ip_address_virtual
    &&& tags_sorted(row.tags@)
    &&& tag_set(row.tags@) == tag_set(input.tags@)
}

impl Inventory {
    /// Index of the SVI row holding `id`, if any.
    pub(crate) fn svi_pos(&self, id: i32) -> (r: Option<usize>)
        requires
            self.wf(),
        ensures
            match r {
                Some(i) => has_svi(self.svis(), id) && i == svi_index(self.svis(), id)
                    && i < self.svis().len() && self.svis()[i as int].svi_id == Some(id),
                None => !has_svi(self.svis(), id),
            },
    {
        let mut i: usize = 0;
        while i < self.svis.len()
            invariant
                self.wf(),
                i <= self.svis().len(),
                forall|j: int| 0 <= j < i ==> (#[trigger] self.svis()[j]).svi_id != Some(id),
            decreases self.svis().len() - i,
        {
            let hit = match self.svis[i].svi_id {
                Some(rid) => rid == id,
                None => false,
            };
            if hit {
                proof {
                    lemma_svi_index_is(
                        self.svis(),
                        self.next_svi_id() as int,
                        self.vrfs(),
                        id,
                        i as int,
                    );
                }
                return Some(i);
            }
            i += 1;
        }
        None
    }

    /// Whether an SVI of VRF `vrf_id`, other than `excl`, holds `name`.
    fn svi_name_in_use(&self, vrf_id: i32, name: &String, excl: Option<i32>) -> (r: bool)
        ensures
            r == svi_name_taken(self.svis(), vrf_id, name@, excl),
    {
        let mut i: usize = 0;
        while i < self.svis.len()
            invariant
                i <= self.svis().len(),
                forall|j: int|
                    0 <= j < i ==> !((#[trigger] self.svis()[j]).vrf_id == vrf_id
                        && self.svis()[j].name@ == name@ && self.svis()[j].svi_id != excl),
            decreases self.svis().len() - i,
        {
            let row = &self.svis[i];
            let differs = match (row.svi_id, excl) {
                (Some(a), Some(b)) => a != b,
                (Some(_), None) => true,
                (None, Some(_)) => true,
                (None, None) => false,
            };
            if differs && row.vrf_id == vrf_id && row.name == *name {
                return true;
            }
            i += 1;
        }
        false
    }

    /// Creates an SVI together with its tag set, atomically: on any
    /// failure nothing is stored. Fails with `Validation` on a bad body
    /// or a missing VRF, `Conflict` when the name is taken within the
    /// VRF, `Database` when the id space is exhausted. The stored tag
    /// list is the canonical (deduplicated, ascending) form of the
    /// submitted sequence.
    pub fn create_svi(&mut self, t: Svi) -> (r: Result<Svi, ApiError>)
        requires
            old(self).wf(),
        ensures
            final(self).wf(),
            !svi_ok(t) ==> ((r matches Err(e) && e is Validation) && eq_state(
                *final(self),
                *old(self),
            )),
            svi_ok(t) && !has_vrf(old(self).vrfs(), t.vrf_id) ==> ((r matches Err(e)
                && e is Validation) && eq_state(*final(self), *old(self))),
            svi_ok(t) && has_vrf(old(self).vrfs(), t.vrf_id) && svi_name_taken(
                old(self).svis(),
                t.vrf_id,
                t.name@,
                None,
            ) ==> ((r matches Err(e) && e is Conflict) && eq_state(*final(self), *old(self))),
            svi_ok(t) && has_vrf(old(self).vrfs(), t.vrf_id) && !svi_name_taken(
                old(self).svis(),
                t.vrf_id,
                t.name@,
                None,
            ) && old(self).next_svi_id() == i32::MAX ==> ((r matches Err(e) && e is Database)
                && eq_state(*final(self), *old(self))),
            svi_ok(t) && has_vrf(old(self).vrfs(), t.vrf_id) && !svi_name_taken(
                old(self).svis(),
                t.vrf_id,
                t.name@,
                None,
            ) && old(self).next_svi_id() < i32::MAX ==> {
                &&& final(self).svis().len() == old(self).svis().len() + 1
                &&& final(self).svis().subrange(0, old(self).svis().len() as int) == old(
                    self,
                ).svis()
                &&& svi_stored(final(self).svis().last(), old(self).next_svi_id(), t)
                &&& (r matches Ok(out) && out@ == final(self).svis().last()@)
                &&& final(self).next_svi_id() == old(self).next_svi_id() + 1
                &&& final(self).tenants() == old(self).tenants()
                &&& final(self).vrfs() == old(self).vrfs()
                &&& final(self).next_tenant_id() == old(self).next_tenant_id()
                &&& final(self).next_vrf_id() == old(self).next_vrf_id()
            },
    {
        if !t.validate() {
            return Err(ApiError::Validation("svi body failed field validation".to_owned()));
        }
        if self.vrf_pos(t.vrf_id).is_none() {
            return Err(ApiError::Validation("referenced vrf does not exist".to_owned()));
        }
        if self.svi_name_in_use(t.vrf_id, &t.name, None) {
            return Err(ApiError::Conflict);
        }
        if self.next_svi_id == i32::MAX {
            return Err(ApiError::Database("svi id space exhausted".to_owned()));
        }
        let id = self.next_svi_id;
        let tags = normalize_tags(&t.tags);
        let row = Svi {
            svi_id: Some(id),
            vrf_id: t.vrf_id,
            vlan_id: t.vlan_id,
            name: t.name,
            enabled: t.enabled,
            ip_address_virtual: t.ip_address_virtual,
            tags,
        };
        proof {
            lemma_tags_from_set(row.tags@, t.tags@);
        }
        let out = row.clone();
        let ghost olds = self.svis();
        self.svis.push(row);
        self.next_svi_id = id + 1;
        proof {
            let s2 = self.svis();
            assert forall|i: int| 0 <= i < olds.len() implies s2[i] == olds[i] by {}
            assert forall|i: int, j: int|
                0 <= i < j < s2.len() && (#[trigger] s2[i]).vrf_id == (#[trigger] s2[j]).vrf_id
                    implies s2[i].name@ != s2[j].name@ by {
                if j == olds.len() {
                    assert(olds[i].svi_id is Some);
                    assert(olds[i].svi_id != None::<i32>);
                }
            }
            assert(s2.subrange(0, olds.len() as int) =~= olds);
        }
        Ok(out)
    }

    /// Returns the SVI with this id, tags in canonical order, or
    /// `NotFound`.
    pub fn get_svi(&self, id: i32) -> (r: Result<Svi, ApiError>)
        requires
            self.wf(),
        ensures
            has_svi(self.svis(), id) ==> (r matches Ok(x) && x@ == self.svis()[svi_index(
                self.svis(),
                id,
            )]@),
            !has_svi(self.svis(), id) ==> (r matches Err(e) && e is NotFound),
    {
        match self.svi_pos(id) {
            Some(i) => Ok(self.svis[i].clone()),
            None => Err(ApiError::NotFound),
        }
    }

    /// Replaces the SVI addressed by `id`, its tag set as a whole; the id
    /// in the path wins over any id in the body. `NotFound` when no row
    /// matches, `Validation` on a bad body or a missing VRF, `Conflict`
    /// when the new name belongs to another SVI of the VRF; on failure
    /// the state is unchanged.
    pub fn update_svi(&mut self, id: i32, t: Svi) -> (r: Result<Svi, ApiError>)
        requires
            old(self).wf(),
        ensures
            final(self).wf(),
            !svi_ok(t) ==> ((r matches Err(e) && e is Validation) && eq_state(
                *final(self),
                *old(self),
            )),
            svi_ok(t) && !has_svi(old(self).svis(), id) ==> ((r matches Err(e) && e is NotFound)
                && eq_state(*final(self), *old(self))),
            svi_ok(t) && has_svi(old(self).svis(), id) && !has_vrf(old(self).vrfs(), t.vrf_id)
                ==> ((r matches Err(e) && e is Validation) && eq_state(*final(self), *old(self))),
            svi_ok(t) && has_svi(old(self).svis(), id) && has_vrf(old(self).vrfs(), t.vrf_id)
                && svi_name_taken(old(self).svis(), t.vrf_id, t.name@, Some(id)) ==> ((
            r matches Err(e) && e is Conflict) && eq_state(*final(self), *old(self))),
            svi_ok(t) && has_svi(old(self).svis(), id) && has_vrf(old(self).vrfs(), t.vrf_id)
                && !svi_name_taken(old(self).svis(), t.vrf_id, t.name@, Some(id)) ==> {
                &&& final(self).svis().len() == old(self).svis().len()
                &&& forall|j: int|
                    0 <= j < old(self).svis().len() && j != svi_index(old(self).svis(), id)
                        ==> final(self).svis()[j] == old(self).svis()[j]
                &&& svi_stored(final(self).svis()[svi_index(old(self).svis(), id)], id, t)
                &&& (r matches Ok(out) && out@ == final(self).svis()[svi_index(
                    old(self).svis(),
                    id,
                )]@)
                &&& final(self).tenants() == old(self).tenants()
                &&& final(self).vrfs() == old(self).vrfs()
                &&& final(self).next_tenant_id() == old(self).next_tenant_id()
                &&& final(self).next_vrf_id() == old(self).next_vrf_id()
                &&& final(self).next_svi_id() == old(self).next_svi_id()
            },
    {
        if !t.validate() {
            return Err(ApiError::Validation("svi body failed field validation".to_owned()));
        }
        let pos = self.svi_pos(id);
        match pos {
            None => Err(ApiError::NotFound),
            Some(i) => {
                if self.vrf_pos(t.vrf_id).is_none() {
                    return Err(ApiError::Validation("referenced vrf does not exist".to_owned()));
                }
                if self.svi_name_in_use(t.vrf_id, &t.name, Some(id)) {
                    return Err(ApiError::Conflict);
                }
                let tags = normalize_tags(&t.tags);
                let row = Svi {
                    svi_id: Some(id),
                    vrf_id: t.vrf_id,
                    vlan_id: t.vlan_id,
                    name: t.name,
                    enabled: t.enabled,
                    ip_address_virtual: t.ip_address_virtual,
                    tags,
                };
                proof {
                    lemma_tags_from_set(row.tags@, t.tags@);
                }
                let out = row.clone();
                let ghost olds = self.svis();
                self.svis[i] = row;
                proof {
                    let s2 = self.svis();
                    assert forall|x: int| 0 <= x < s2.len() implies sid(s2[x]) == sid(olds[x])
                        && (s2[x].svi_id is Some) by {}
                    assert forall|x: int, y: int|
                        0 <= x < y < s2.len() && (#[trigger] s2[x]).vrf_id == (
                        #[trigger] s2[y]).vrf_id implies s2[x].name@ != s2[y].name@ by {
                        if x == i as int {
                            assert(olds[y].svi_id is Some);
                            if olds[y].name@ == t.name@ && olds[y].vrf_id == t.vrf_id {
                                assert(svi_name_taken(olds, t.vrf_id, t.name@, Some(id)));
                            }
                        } else if y == i as int {
                            assert(olds[x].svi_id is Some);
                            if olds[x].name@ == t.name@ && olds[x].vrf_id == t.vrf_id {
                                assert(svi_name_taken(olds, t.vrf_id, t.name@, Some(id)));
                            }
                        }
                    }
                }
                Ok(out)
            },
        }
    }

    /// Deletes the SVI addressed by `id`; its tag set goes with it
    /// (cascade). `NotFound` when no row matches.
    pub fn delete_svi(&mut self, id: i32) -> (r: Result<(), ApiError>)
        requires
            old(self).wf(),
        ensures
            final(self).wf(),
            !has_svi(old(self).svis(), id) ==> ((r matches Err(e) && e is NotFound) && eq_state(
                *final(self),
                *old(self),
            )),
            has_svi(old(self).svis(), id) ==> {
                &&& r == Ok::<(), ApiError>(())
                &&& final(self).svis() == old(self).svis().remove(svi_index(old(self).svis(), id))
                &&& final(self).tenants() == old(self).tenants()
                &&& final(self).vrfs() == old(self).vrfs()
                &&& final(self).next_tenant_id() == old(self).next_tenant_id()
                &&& final(self).next_vrf_id() == old(self).next_vrf_id()
                &&& final(self).next_svi_id() == old(self).next_svi_id()
            },
    {
        let pos = self.svi_pos(id);
        match pos {
            None => Err(ApiError::NotFound),
            Some(i) => {
                let ghost olds = self.svis();
                self.svis.remove(i);
                proof {
                    olds.remove_ensures(i as int);
                }
                Ok(())
            },
        }
    }

    /// All SVIs, in ascending id order, tags in canonical order.
    pub fn list_svis(&self) -> (r: Vec<Svi>)
        requires
            self.wf(),
        ensures
            r@.len() == self.svis().len(),
            forall|i: int| 0 <= i < r@.len() ==> r@[i]@ == self.svis()[i]@,
            forall|i: int, j: int| 0 <= i < j < r@.len() ==> sid(r@[i]) < sid(r@[j]),
    {
        let mut r: Vec<Svi> = Vec::new();
        let mut i: usize = 0;
        while i < self.svis.len()
            invariant
                self.wf(),
                i <= self.svis().len(),
                r@.len() == i,
                forall|j: int| 0 <= j < i ==> r@[j]@ == self.svis()[j]@,
                forall|j: int| 0 <= j < i ==> r@[j].svi_id == self.svis()[j].svi_id,
            decreases self.svis().len() - i,
        {
            r.push(self.svis[i].clone());
            i += 1;
        }
        r
    }
}

/// Every tag of a canonicalized list is drawn from the submitted list,
/// so a valid submission yields a valid stored list.
proof fn lemma_tags_from_set(canon: Seq<String>, submitted: Seq<String>)
    requires
        tag_set(canon) == tag_set(submitted),
        forall|i: int| 0 <= i < submitted.len() ==> valid_tag(#[trigger] submitted[i]@),
    ensures
        forall|i: int| 0 <= i < canon.len() ==> valid_tag(#[trigger] canon[i]@),
{
    assert forall|i: int| 0 <= i < canon.len() implies valid_tag(#[trigger] canon[i]@) by {
        assert(tag_set(canon).contains(canon[i]@));
        let j = choose|j: int| 0 <= j < submitted.len() && submitted[j]@ == canon[i]@;
        assert(valid_tag(submitted[j]@));
    }
}

} // verus!
