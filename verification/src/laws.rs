use vstd::prelude::*;

use crate::inventory::has_svi;
use crate::inventory::has_tenant;
use crate::inventory::has_vrf;
use crate::inventory::sid;
use crate::inventory::svi_index;
use crate::inventory::svi_name_taken;
use crate::inventory::svi_rows_wf;
use crate::inventory::svi_stored;
use crate::inventory::tenant_index;
use crate::inventory::tenant_name_taken;
use crate::inventory::tenant_rows_wf;
use crate::inventory::tid;
use crate::inventory::vid;
use crate::inventory::vni_taken;
use crate::inventory::vrf_index;
use crate::inventory::vrf_name_taken;
use crate::inventory::vrf_rows_wf;
use crate::model::Svi;
use crate::model::Tenant;
use crate::model::Vrf;
use crate::model::svi_ok;
use crate::model::tenant_ok;
use crate::model::vrf_ok;
use crate::tags::lemma_canonical_tags_unique;

verus! {

// ---------------------------------------------------------------------
// Create-then-get round-trip: a freshly created row is found again under
// the id the store assigned, and it is exactly the created row. Together
// with the `ensures` of `create_*` (which pin the pushed row) and of
// `get_*` (which pin the looked-up row), this is the round-trip law for
// each entity.
// ---------------------------------------------------------------------

/// After appending a tenant row with a fresh id, looking that id up
/// finds exactly the appended row.
pub proof fn lemma_create_then_get_tenant(pre: Seq<Tenant>, next: int, row: Tenant)
    requires
        tenant_rows_wf(pre, next),
        row.tenant_id is Some,
        next <= tid(row),
    ensures
        has_tenant(pre.push(row), row.tenant_id.unwrap()),
        tenant_index(pre.push(row), row.tenant_id.unwrap()) == pre.len(),
        pre.push(row)[tenant_index(pre.push(row), row.tenant_id.unwrap())] == row,
{
    let s2 = pre.push(row);
    let id = row.tenant_id.unwrap();
    assert(s2[pre.len() as int] == row);
    assert(has_tenant(s2, id));
    let k = tenant_index(s2, id);
    if k < pre.len() {
        assert(s2[k] == pre[k]);
        assert(tid(pre[k]) < next);
        assert(false);
    }
}

/// After appending a VRF row with a fresh id, looking that id up finds
/// exactly the appended row.
pub proof fn lemma_create_then_get_vrf(pre: Seq<Vrf>, next: int, tenants: Seq<Tenant>, row: Vrf)
    requires
        vrf_rows_wf(pre, next, tenants),
        row.vrf_id is Some,
        next <= vid(row),
    ensures
        has_vrf(pre.push(row), row.vrf_id.unwrap()),
        vrf_index(pre.push(row), row.vrf_id.unwrap()) == pre.len(),
        pre.push(row)[vrf_index(pre.push(row), row.vrf_id.unwrap())] == row,
{
    let s2 = pre.push(row);
    let id = row.vrf_id.unwrap();
    assert(s2[pre.len() as int] == row);
    assert(has_vrf(s2, id));
    let k = vrf_index(s2, id);
    if k < pre.len() {
        assert(s2[k] == pre[k]);
        assert(vid(pre[k]) < next);
        assert(false);
    }
}

/// After appending an SVI row with a fresh id, looking that id up finds
/// exactly the appended row.
pub proof fn lemma_create_then_get_svi(pre: Seq<Svi>, next: int, vrfs: Seq<Vrf>, row: Svi)
    requires
        svi_rows_wf(pre, next, vrfs),
        row.svi_id is Some,
        next <= sid(row),
    ensures
        has_svi(pre.push(row), row.svi_id.unwrap()),
        svi_index(pre.push(row), row.svi_id.unwrap()) == pre.len(),
        pre.push(row)[svi_index(pre.push(row), row.svi_id.unwrap())] == row,
{
    let s2 = pre.push(row);
    let id = row.svi_id.unwrap();
    assert(s2[pre.len() as int] == row);
    assert(has_svi(s2, id));
    let k = svi_index(s2, id);
    if k < pre.len() {
        assert(s2[k] == pre[k]);
        assert(sid(pre[k]) < next);
        assert(false);
    }
}

// ---------------------------------------------------------------------
// Idempotent replacement: feeding a read-back row into update leaves the
// stored entity unchanged. The lemmas show that the read-back row passes
// validation and the conflict checks, and that re-storing it reproduces
// the table (for SVIs: the same row up to re-allocation, by uniqueness
// of the canonical tag form).
// ---------------------------------------------------------------------

/// Updating a tenant with its own stored row is a no-op.
pub proof fn lemma_update_roundtrip_tenant(s: Seq<Tenant>, next: int, id: i32)
    requires
        tenant_rows_wf(s, next),
        has_tenant(s, id),
    ensures
        ({
            let i = tenant_index(s, id);
            let row = s[i];
            &&& tenant_ok(row)
            &&& row.tenant_id == Some(id)
            &&& !tenant_name_taken(s, row.name@, Some(id))
            &&& s.update(i, row) == s
        }),
{
    let i = tenant_index(s, id);
    let row = s[i];
    assert(!tenant_name_taken(s, row.name@, Some(id))) by {
        if tenant_name_taken(s, row.name@, Some(id)) {
            let j = choose|j: int|
                0 <= j < s.len() && (#[trigger] s[j]).name@ == row.name@ && s[j].tenant_id != Some(
                    id,
                );
            assert(j != i);
            assert(s[j].name@ != s[i].name@);
        }
    }
    assert(s.update(i, row) =~= s);
}

/// Updating a VRF with its own stored row is a no-op.
pub proof fn lemma_update_roundtrip_vrf(s: Seq<Vrf>, next: int, tenants: Seq<Tenant>, id: i32)
    requires
        vrf_rows_wf(s, next, tenants),
        has_vrf(s, id),
    ensures
        ({
            let i = vrf_index(s, id);
            let row = s[i];
            &&& vrf_ok(row)
            &&& row.vrf_id == Some(id)
            &&& has_tenant(tenants, row.tenant_id)
            &&& !vrf_name_taken(s, row.tenant_id, row.name@, Some(id))
            &&& !vni_taken(s, row.vrf_vni, Some(id))
            &&& s.update(i, row) == s
        }),
{
    let i = vrf_index(s, id);
    let row = s[i];
    assert(!vrf_name_taken(s, row.tenant_id, row.name@, Some(id))) by {
        if vrf_name_taken(s, row.tenant_id, row.name@, Some(id)) {
            let j = choose|j: int|
                0 <= j < s.len() && (#[trigger] s[j]).tenant_id == row.tenant_id && s[j].name@
                    == row.name@ && s[j].vrf_id != Some(id);
            assert(j != i);
            assert(s[j].name@ != s[i].name@);
        }
    }
    assert(!vni_taken(s, row.vrf_vni, Some(id))) by {
        if vni_taken(s, row.vrf_vni, Some(id)) {
            let j = choose|j: int|
                0 <= j < s.len() && (#[trigger] s[j]).vrf_vni == row.vrf_vni && s[j].vrf_id != Some(
                    id,
                );
            assert(j != i);
            assert(s[j].vrf_vni != s[i].vrf_vni);
        }
    }
    assert(s.update(i, row) =~= s);
}

/// Updating an SVI with its own stored row reproduces the stored value:
/// the row passes every check, and any row stored from it has the same
/// view — re-normalizing an already canonical tag list changes nothing.
pub proof fn lemma_update_roundtrip_svi(s: Seq<Svi>, next: int, vrfs: Seq<Vrf>, id: i32)
    requires
        svi_rows_wf(s, next, vrfs),
        has_svi(s, id),
    ensures
        ({
            let i = svi_index(s, id);
            let row = s[i];
            &&& svi_ok(row)
            &&& row.svi_id == Some(id)
            &&& has_vrf(vrfs, row.vrf_id)
            &&& !svi_name_taken(s, row.vrf_id, row.name@, Some(id))
            &&& forall|r2: Svi| svi_stored(r2, id, row) ==> r2@ == row@
        }),
{
    let i = svi_index(s, id);
    let row = s[i];
    assert(!svi_name_taken(s, row.vrf_id, row.name@, Some(id))) by {
        if svi_name_taken(s, row.vrf_id, row.name@, Some(id)) {
            let j = choose|j: int|
                0 <= j < s.len() && (#[trigger] s[j]).vrf_id == row.vrf_id && s[j].name@
                    == row.name@ && s[j].svi_id != Some(id);
            assert(j != i);
            assert(s[j].name@ != s[i].name@);
        }
    }
    assert forall|r2: Svi| svi_stored(r2, id, row) implies r2@ == row@ by {
        lemma_canonical_tags_unique(r2.tags@, row.tags@);
    }
}

// ---------------------------------------------------------------------
// Delete is terminal: once a row is removed, its id resolves to nothing,
// so a second get or delete answers NotFound by the operations'
// contracts.
// ---------------------------------------------------------------------

/// After removing the tenant row holding `id`, no row holds `id`.
pub proof fn lemma_delete_terminal_tenant(s: Seq<Tenant>, next: int, id: i32)
    requires
        tenant_rows_wf(s, next),
        has_tenant(s, id),
    ensures
        !has_tenant(s.remove(tenant_index(s, id)), id),
{
    let i = tenant_index(s, id);
    let s2 = s.remove(i);
    s.remove_ensures(i);
    assert forall|j: int| 0 <= j < s2.len() implies (#[trigger] s2[j]).tenant_id != Some(id) by {
        if j < i {
            assert(s2[j] == s[j]);
            if s[j].tenant_id == Some(id) {
                assert(tid(s[j]) < tid(s[i]));
            }
        } else {
            assert(s2[j] == s[j + 1]);
            if s[j + 1].tenant_id == Some(id) {
                assert(tid(s[i]) < tid(s[j + 1]));
            }
        }
    }
}

/// After removing the VRF row holding `id`, no row holds `id`.
pub proof fn lemma_delete_terminal_vrf(s: Seq<Vrf>, next: int, tenants: Seq<Tenant>, id: i32)
    requires
        vrf_rows_wf(s, next, tenants),
        has_vrf(s, id),
    ensures
        !has_vrf(s.remove(vrf_index(s, id)), id),
{
    let i = vrf_index(s, id);
    let s2 = s.remove(i);
    s.remove_ensures(i);
    assert forall|j: int| 0 <= j < s2.len() implies (#[trigger] s2[j]).vrf_id != Some(id) by {
        if j < i {
            assert(s2[j] == s[j]);
            if s[j].vrf_id == Some(id) {
                assert(vid(s[j]) < vid(s[i]));
            }
        } else {
            assert(s2[j] == s[j + 1]);
            if s[j + 1].vrf_id == Some(id) {
                assert(vid(s[i]) < vid(s[j + 1]));
            }
        }
    }
}

/// After removing the SVI row holding `id`, no row holds `id`.
pub proof fn lemma_delete_terminal_svi(s: Seq<Svi>, next: int, vrfs: Seq<Vrf>, id: i32)
    requires
        svi_rows_wf(s, next, vrfs),
        has_svi(s, id),
    ensures
        !has_svi(s.remove(svi_index(s, id)), id),
{
    let i = svi_index(s, id);
    let s2 = s.remove(i);
    s.remove_ensures(i);
    assert forall|j: int| 0 <= j < s2.len() implies (#[trigger] s2[j]).svi_id != Some(id) by {
        if j < i {
            assert(s2[j] == s[j]);
            if s[j].svi_id == Some(id) {
                assert(sid(s[j]) < sid(s[i]));
            }
        } else {
            assert(s2[j] == s[j + 1]);
            if s[j + 1].svi_id == Some(id) {
                assert(sid(s[i]) < sid(s[j + 1]));
            }
        }
    }
}

// ---------------------------------------------------------------------
// Uniqueness: once a create for a key has succeeded, a second create
// with the same key answers Conflict by the operations' contracts.
// Together with the error clauses of `create_*` this is the "exactly
// one of two identical creates succeeds" law, sequentialized in
// whichever order the store ran them.
// ---------------------------------------------------------------------

/// After a tenant row with this name is stored, the name is taken for
/// every later create.
pub proof fn lemma_tenant_name_conflict_after_create(s: Seq<Tenant>, row: Tenant, name: Seq<char>)
    requires
        row.tenant_id is Some,
        row.name@ == name,
    ensures
        tenant_name_taken(s.push(row), name, None),
{
    let s2 = s.push(row);
    assert(s2[s.len() as int] == row);
    assert(row.tenant_id != None::<i32>);
}

/// After a VRF row is stored, both its `(tenant, name)` pair and its VNI
/// are taken for every later create.
pub proof fn lemma_vrf_keys_conflict_after_create(s: Seq<Vrf>, row: Vrf)
    requires
        row.vrf_id is Some,
    ensures
        vrf_name_taken(s.push(row), row.tenant_id, row.name@, None),
        vni_taken(s.push(row), row.vrf_vni, None),
{
    let s2 = s.push(row);
    assert(s2[s.len() as int] == row);
    assert(row.vrf_id != None::<i32>);
}

/// After an SVI row is stored, its `(vrf, name)` pair is taken for every
/// later create.
pub proof fn lemma_svi_name_conflict_after_create(s: Seq<Svi>, row: Svi)
    requires
        row.svi_id is Some,
    ensures
        svi_name_taken(s.push(row), row.vrf_id, row.name@, None),
{
    let s2 = s.push(row);
    assert(s2[s.len() as int] == row);
    assert(row.svi_id != None::<i32>);
}

} // verus!
