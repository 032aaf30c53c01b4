use tenant_network_api::cidr::Cidr;
use tenant_network_api::errors::ApiError;
use tenant_network_api::inventory::Inventory;
use tenant_network_api::model::Svi;
use tenant_network_api::model::Tenant;
use tenant_network_api::model::Vrf;

fn tenant(name: &str, base: i32) -> Tenant {
    Tenant { tenant_id: None, name: name.to_string(), mac_vrf_vni_base: base }
}

fn vrf(tenant_id: i32, name: &str, vni: i32) -> Vrf {
    Vrf { vrf_id: None, tenant_id, name: name.to_string(), vrf_vni: vni }
}

fn svi(vrf_id: i32, vlan: i32, name: &str, ip: Option<Cidr>, tags: &[&str]) -> Svi {
    Svi {
        svi_id: None,
        vrf_id,
        vlan_id: vlan,
        name: name.to_string(),
        enabled: true,
        ip_address_virtual: ip,
        tags: tags.iter().map(|t| t.to_string()).collect(),
    }
}

#[test]
fn s1_create_then_get_tenant() {
    let mut inv = Inventory::new();
    let created = inv.create_tenant(tenant("acme", 10000)).unwrap();
    assert_eq!(created.tenant_id, Some(1));
    assert_eq!(created.name, "acme");
    assert_eq!(created.mac_vrf_vni_base, 10000);
    let got = inv.get_tenant(1).unwrap();
    assert_eq!(got.tenant_id, Some(1));
    assert_eq!(got.name, "acme");
    assert_eq!(got.mac_vrf_vni_base, 10000);
}

#[test]
fn s2_create_vrf_with_missing_tenant_is_validation() {
    let mut inv = Inventory::new();
    let err = inv.create_vrf(vrf(999, "red", 5001)).unwrap_err();
    assert!(matches!(err, ApiError::Validation(_)));
    assert_eq!(err.status_code(), 400);
}

#[test]
fn s3_create_svi_with_tags_and_cidr() {
    let mut inv = Inventory::new();
    inv.create_tenant(tenant("acme", 10000)).unwrap();
    inv.create_vrf(vrf(1, "red", 5001)).unwrap();
    let ip = Cidr::parse("10.0.0.1/24").unwrap();
    let created = inv.create_svi(svi(1, 100, "web", Some(ip), &["prod", "edge", "prod"])).unwrap();
    assert_eq!(created.svi_id, Some(1));
    let got = inv.get_svi(1).unwrap();
    assert_eq!(got.tags, vec!["edge".to_string(), "prod".to_string()]);
    assert_eq!(got.ip_address_virtual, Some(ip));
    assert_eq!(got.vlan_id, 100);
    assert!(got.enabled);
}

#[test]
fn s4_delete_respects_fk_restrict_chain() {
    let mut inv = Inventory::new();
    inv.create_tenant(tenant("acme", 10000)).unwrap();
    inv.create_vrf(vrf(1, "red", 5001)).unwrap();
    inv.create_svi(svi(1, 100, "web", None, &[])).unwrap();

    let err = inv.delete_tenant(1).unwrap_err();
    assert!(matches!(err, ApiError::Validation(_)));
    assert_eq!(err.status_code(), 400);

    let err = inv.delete_vrf(1).unwrap_err();
    assert!(matches!(err, ApiError::Validation(_)));

    inv.delete_svi(1).unwrap();
    inv.delete_vrf(1).unwrap();
    inv.delete_tenant(1).unwrap();
    assert!(matches!(inv.get_tenant(1).unwrap_err(), ApiError::NotFound));
}

#[test]
fn s5_duplicate_tenant_name_conflicts() {
    let mut inv = Inventory::new();
    let first = inv.create_tenant(tenant("acme", 10000));
    let second = inv.create_tenant(tenant("acme", 20000));
    assert!(first.is_ok());
    let err = second.unwrap_err();
    assert!(matches!(err, ApiError::Conflict));
    assert_eq!(err.status_code(), 409);
}

#[test]
fn duplicate_vni_conflicts() {
    let mut inv = Inventory::new();
    inv.create_tenant(tenant("acme", 10000)).unwrap();
    inv.create_vrf(vrf(1, "red", 5001)).unwrap();
    let err = inv.create_vrf(vrf(1, "blue", 5001)).unwrap_err();
    assert!(matches!(err, ApiError::Conflict));
}

#[test]
fn duplicate_vrf_name_conflicts_within_tenant_only() {
    let mut inv = Inventory::new();
    inv.create_tenant(tenant("acme", 10000)).unwrap();
    inv.create_tenant(tenant("umbrella", 20000)).unwrap();
    inv.create_vrf(vrf(1, "red", 5001)).unwrap();
    let err = inv.create_vrf(vrf(1, "red", 5002)).unwrap_err();
    assert!(matches!(err, ApiError::Conflict));
    // Same name under another tenant is allowed.
    let ok = inv.create_vrf(vrf(2, "red", 5002)).unwrap();
    assert_eq!(ok.vrf_id, Some(2));
}

#[test]
fn duplicate_svi_name_conflicts_within_vrf_only() {
    let mut inv = Inventory::new();
    inv.create_tenant(tenant("acme", 10000)).unwrap();
    inv.create_vrf(vrf(1, "red", 5001)).unwrap();
    inv.create_vrf(vrf(1, "blue", 5002)).unwrap();
    inv.create_svi(svi(1, 100, "web", None, &[])).unwrap();
    let err = inv.create_svi(svi(1, 200, "web", None, &[])).unwrap_err();
    assert!(matches!(err, ApiError::Conflict));
    let ok = inv.create_svi(svi(2, 100, "web", None, &[])).unwrap();
    assert_eq!(ok.svi_id, Some(2));
}

#[test]
fn update_with_read_back_value_is_idempotent() {
    let mut inv = Inventory::new();
    inv.create_tenant(tenant("acme", 10000)).unwrap();
    inv.create_vrf(vrf(1, "red", 5001)).unwrap();
    let ip = Cidr::parse("2001:db8::/64").unwrap();
    inv.create_svi(svi(1, 100, "web", Some(ip), &["b", "a"])).unwrap();

    let got = inv.get_tenant(1).unwrap();
    let updated = inv.update_tenant(1, got).unwrap();
    let again = inv.get_tenant(1).unwrap();
    assert_eq!(updated.name, again.name);
    assert_eq!(updated.mac_vrf_vni_base, again.mac_vrf_vni_base);

    let got = inv.get_vrf(1).unwrap();
    let updated = inv.update_vrf(1, got).unwrap();
    assert_eq!(updated.vrf_id, Some(1));
    assert_eq!(updated.vrf_vni, 5001);

    let got = inv.get_svi(1).unwrap();
    let before_tags = got.tags.clone();
    let updated = inv.update_svi(1, got).unwrap();
    assert_eq!(updated.tags, before_tags);
    assert_eq!(updated.ip_address_virtual, Some(ip));
    let after = inv.get_svi(1).unwrap();
    assert_eq!(after.tags, vec!["a".to_string(), "b".to_string()]);
}

#[test]
fn update_replaces_fields_and_path_id_wins() {
    let mut inv = Inventory::new();
    inv.create_tenant(tenant("acme", 10000)).unwrap();
    let mut body = tenant("initech", 42);
    body.tenant_id = Some(77); // ignored: the path id wins
    let updated = inv.update_tenant(1, body).unwrap();
    assert_eq!(updated.tenant_id, Some(1));
    assert_eq!(updated.name, "initech");
    assert_eq!(updated.mac_vrf_vni_base, 42);
    assert!(matches!(inv.get_tenant(77).unwrap_err(), ApiError::NotFound));
}

#[test]
fn update_missing_row_is_not_found() {
    let mut inv = Inventory::new();
    let err = inv.update_tenant(1, tenant("acme", 1)).unwrap_err();
    assert!(matches!(err, ApiError::NotFound));
    assert_eq!(err.status_code(), 404);
}

#[test]
fn delete_is_terminal() {
    let mut inv = Inventory::new();
    inv.create_tenant(tenant("acme", 10000)).unwrap();
    inv.delete_tenant(1).unwrap();
    assert!(matches!(inv.get_tenant(1).unwrap_err(), ApiError::NotFound));
    assert!(matches!(inv.delete_tenant(1).unwrap_err(), ApiError::NotFound));
}

#[test]
fn list_tenants_is_ordered_by_id() {
    let mut inv = Inventory::new();
    inv.create_tenant(tenant("a", 1)).unwrap();
    inv.create_tenant(tenant("b", 2)).unwrap();
    inv.create_tenant(tenant("c", 3)).unwrap();
    inv.delete_tenant(2).unwrap();
    inv.create_tenant(tenant("d", 4)).unwrap();
    let ids: Vec<Option<i32>> = inv.list_tenants().iter().map(|t| t.tenant_id).collect();
    assert_eq!(ids, vec![Some(1), Some(3), Some(4)]);
}

#[test]
fn list_vrfs_and_svis() {
    let mut inv = Inventory::new();
    inv.create_tenant(tenant("acme", 10000)).unwrap();
    inv.create_vrf(vrf(1, "red", 5001)).unwrap();
    inv.create_vrf(vrf(1, "blue", 5002)).unwrap();
    inv.create_svi(svi(1, 100, "web", None, &[])).unwrap();
    let vrfs = inv.list_vrfs();
    assert_eq!(vrfs.len(), 2);
    assert_eq!(vrfs[0].vrf_id, Some(1));
    assert_eq!(vrfs[1].vrf_id, Some(2));
    let svis = inv.list_svis();
    assert_eq!(svis.len(), 1);
    assert_eq!(svis[0].name, "web");
}

#[test]
fn ids_are_not_reused_after_delete() {
    let mut inv = Inventory::new();
    inv.create_tenant(tenant("a", 1)).unwrap();
    inv.delete_tenant(1).unwrap();
    let second = inv.create_tenant(tenant("b", 2)).unwrap();
    assert_eq!(second.tenant_id, Some(2));
}

#[test]
fn update_replaces_the_tag_set_as_a_whole() {
    let mut inv = Inventory::new();
    inv.create_tenant(tenant("acme", 10000)).unwrap();
    inv.create_vrf(vrf(1, "red", 5001)).unwrap();
    inv.create_svi(svi(1, 100, "web", None, &["x", "y"])).unwrap();
    let updated = inv.update_svi(1, svi(1, 100, "web", None, &["c", "a", "c"])).unwrap();
    assert_eq!(updated.tags, vec!["a".to_string(), "c".to_string()]);
    let got = inv.get_svi(1).unwrap();
    assert_eq!(got.tags, vec!["a".to_string(), "c".to_string()]);
}

#[test]
fn update_vrf_to_missing_tenant_is_validation() {
    let mut inv = Inventory::new();
    inv.create_tenant(tenant("acme", 10000)).unwrap();
    inv.create_vrf(vrf(1, "red", 5001)).unwrap();
    let err = inv.update_vrf(1, vrf(42, "red", 5001)).unwrap_err();
    assert!(matches!(err, ApiError::Validation(_)));
    // The row is untouched.
    assert_eq!(inv.get_vrf(1).unwrap().tenant_id, 1);
}

#[test]
fn update_vrf_can_move_between_tenants() {
    let mut inv = Inventory::new();
    inv.create_tenant(tenant("acme", 10000)).unwrap();
    inv.create_tenant(tenant("umbrella", 20000)).unwrap();
    inv.create_vrf(vrf(1, "red", 5001)).unwrap();
    let moved = inv.update_vrf(1, vrf(2, "red", 5001)).unwrap();
    assert_eq!(moved.tenant_id, 2);
    // The old tenant is now deletable, the new one is not.
    assert!(inv.delete_tenant(1).is_ok());
    assert!(matches!(inv.delete_tenant(2).unwrap_err(), ApiError::Validation(_)));
}

#[test]
fn empty_inventory_reads() {
    let mut inv = Inventory::new();
    assert!(inv.list_tenants().is_empty());
    assert!(inv.list_vrfs().is_empty());
    assert!(inv.list_svis().is_empty());
    assert!(matches!(inv.get_tenant(1).unwrap_err(), ApiError::NotFound));
    assert!(matches!(inv.get_vrf(1).unwrap_err(), ApiError::NotFound));
    assert!(matches!(inv.get_svi(1).unwrap_err(), ApiError::NotFound));
    assert!(matches!(inv.delete_svi(1).unwrap_err(), ApiError::NotFound));
}
