use std::str::FromStr;

use tenant_network_api::cidr::Cidr;
use tenant_network_api::errors::ApiError;
use tenant_network_api::inventory::Inventory;
use tenant_network_api::model::Svi;
use tenant_network_api::model::Tenant;
use tenant_network_api::model::Vrf;

fn tenant(name: &str, base: i32) -> Tenant {
    Tenant { tenant_id: None, name: name.to_string(), mac_vrf_vni_base: base }
}

fn svi_with_vlan(vlan: i32) -> Svi {
    Svi {
        svi_id: None,
        vrf_id: 1,
        vlan_id: vlan,
        name: format!("vlan{}", vlan),
        enabled: false,
        ip_address_virtual: None,
        tags: Vec::new(),
    }
}

fn base_inventory() -> Inventory {
    let mut inv = Inventory::new();
    inv.create_tenant(tenant("acme", 10000)).unwrap();
    inv.create_vrf(Vrf { vrf_id: None, tenant_id: 1, name: "red".to_string(), vrf_vni: 5001 })
        .unwrap();
    inv
}

#[test]
fn vlan_bounds_are_enforced() {
    let mut inv = base_inventory();
    let err = inv.create_svi(svi_with_vlan(0)).unwrap_err();
    assert!(matches!(err, ApiError::Validation(_)));
    let err = inv.create_svi(svi_with_vlan(4095)).unwrap_err();
    assert!(matches!(err, ApiError::Validation(_)));
    assert!(inv.create_svi(svi_with_vlan(1)).is_ok());
    assert!(inv.create_svi(svi_with_vlan(4094)).is_ok());
}

#[test]
fn tenant_name_length_is_enforced() {
    let mut inv = Inventory::new();
    let err = inv.create_tenant(tenant("", 1)).unwrap_err();
    assert!(matches!(err, ApiError::Validation(_)));
    assert!(inv.create_tenant(tenant(&"a".repeat(255), 1)).is_ok());
    let err = inv.create_tenant(tenant(&"b".repeat(256), 1)).unwrap_err();
    assert!(matches!(err, ApiError::Validation(_)));
}

#[test]
fn tag_length_is_enforced() {
    let mut inv = base_inventory();
    let mut body = svi_with_vlan(100);
    body.tags = vec![String::new()];
    let err = inv.create_svi(body).unwrap_err();
    assert!(matches!(err, ApiError::Validation(_)));

    let mut body = svi_with_vlan(100);
    body.tags = vec!["t".repeat(65)];
    let err = inv.create_svi(body).unwrap_err();
    assert!(matches!(err, ApiError::Validation(_)));

    let mut body = svi_with_vlan(100);
    body.tags = vec!["t".repeat(64)];
    assert!(inv.create_svi(body).is_ok());
}

#[test]
fn cidr_parses_ipv4_and_ipv6() {
    let v4 = Cidr::parse("10.0.0.1/24").unwrap();
    assert_eq!(v4, Cidr::V4 { addr: 0x0A000001, prefix: 24 });
    let v6 = Cidr::parse("2001:db8::/64").unwrap();
    assert_eq!(v6, Cidr::V6 { addr: 0x2001_0db8_0000_0000_0000_0000_0000_0000, prefix: 64 });
}

#[test]
fn cidr_rejects_malformed_text() {
    let err = Cidr::parse("not-a-cidr").unwrap_err();
    assert!(matches!(err, ApiError::Validation(_)));
    assert!(Cidr::parse("10.0.0.1/33").is_err());
    assert!(Cidr::parse("2001:db8::/129").is_err());
    assert!(Cidr::parse("").is_err());
}

#[test]
fn cidr_agrees_with_ipnetwork() {
    // The trusted parse must mirror what ipnetwork itself reads.
    let net = ipnetwork::IpNetwork::from_str("192.168.7.0/26").unwrap();
    let parsed = Cidr::parse("192.168.7.0/26").unwrap();
    match (net, parsed) {
        (ipnetwork::IpNetwork::V4(n), Cidr::V4 { addr, prefix }) => {
            assert_eq!(addr, u32::from(n.ip()));
            assert_eq!(prefix, n.prefix());
        }
        _ => panic!("expected an IPv4 network on both sides"),
    }
}

#[test]
fn cidr_round_trips_through_an_svi() {
    let mut inv = base_inventory();
    let ip = Cidr::parse("10.0.0.1/24").unwrap();
    let mut body = svi_with_vlan(100);
    body.ip_address_virtual = Some(ip);
    inv.create_svi(body).unwrap();
    let got = inv.get_svi(1).unwrap();
    assert_eq!(got.ip_address_virtual, Some(ip));
    // The stored value renders back to the submitted text via ipnetwork.
    if let Some(Cidr::V4 { addr, prefix }) = got.ip_address_virtual {
        let net = ipnetwork::Ipv4Network::new(addr.into(), prefix).unwrap();
        assert_eq!(net.to_string(), "10.0.0.1/24");
    } else {
        panic!("expected an IPv4 network");
    }
}

#[test]
fn tag_sets_collapse_duplicates() {
    let mut inv = base_inventory();
    let mut body = svi_with_vlan(100);
    body.tags = vec!["a".to_string(), "b".to_string(), "a".to_string()];
    let created = inv.create_svi(body).unwrap();
    assert_eq!(created.tags, vec!["a".to_string(), "b".to_string()]);
    let got = inv.get_svi(1).unwrap();
    assert_eq!(got.tags, vec!["a".to_string(), "b".to_string()]);
}

#[test]
fn error_kinds_map_to_status_codes_and_messages() {
    let validation = ApiError::Validation("bad input".to_string());
    assert_eq!(validation.status_code(), 400);
    assert_eq!(validation.client_message(), "bad input");

    let not_found = ApiError::NotFound;
    assert_eq!(not_found.status_code(), 404);
    assert_eq!(not_found.client_message(), "Resource not found");

    let conflict = ApiError::Conflict;
    assert_eq!(conflict.status_code(), 409);
    assert_eq!(conflict.client_message(), "Conflict");

    let db = ApiError::Database("connection reset by peer".to_string());
    assert_eq!(db.status_code(), 500);
    // Store detail stays opaque to the client.
    assert_eq!(db.client_message(), "Internal server error");
}

#[test]
fn svi_validation_happens_before_any_write() {
    let mut inv = base_inventory();
    let mut body = svi_with_vlan(100);
    body.tags = vec!["ok".to_string(), "x".repeat(65)];
    assert!(inv.create_svi(body).is_err());
    // Nothing was stored: neither the SVI row nor any tag of it.
    assert!(inv.list_svis().is_empty());
    assert!(matches!(inv.get_svi(1).unwrap_err(), ApiError::NotFound));
}

#[test]
fn tag_order_is_by_code_point() {
    let mut inv = base_inventory();
    let mut body = svi_with_vlan(100);
    // "ä" (U+00E4) sorts after every ASCII letter; "ab" sorts before "abc".
    body.tags = vec!["ä".to_string(), "abc".to_string(), "ab".to_string(), "b".to_string()];
    let created = inv.create_svi(body).unwrap();
    assert_eq!(
        created.tags,
        vec!["ab".to_string(), "abc".to_string(), "b".to_string(), "ä".to_string()]
    );
}
