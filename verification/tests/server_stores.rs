use management_sync::server::admin::{
    fetch_admin_config, upsert_admin_config_value, AdminConfigStore,
};
use management_sync::server::error::ApiErrorKind;
use management_sync::server::model::{AdminConfig, GeoResult, SyncRequest};
use management_sync::server::registry::{upsert_device, DeviceRegistry};
use management_sync::server::batch::apply_to_many;
use management_sync::server::snapshots::{insert_snapshot, SnapshotLog, LISTING_LIMIT};
use management_sync::time::Timestamp;
use serde_json::Value;

fn at(secs: i64) -> Timestamp {
    Timestamp::new(secs, 0).unwrap()
}

fn doc(text: &str) -> Value {
    serde_json::from_str(text).unwrap()
}

fn request(device_id: &str, app_version: Option<&str>) -> SyncRequest {
    SyncRequest {
        device_id: device_id.to_string(),
        app_version: app_version.map(|v| v.to_string()),
        applied_admin_version: None,
        snapshot: Value::Null,
        client_time: None,
    }
}

#[test]
fn upserting_a_device_twice_leaves_one_row() {
    let mut devices = DeviceRegistry::new();
    assert_eq!(devices.len(), 0);
    assert!(upsert_device(&mut devices, &request("dev-1", Some("1.0.0")), at(100), None, None).is_ok());
    assert!(upsert_device(&mut devices, &request("dev-1", Some("2.0.0")), at(200), None, None).is_ok());
    assert_eq!(devices.len(), 1);
    let row = devices.get("dev-1").unwrap();
    assert_eq!(row.device_id, "dev-1");
    assert_eq!(row.fingerprint_hash, "dev-1");
    assert_eq!(row.app_version.as_deref(), Some("2.0.0"));
    assert_eq!(row.created_at, at(100));
    assert_eq!(row.last_seen, at(200));
}

#[test]
fn upsert_overwrites_address_and_location() {
    let mut devices = DeviceRegistry::new();
    let geo = GeoResult {
        country: Some("DE".to_string()),
        region: Some("BE".to_string()),
        city: Some("Berlin".to_string()),
    };
    devices.upsert("d", "print", at(1), Some("10.0.0.1".to_string()), Some(geo), Some("1".to_string()));
    {
        let row = devices.get("d").unwrap();
        assert_eq!(row.fingerprint_hash, "print");
        assert_eq!(row.last_ip.as_deref(), Some("10.0.0.1"));
        assert_eq!(row.geo_country.as_deref(), Some("DE"));
        assert_eq!(row.geo_region.as_deref(), Some("BE"));
        assert_eq!(row.geo_city.as_deref(), Some("Berlin"));
    }
    devices.upsert("d", "other-print", at(2), None, None, None);
    let row = devices.get("d").unwrap();
    assert_eq!(row.fingerprint_hash, "print");
    assert_eq!(row.last_ip, None);
    assert_eq!(row.geo_country, None);
    assert_eq!(row.geo_region, None);
    assert_eq!(row.geo_city, None);
    assert_eq!(row.app_version, None);
    assert_eq!(row.created_at, at(1));
    assert_eq!(row.last_seen, at(2));
}

#[test]
fn registry_keeps_other_devices_apart() {
    let mut devices = DeviceRegistry::new();
    devices.upsert("a", "a", at(1), None, None, Some("1".to_string()));
    devices.upsert("b", "b", at(2), None, None, Some("2".to_string()));
    devices.upsert("a", "a", at(3), None, None, Some("3".to_string()));
    assert_eq!(devices.len(), 2);
    assert!(devices.contains("a"));
    assert!(devices.contains("b"));
    assert!(!devices.contains("c"));
    assert!(devices.get("c").is_none());
    assert_eq!(devices.row_at(0).device_id, "a");
    assert_eq!(devices.row_at(1).device_id, "b");
    assert_eq!(devices.get("b").unwrap().last_seen, at(2));
    assert_eq!(devices.get("b").unwrap().app_version.as_deref(), Some("2"));
    assert_eq!(devices.get("a").unwrap().created_at, at(1));
}

#[test]
fn snapshots_are_appended_and_numbered() {
    let mut log = SnapshotLog::new();
    assert_eq!(log.len(), 0);
    assert_eq!(log.append("a", doc("1"), at(10)).ok(), Some(1));
    assert_eq!(log.append("a", doc("1"), at(10)).ok(), Some(2));
    assert_eq!(log.append("b", doc("2"), at(11)).ok(), Some(3));
    assert!(insert_snapshot(&mut log, "a", &doc("3"), at(12)).is_ok());
    assert_eq!(log.len(), 4);
    assert_eq!(log.count_for("a"), 3);
    assert_eq!(log.count_for("b"), 1);
    assert_eq!(log.count_for("c"), 0);
    assert_eq!(log.last_at("a"), Some(at(12)));
    assert_eq!(log.last_at("b"), Some(at(11)));
    assert_eq!(log.last_at("c"), None);
}

#[test]
fn listing_is_newest_first() {
    let mut log = SnapshotLog::new();
    log.append("a", doc("\"first\""), at(30)).unwrap();
    log.append("b", doc("\"other\""), at(99)).unwrap();
    log.append("a", doc("\"second\""), at(10)).unwrap();
    log.append("a", doc("\"third\""), at(20)).unwrap();
    let items = log.list("a", LISTING_LIMIT);
    assert_eq!(items.len(), 3);
    assert_eq!(items[0].snapshot, doc("\"first\""));
    assert_eq!(items[0].created_at, at(30));
    assert_eq!(items[0].id, 1);
    assert_eq!(items[1].snapshot, doc("\"third\""));
    assert_eq!(items[1].id, 4);
    assert_eq!(items[2].snapshot, doc("\"second\""));
    assert_eq!(items[2].id, 3);
    assert!(log.list("nobody", LISTING_LIMIT).is_empty());
    assert!(log.list("a", 0).is_empty());
    let two = log.list("a", 2);
    assert_eq!(two.len(), 2);
    assert_eq!(two[0].id, 1);
    assert_eq!(two[1].id, 4);
}

#[test]
fn listing_is_capped_at_twenty() {
    let mut log = SnapshotLog::new();
    for i in 0..25 {
        log.append("a", Value::from(i), at(1000 + i)).unwrap();
    }
    assert_eq!(LISTING_LIMIT, 20);
    let items = log.list("a", LISTING_LIMIT);
    assert_eq!(items.len(), 20);
    for (place, item) in items.iter().enumerate() {
        let expected = 24 - place as i64;
        assert_eq!(item.snapshot, Value::from(expected));
        assert_eq!(item.created_at, at(1000 + expected));
        assert_eq!(item.id, expected + 1);
    }
    assert_eq!(log.count_for("a"), 25);
}

#[test]
fn admin_config_is_absent_before_any_write() {
    let store = AdminConfigStore::new();
    assert!(store.get("dev-1").is_none());
    assert!(fetch_admin_config(&store, "dev-1").unwrap().is_none());
}

#[test]
fn admin_config_reads_back_the_last_write() {
    let mut store = AdminConfigStore::new();
    assert_eq!(store.upsert_increment("dev-1", doc("{\"a\":1}"), at(5)).ok(), Some(1));
    {
        let row = store.get("dev-1").unwrap();
        assert_eq!(row.version, 1);
        assert_eq!(row.body, doc("{\"a\":1}"));
        assert_eq!(row.updated_at, at(5));
    }
    assert_eq!(store.upsert_increment("dev-1", doc("{\"a\":2}"), at(6)).ok(), Some(2));
    let row = store.get("dev-1").unwrap();
    assert_eq!(row.version, 2);
    assert_eq!(row.body, doc("{\"a\":2}"));
    assert_eq!(row.updated_at, at(6));
    let fetched = fetch_admin_config(&store, "dev-1").unwrap().unwrap();
    assert_eq!(fetched.version, 2);
    assert_eq!(fetched.config, doc("{\"a\":2}"));
    assert!(store.get("dev-2").is_none());
}

#[test]
fn version_counts_the_writes_whatever_the_document() {
    let mut store = AdminConfigStore::new();
    let same = doc("{\"same\":true}");
    for n in 1..=50i64 {
        let body = if n % 2 == 0 { same.clone() } else { Value::from(n) };
        assert_eq!(upsert_admin_config_value(&mut store, "dev-1", &body, at(n)).ok(), Some(n));
        assert_eq!(store.get("dev-1").unwrap().version, n);
    }
    assert_eq!(upsert_admin_config_value(&mut store, "dev-2", &same, at(1)).ok(), Some(1));
    assert_eq!(store.get("dev-1").unwrap().version, 50);
}

#[test]
fn batch_writes_only_known_devices() {
    let mut devices = DeviceRegistry::new();
    devices.upsert("known", "known", at(1), None, None, None);
    let mut store = AdminConfigStore::new();
    let ids = vec!["known".to_string(), "unknown".to_string()];
    let cfg = doc("{\"x\":1}");
    let updated = apply_to_many(&devices, &mut store, &ids, &cfg, at(9)).unwrap();
    assert_eq!(updated, 1);
    let row = store.get("known").unwrap();
    assert_eq!(row.version, 1);
    assert_eq!(row.body, cfg);
    assert_eq!(row.updated_at, at(9));
    assert!(store.get("unknown").is_none());
}

#[test]
fn batch_writes_each_named_device_once() {
    let mut devices = DeviceRegistry::new();
    for id in ["a", "b", "c"] {
        devices.upsert(id, id, at(1), None, None, None);
    }
    let mut store = AdminConfigStore::new();
    store.upsert_increment("b", doc("0"), at(2)).unwrap();
    let ids = vec!["c".to_string(), "b".to_string(), "c".to_string(), "zz".to_string()];
    let updated = apply_to_many(&devices, &mut store, &ids, &doc("1"), at(3)).unwrap();
    assert_eq!(updated, 2);
    assert!(store.get("a").is_none());
    assert_eq!(store.get("b").unwrap().version, 2);
    assert_eq!(store.get("c").unwrap().version, 1);
    assert_eq!(store.get("b").unwrap().body, doc("1"));
    let none = apply_to_many(&devices, &mut store, &Vec::new(), &doc("2"), at(4)).unwrap();
    assert_eq!(none, 0);
    assert_eq!(store.get("b").unwrap().version, 2);
}

#[test]
fn a_version_that_cannot_grow_fails_the_write() {
    let mut store = AdminConfigStore::new();
    assert!(!store.restore("d", AdminConfig { version: 0, body: doc("0"), updated_at: at(1) }));
    assert!(store.get("d").is_none());
    assert!(store.restore("d", AdminConfig { version: i64::MAX - 1, body: doc("1"), updated_at: at(1) }));
    assert_eq!(store.upsert_increment("d", doc("2"), at(2)).ok(), Some(i64::MAX));
    let e = store.upsert_increment("d", doc("3"), at(3)).unwrap_err();
    assert_eq!(e.kind, ApiErrorKind::Storage);
    assert_eq!(e.status(), 500);
    assert_eq!(e.message, "storage failure");
    let row = store.get("d").unwrap();
    assert_eq!(row.version, i64::MAX);
    assert_eq!(row.body, doc("2"));
    assert_eq!(row.updated_at, at(2));
}

#[test]
fn a_failing_batch_keeps_what_it_wrote_before() {
    let mut devices = DeviceRegistry::new();
    for id in ["a", "b", "c"] {
        devices.upsert(id, id, at(1), None, None, None);
    }
    let mut store = AdminConfigStore::new();
    assert!(store.restore("b", AdminConfig { version: i64::MAX, body: doc("0"), updated_at: at(1) }));
    let ids = vec!["a".to_string(), "b".to_string(), "c".to_string()];
    let e = apply_to_many(&devices, &mut store, &ids, &doc("1"), at(2)).unwrap_err();
    assert_eq!(e.kind, ApiErrorKind::Storage);
    assert_eq!(store.get("a").unwrap().version, 1);
    assert_eq!(store.get("a").unwrap().body, doc("1"));
    assert_eq!(store.get("b").unwrap().version, i64::MAX);
    assert_eq!(store.get("b").unwrap().body, doc("0"));
    assert!(store.get("c").is_none());
}

#[test]
fn storage_refusal_is_a_server_error() {
    let e = management_sync::server::error::ApiError::storage();
    assert_eq!(e.kind, ApiErrorKind::Storage);
    assert_eq!(e.status(), 500);
    assert_eq!(e.message, "storage failure");
}
