use management_sync::server::auth::{
    authorize_admin, authorize_bearer, basic_pair, extract_basic_auth, extract_bearer_token,
    parse_credentials, ServerConfig,
};
use management_sync::server::error::{ApiError, ApiErrorKind};
use management_sync::server::model::{
    AdminConfigItem, AdminConfigRequest, AdminConfigRow, BatchConfigRequest, GeoResult, SyncRequest,
};
use management_sync::server::origin::{
    extract_ip, find_name, flag_is_set, forwarded_candidate, forwarded_client, lookup_geo,
    CityRecord,
};
use management_sync::server::service::{
    admit_batch, admit_push, admit_sync, batch_admin_config, device_detail, get_device_detail,
    healthz, list_devices, summarise, sync_device, sync_reply, upsert_admin_config, AppState,
};
use management_sync::time::Timestamp;
use serde_json::Value;

fn at(secs: i64) -> Timestamp {
    Timestamp::new(secs, 0).unwrap()
}

fn doc(text: &str) -> Value {
    serde_json::from_str(text).unwrap()
}

fn config() -> ServerConfig {
    ServerConfig {
        sync_token: "sync-secret".to_string(),
        admin_token: "admin-secret".to_string(),
        admin_basic_user: Some("admin".to_string()),
        admin_basic_password: Some("s3cret".to_string()),
        trust_proxy: false,
    }
}

fn request(device_id: &str, snapshot: Value) -> SyncRequest {
    SyncRequest {
        device_id: device_id.to_string(),
        app_version: Some("3.1.4".to_string()),
        applied_admin_version: None,
        snapshot,
        client_time: Some("2024-01-01T00:00:00Z".to_string()),
    }
}

const SYNC: Option<&str> = Some("Bearer sync-secret");
const ADMIN: Option<&str> = Some("Bearer admin-secret");

fn refused(e: &ApiError, kind: ApiErrorKind, status: u16, message: &str) {
    assert_eq!(e.kind, kind);
    assert_eq!(e.status(), status);
    assert_eq!(e.message, message);
}

#[test]
fn health_check_says_ok() {
    assert_eq!(healthz(), "ok");
}

#[test]
fn bearer_must_match_exactly() {
    assert!(authorize_bearer(Some("Bearer t"), "t").is_ok());
    for header in [None, Some(""), Some("Bearer"), Some("Bearer "), Some("bearer t"), Some("Bearer t "), Some("Bearer  t"), Some("t")] {
        let e = authorize_bearer(header, "t").unwrap_err();
        refused(&e, ApiErrorKind::Authorization, 401, "unauthorized");
    }
    assert!(authorize_bearer(Some("Bearer "), "").is_ok());
    assert!(authorize_bearer(None, "").is_err());
}

#[test]
fn bearer_token_is_what_follows_the_scheme() {
    assert_eq!(extract_bearer_token(Some("Bearer abc def")), Some("abc def".to_string()));
    assert_eq!(extract_bearer_token(Some("Bearer ")), Some(String::new()));
    assert_eq!(extract_bearer_token(Some("Basic abc")), None);
    assert_eq!(extract_bearer_token(Some("Bearer")), None);
    assert_eq!(extract_bearer_token(None), None);
}

#[test]
fn basic_credentials_are_decoded() {
    assert_eq!(
        extract_basic_auth(Some("Basic dXNlcjpwYXNz")),
        Some(("user".to_string(), "pass".to_string()))
    );
    assert_eq!(
        extract_basic_auth(Some("Basic YWRtaW46czNjcmV0Ong=")),
        Some(("admin".to_string(), "s3cret:x".to_string()))
    );
    assert_eq!(
        extract_basic_auth(Some("Basic /zph")),
        Some(("\u{FFFD}".to_string(), "a".to_string()))
    );
    assert_eq!(extract_basic_auth(Some("Basic bm9jb2xvbg==")), None);
    assert_eq!(extract_basic_auth(Some("Basic !!!")), None);
    assert_eq!(extract_basic_auth(Some("Basic dXNlcjpwYXNz ")), None);
    assert_eq!(extract_basic_auth(Some("Bearer dXNlcjpwYXNz")), None);
    assert_eq!(extract_basic_auth(Some("basic dXNlcjpwYXNz")), None);
    assert_eq!(extract_basic_auth(None), None);
    assert_eq!(parse_credentials("a:b:c"), Some(("a".to_string(), "b:c".to_string())));
    assert_eq!(parse_credentials(":"), Some((String::new(), String::new())));
    assert_eq!(parse_credentials("ab"), None);
}

#[test]
fn operators_get_in_by_token_or_by_basic_pair() {
    let cfg = config();
    assert!(authorize_admin(ADMIN, &cfg).is_ok());
    assert!(authorize_admin(Some("Basic YWRtaW46czNjcmV0"), &cfg).is_ok());
    for header in [None, SYNC, Some("Bearer wrong"), Some("Basic dXNlcjpwYXNz"), Some("Basic !!!"), Some("admin-secret")] {
        let e = authorize_admin(header, &cfg).unwrap_err();
        refused(&e, ApiErrorKind::Authorization, 401, "unauthorized");
    }
    let mut no_basic = config();
    no_basic.admin_basic_password = None;
    assert!(authorize_admin(Some("Basic YWRtaW46czNjcmV0"), &no_basic).is_err());
    assert!(authorize_admin(ADMIN, &no_basic).is_ok());
}

#[test]
fn basic_pair_needs_both_parts() {
    let some = |s: &str| Some(s.to_string());
    assert_eq!(basic_pair(some("u"), some("p")), (some("u"), some("p")));
    assert_eq!(basic_pair(some("u"), None), (None, None));
    assert_eq!(basic_pair(None, some("p")), (None, None));
    assert_eq!(basic_pair(some(" "), some("p")), (None, None));
    assert_eq!(basic_pair(some("u"), some("")), (None, None));
    assert_eq!(basic_pair(None, None), (None, None));
}

#[test]
fn forwarded_address_is_the_first_entry() {
    assert_eq!(forwarded_client(" 203.0.113.7 , 10.0.0.1"), "203.0.113.7");
    assert_eq!(forwarded_client("203.0.113.7"), "203.0.113.7");
    assert_eq!(forwarded_client(""), "");
    assert_eq!(forwarded_candidate(true, Some("1.2.3.4, 5.6.7.8")), Some("1.2.3.4"));
    assert_eq!(forwarded_candidate(false, Some("1.2.3.4")), None);
    assert_eq!(forwarded_candidate(true, None), None);
    assert_eq!(
        extract_ip(Some("1.2.3.4".to_string()), "9.9.9.9".to_string()),
        Some("1.2.3.4".to_string())
    );
    assert_eq!(extract_ip(None, "9.9.9.9".to_string()), Some("9.9.9.9".to_string()));
    assert!(flag_is_set(Some("true")));
    assert!(!flag_is_set(Some("TRUE")));
    assert!(!flag_is_set(Some("1")));
    assert!(!flag_is_set(None));
}

#[test]
fn location_keeps_country_first_region_and_english_city() {
    let record = CityRecord {
        country_iso: Some("CN".to_string()),
        subdivision_isos: vec![Some("BJ".to_string()), Some("XX".to_string())],
        city_names: vec![
            ("de".to_string(), "Peking".to_string()),
            ("en".to_string(), "Beijing".to_string()),
            ("en".to_string(), "Other".to_string()),
        ],
    };
    let geo = lookup_geo(Some(&record)).unwrap();
    assert_eq!(geo.country.as_deref(), Some("CN"));
    assert_eq!(geo.region.as_deref(), Some("BJ"));
    assert_eq!(geo.city.as_deref(), Some("Beijing"));
    let bare = CityRecord { country_iso: None, subdivision_isos: vec![None], city_names: vec![] };
    let geo = lookup_geo(Some(&bare)).unwrap();
    assert_eq!(geo.country, None);
    assert_eq!(geo.region, None);
    assert_eq!(geo.city, None);
    let empty = CityRecord { country_iso: None, subdivision_isos: vec![], city_names: vec![] };
    assert_eq!(lookup_geo(Some(&empty)).unwrap().region, None);
    assert!(lookup_geo(None).is_none());
    assert_eq!(find_name(&record.city_names, "de"), Some("Peking".to_string()));
    assert_eq!(find_name(&record.city_names, "fr"), None);
}

#[test]
fn sync_is_refused_without_the_secret() {
    let mut state = AppState::new(config());
    for header in [None, ADMIN, Some("Bearer nope")] {
        let e = sync_device(&mut state, header, None, None, request("dev-1", Value::Null), at(1)).unwrap_err();
        refused(&e, ApiErrorKind::Authorization, 401, "unauthorized");
    }
    assert_eq!(state.devices.len(), 0);
    assert_eq!(state.snapshots.len(), 0);
    assert!(admit_sync(&state.config, SYNC, &request("dev-1", Value::Null)).is_ok());
}

#[test]
fn sync_needs_a_device_id() {
    let mut state = AppState::new(config());
    for id in ["", "   ", "\t\n"] {
        let e = sync_device(&mut state, SYNC, None, None, request(id, Value::Null), at(1)).unwrap_err();
        refused(&e, ApiErrorKind::Validation, 400, "device_id is required");
    }
    let e = sync_device(&mut state, None, None, None, request("", Value::Null), at(1)).unwrap_err();
    refused(&e, ApiErrorKind::Authorization, 401, "unauthorized");
    assert_eq!(state.devices.len(), 0);
    assert_eq!(state.snapshots.len(), 0);
}

#[test]
fn sync_records_the_device_and_logs_the_snapshot() {
    let mut state = AppState::new(config());
    let geo = GeoResult { country: Some("CN".to_string()), region: None, city: Some("Beijing".to_string()) };
    let body = doc("{\"codex\":{\"currentId\":\"p1\",\"providers\":{\"p1\":{\"id\":\"p1\"}}}}");
    let answer = sync_device(
        &mut state,
        SYNC,
        Some("203.0.113.7".to_string()),
        Some(geo),
        request("dev-1", body.clone()),
        at(1_704_067_200),
    )
    .unwrap();
    assert!(answer.ok);
    assert_eq!(answer.server_time, "2024-01-01T00:00:00+00:00");
    assert_eq!(answer.admin_config, None);
    assert_eq!(answer.admin_version, None);
    assert_eq!(state.devices.len(), 1);
    let row = state.devices.get("dev-1").unwrap();
    assert_eq!(row.fingerprint_hash, "dev-1");
    assert_eq!(row.last_ip.as_deref(), Some("203.0.113.7"));
    assert_eq!(row.geo_country.as_deref(), Some("CN"));
    assert_eq!(row.geo_region, None);
    assert_eq!(row.geo_city.as_deref(), Some("Beijing"));
    assert_eq!(row.app_version.as_deref(), Some("3.1.4"));
    assert_eq!(row.created_at, at(1_704_067_200));
    assert_eq!(state.snapshots.len(), 1);
    let listed = state.snapshots.list("dev-1", 20);
    assert_eq!(listed.len(), 1);
    assert_eq!(listed[0].snapshot, body);
}

#[test]
fn sync_hands_out_the_pushed_configuration() {
    let mut state = AppState::new(config());
    let pushed = doc("{\"gemini\":null}");
    let answer = upsert_admin_config(
        &mut state,
        ADMIN,
        "dev-1",
        AdminConfigRequest { config: pushed.clone() },
        at(5),
    )
    .unwrap();
    assert!(answer.ok);
    assert_eq!(answer.version, 1);
    let answer = upsert_admin_config(
        &mut state,
        ADMIN,
        "dev-1",
        AdminConfigRequest { config: pushed.clone() },
        at(6),
    )
    .unwrap();
    assert_eq!(answer.version, 2);
    let synced = sync_device(&mut state, SYNC, None, None, request("dev-1", Value::Null), at(7)).unwrap();
    assert_eq!(synced.admin_config, Some(pushed));
    assert_eq!(synced.admin_version, Some(2));
    let other = sync_device(&mut state, SYNC, None, None, request("dev-2", Value::Null), at(8)).unwrap();
    assert_eq!(other.admin_config, None);
    assert_eq!(other.admin_version, None);
    let reply = sync_reply(at(0), Some(AdminConfigRow { version: 9, config: doc("[1]") }));
    assert!(reply.ok);
    assert_eq!(reply.server_time, "1970-01-01T00:00:00+00:00");
    assert_eq!(reply.admin_version, Some(9));
    assert_eq!(reply.admin_config, Some(doc("[1]")));
}

#[test]
fn push_is_refused_for_strangers_and_blank_ids() {
    let mut state = AppState::new(config());
    let e = upsert_admin_config(&mut state, SYNC, "dev-1", AdminConfigRequest { config: Value::Null }, at(1)).unwrap_err();
    refused(&e, ApiErrorKind::Authorization, 401, "unauthorized");
    let e = upsert_admin_config(&mut state, ADMIN, "  ", AdminConfigRequest { config: Value::Null }, at(1)).unwrap_err();
    refused(&e, ApiErrorKind::Validation, 400, "device_id is required");
    let e = upsert_admin_config(&mut state, None, "  ", AdminConfigRequest { config: Value::Null }, at(1)).unwrap_err();
    refused(&e, ApiErrorKind::Authorization, 401, "unauthorized");
    assert!(state.admin_configs.get("dev-1").is_none());
    assert!(state.admin_configs.get("  ").is_none());
    assert!(admit_push(&state.config, ADMIN, "dev-1").is_ok());
    assert!(admit_push(&state.config, Some("Basic YWRtaW46czNjcmV0"), "dev-1").is_ok());
}

#[test]
fn batch_answers_with_the_number_written() {
    let mut state = AppState::new(config());
    sync_device(&mut state, SYNC, None, None, request("known", Value::Null), at(1)).unwrap();
    let cfg = doc("{\"k\":\"v\"}");
    let answer = batch_admin_config(
        &mut state,
        ADMIN,
        BatchConfigRequest { device_ids: vec!["known".to_string(), "unknown".to_string()], config: cfg.clone() },
        at(2),
    )
    .unwrap();
    assert!(answer.ok);
    assert_eq!(answer.updated, 1);
    assert_eq!(state.admin_configs.get("known").unwrap().version, 1);
    assert_eq!(state.admin_configs.get("known").unwrap().body, cfg);
    assert!(state.admin_configs.get("unknown").is_none());
    let answer = batch_admin_config(
        &mut state,
        ADMIN,
        BatchConfigRequest { device_ids: vec!["unknown".to_string()], config: cfg.clone() },
        at(3),
    )
    .unwrap();
    assert_eq!(answer.updated, 0);
}

#[test]
fn batch_is_refused_for_strangers_and_empty_lists() {
    let mut state = AppState::new(config());
    sync_device(&mut state, SYNC, None, None, request("known", Value::Null), at(1)).unwrap();
    let e = batch_admin_config(&mut state, ADMIN, BatchConfigRequest { device_ids: vec![], config: Value::Null }, at(2)).unwrap_err();
    refused(&e, ApiErrorKind::Validation, 400, "device_ids is required");
    let e = batch_admin_config(
        &mut state,
        SYNC,
        BatchConfigRequest { device_ids: vec!["known".to_string()], config: Value::Null },
        at(2),
    )
    .unwrap_err();
    refused(&e, ApiErrorKind::Authorization, 401, "unauthorized");
    assert!(state.admin_configs.get("known").is_none());
    let e = admit_batch(&state.config, None, &BatchConfigRequest { device_ids: vec![], config: Value::Null }).unwrap_err();
    refused(&e, ApiErrorKind::Authorization, 401, "unauthorized");
}

#[test]
fn devices_are_listed_last_seen_first() {
    let mut state = AppState::new(config());
    sync_device(&mut state, SYNC, None, None, request("old", doc("1")), at(100)).unwrap();
    sync_device(&mut state, SYNC, None, None, request("new", doc("2")), at(300)).unwrap();
    sync_device(&mut state, SYNC, None, None, request("mid", doc("3")), at(200)).unwrap();
    sync_device(&mut state, SYNC, None, None, request("mid", doc("4")), at(250)).unwrap();
    upsert_admin_config(&mut state, ADMIN, "mid", AdminConfigRequest { config: doc("{}") }, at(260)).unwrap();
    let list = list_devices(&state, ADMIN).unwrap();
    let ids: Vec<&str> = list.devices.iter().map(|d| d.device_id.as_str()).collect();
    assert_eq!(ids, vec!["new", "mid", "old"]);
    let mid = &list.devices[1];
    assert_eq!(mid.last_seen, Some(at(250)));
    assert_eq!(mid.created_at, Some(at(200)));
    assert_eq!(mid.snapshot_count, 2);
    assert_eq!(mid.last_snapshot_at, Some(at(250)));
    assert_eq!(mid.admin_version, Some(1));
    assert_eq!(mid.admin_updated_at, Some(at(260)));
    assert_eq!(mid.app_version.as_deref(), Some("3.1.4"));
    let old = &list.devices[2];
    assert_eq!(old.snapshot_count, 1);
    assert_eq!(old.admin_version, None);
    assert_eq!(old.admin_updated_at, None);
    let e = list_devices(&state, SYNC).unwrap_err();
    refused(&e, ApiErrorKind::Authorization, 401, "unauthorized");
    assert!(list_devices(&AppState::new(config()), ADMIN).unwrap().devices.is_empty());
}

#[test]
fn detail_shows_the_newest_twenty_snapshots() {
    let mut state = AppState::new(config());
    for i in 0..23i64 {
        sync_device(&mut state, SYNC, None, None, request("dev-1", Value::from(i)), at(1000 + i)).unwrap();
    }
    upsert_admin_config(&mut state, ADMIN, "dev-1", AdminConfigRequest { config: doc("[true]") }, at(2000)).unwrap();
    let detail = get_device_detail(&state, ADMIN, "dev-1").unwrap();
    assert_eq!(detail.device.device_id, "dev-1");
    assert_eq!(detail.device.snapshot_count, 23);
    assert_eq!(detail.device.last_snapshot_at, Some(at(1022)));
    assert_eq!(detail.device.last_seen, Some(at(1022)));
    assert_eq!(detail.device.created_at, Some(at(1000)));
    assert_eq!(detail.device.admin_version, Some(1));
    assert_eq!(detail.device.admin_updated_at, Some(at(2000)));
    assert_eq!(detail.snapshots.len(), 20);
    assert_eq!(detail.snapshots[0].snapshot, Value::from(22));
    assert_eq!(detail.snapshots[19].snapshot, Value::from(3));
    let admin = detail.admin_config.unwrap();
    assert_eq!(admin.version, 1);
    assert_eq!(admin.updated_at, at(2000));
    assert_eq!(admin.config, doc("[true]"));
}

#[test]
fn detail_of_an_unknown_device_is_not_found() {
    let mut state = AppState::new(config());
    sync_device(&mut state, SYNC, None, None, request("dev-1", Value::Null), at(1)).unwrap();
    let e = get_device_detail(&state, ADMIN, "dev-2").unwrap_err();
    refused(&e, ApiErrorKind::NotFound, 404, "device not found");
    let e = get_device_detail(&state, None, "dev-1").unwrap_err();
    refused(&e, ApiErrorKind::Authorization, 401, "unauthorized");
    let e = get_device_detail(&state, None, "dev-2").unwrap_err();
    refused(&e, ApiErrorKind::Authorization, 401, "unauthorized");
    let e = device_detail(None, 0, None, Vec::new(), None).unwrap_err();
    refused(&e, ApiErrorKind::NotFound, 404, "device not found");
}

#[test]
fn detail_is_put_together_from_its_parts() {
    let mut state = AppState::new(config());
    sync_device(&mut state, SYNC, Some("1.1.1.1".to_string()), None, request("dev-1", Value::Null), at(1)).unwrap();
    let row = state.devices.get("dev-1");
    let detail = device_detail(
        row,
        7,
        Some(at(55)),
        Vec::new(),
        Some(AdminConfigItem { version: 4, updated_at: at(66), config: doc("{}") }),
    )
    .unwrap();
    assert_eq!(detail.device.snapshot_count, 7);
    assert_eq!(detail.device.last_snapshot_at, Some(at(55)));
    assert_eq!(detail.device.admin_version, Some(4));
    assert_eq!(detail.device.admin_updated_at, Some(at(66)));
    assert_eq!(detail.device.last_ip.as_deref(), Some("1.1.1.1"));
    assert!(detail.snapshots.is_empty());
    let summary = summarise(state.devices.get("dev-1").unwrap(), 0, None, None);
    assert_eq!(summary.device_id, "dev-1");
    assert_eq!(summary.fingerprint_hash, "dev-1");
    assert_eq!(summary.admin_version, None);
    assert_eq!(summary.snapshot_count, 0);
}

#[test]
fn a_reported_snapshot_comes_back_as_sent() {
    let mut state = AppState::new(config());
    let earlier = doc("{\"codex\":null}");
    let body = doc("{\"codex\":{\"currentId\":\"p2\",\"providers\":{\"p1\":{\"id\":\"p1\",\"name\":\"One\"},\"p2\":{\"id\":\"p2\",\"name\":\"Two\"}}}}");
    sync_device(&mut state, SYNC, None, None, request("dev-1", earlier), at(10)).unwrap();
    sync_device(&mut state, SYNC, None, None, request("dev-1", body.clone()), at(20)).unwrap();
    let detail = get_device_detail(&state, ADMIN, "dev-1").unwrap();
    assert_eq!(detail.snapshots.len(), 2);
    assert_eq!(detail.snapshots[0].snapshot, body);
    assert_eq!(detail.snapshots[0].created_at, at(20));
    assert_eq!(detail.snapshots[0].id, 2);
}
