use indexmap::IndexMap;
use management_sync::client::error::{SyncError, SyncErrorKind};
use management_sync::client::identity::{derive_device_id, get_or_create_device_id, stored_device_id};
use management_sync::client::providers::{clone_provider, copy_providers, AppType, Provider, ProviderStore};
use management_sync::client::schedule::{
    advance, cancel, delay_until_next, failure_line, new_trigger, next_beijing_4am_delay,
    sync_on_start_flag, Trigger, TriggerAction, TriggerKind, TriggerPhase,
    STARTUP_SYNC_DELAY_SECS,
};
use management_sync::client::settings::{
    get_applied_admin_version, set_applied_admin_version, set_last_sync_at, Settings,
    SETTINGS_APPLIED_ADMIN_VERSION, SETTINGS_DEVICE_ID, SETTINGS_LAST_SYNC_AT,
};
use management_sync::client::snapshot::{
    apply_admin_config, apply_app_snapshot, collect_app_snapshot, collect_snapshot,
    AppProviderSnapshot, DeviceConfigSnapshot,
};
use management_sync::client::sync::{
    check_status, conclude, parse_failure, transport_failure, AppState, ManagementSyncService,
    SyncResponse,
};
use management_sync::time::{hour_today, Delay, Timestamp};
use serde_json::Value;

fn at(secs: i64) -> Timestamp {
    Timestamp::new(secs, 0).unwrap()
}

fn provider(id: &str, name: &str) -> Provider {
    Provider {
        id: id.to_string(),
        name: name.to_string(),
        settings_config: Value::String(format!("settings of {}", id)),
    }
}

fn pushed(current: Option<&str>, ids: &[&str]) -> AppProviderSnapshot {
    let mut providers = IndexMap::new();
    for id in ids {
        providers.insert(id.to_string(), provider(id, &id.to_uppercase()));
    }
    AppProviderSnapshot { current_id: current.map(|c| c.to_string()), providers }
}

fn ids_of(store: &ProviderStore, app: AppType) -> Vec<String> {
    store.get_all_providers(app).keys().cloned().collect()
}

fn failed(e: &SyncError, kind: SyncErrorKind, message: &str) {
    assert_eq!(e.kind, kind);
    assert_eq!(e.message, message);
    assert_eq!(e.to_text(), message);
}

fn store_with(app: AppType, current: &str, ids: &[&str]) -> ProviderStore {
    let mut store = ProviderStore::new();
    for id in ids {
        store.add(app, provider(id, id));
    }
    if !current.is_empty() {
        store.switch(app, current).unwrap();
    }
    store
}

#[test]
fn device_id_is_the_sha256_of_the_fingerprint_in_hex() {
    assert_eq!(
        derive_device_id("abc"),
        "ba7816bf8f01cfea414140de5dae2223b00361a396177a9cb410ff61f20015ad"
    );
    assert_eq!(
        derive_device_id(""),
        "e3b0c44298fc1c149afbf4c8996fb92427ae41e4649b934ca495991b7852b855"
    );
    assert_ne!(derive_device_id("abc"), "abc");
    assert_eq!(derive_device_id("machine-1").len(), 64);
}

#[test]
fn device_id_is_made_once_and_kept() {
    let mut db = Settings::new();
    assert_eq!(stored_device_id(&db), None);
    let id = get_or_create_device_id(&mut db, Ok("abc".to_string())).unwrap();
    assert_eq!(id, "ba7816bf8f01cfea414140de5dae2223b00361a396177a9cb410ff61f20015ad");
    assert_eq!(db.get_setting(SETTINGS_DEVICE_ID), Some(id.clone()));
    assert_eq!(stored_device_id(&db), Some(id.clone()));
    let again = get_or_create_device_id(&mut db, Ok("another machine".to_string())).unwrap();
    assert_eq!(again, id);
    let without = get_or_create_device_id(&mut db, Err("no permission".to_string())).unwrap();
    assert_eq!(without, id);
}

#[test]
fn blank_device_id_is_made_anew() {
    let mut db = Settings::new();
    db.set_setting(SETTINGS_DEVICE_ID, "   ");
    assert_eq!(stored_device_id(&db), None);
    let id = get_or_create_device_id(&mut db, Ok("abc".to_string())).unwrap();
    assert_eq!(id, derive_device_id("abc"));
    assert_eq!(db.get_setting(SETTINGS_DEVICE_ID), Some(id));
}

#[test]
fn unreadable_fingerprint_fails_the_round() {
    let mut db = Settings::new();
    let e = get_or_create_device_id(&mut db, Err("no permission".to_string())).unwrap_err();
    failed(&e, SyncErrorKind::HardwareFingerprint, "Failed to read hardware fingerprint: no permission");
    assert_eq!(db.get_setting(SETTINGS_DEVICE_ID), None);
}

#[test]
fn settings_hold_the_last_value_of_a_key() {
    let mut db = Settings::new();
    assert_eq!(db.get_setting("k"), None);
    db.set_setting("k", "1");
    db.set_setting("other", "x");
    db.set_setting("k", "2");
    assert_eq!(db.get_setting("k"), Some("2".to_string()));
    assert_eq!(db.get_setting("other"), Some("x".to_string()));
    assert_eq!(db.get_setting("K"), None);
    assert_eq!(SETTINGS_DEVICE_ID, "management_device_id");
    assert_eq!(SETTINGS_APPLIED_ADMIN_VERSION, "management_admin_version");
    assert_eq!(SETTINGS_LAST_SYNC_AT, "management_last_sync_at");
}

#[test]
fn applied_version_must_be_a_number_above_zero() {
    let mut db = Settings::new();
    assert_eq!(get_applied_admin_version(&db), None);
    set_applied_admin_version(&mut db, 12);
    assert_eq!(db.get_setting(SETTINGS_APPLIED_ADMIN_VERSION), Some("12".to_string()));
    assert_eq!(get_applied_admin_version(&db), Some(12));
    for (text, expected) in [
        ("0", None),
        ("-3", None),
        ("", None),
        ("abc", None),
        ("1.5", None),
        (" 4", None),
        ("+4", Some(4)),
        ("0007", Some(7)),
        ("9223372036854775807", Some(i64::MAX)),
        ("9223372036854775808", None),
    ] {
        db.set_setting(SETTINGS_APPLIED_ADMIN_VERSION, text);
        assert_eq!(get_applied_admin_version(&db), expected, "text {:?}", text);
    }
    set_applied_admin_version(&mut db, -5);
    assert_eq!(db.get_setting(SETTINGS_APPLIED_ADMIN_VERSION), Some("-5".to_string()));
    assert_eq!(get_applied_admin_version(&db), None);
}

#[test]
fn last_sync_is_recorded_as_rfc3339() {
    let mut db = Settings::new();
    set_last_sync_at(&mut db, Timestamp::new(1_704_067_200, 250_000).unwrap());
    assert_eq!(
        db.get_setting(SETTINGS_LAST_SYNC_AT),
        Some("2024-01-01T00:00:00.000250+00:00".to_string())
    );
}

#[test]
fn provider_store_adds_replaces_switches_and_deletes() {
    let mut store = ProviderStore::new();
    assert!(ids_of(&store, AppType::Codex).is_empty());
    assert_eq!(store.current(AppType::Codex), "");
    store.add(AppType::Codex, provider("a", "first"));
    store.add(AppType::Codex, provider("b", "second"));
    store.add(AppType::Codex, provider("a", "renamed"));
    assert_eq!(ids_of(&store, AppType::Codex), vec!["a", "b"]);
    assert_eq!(store.get_all_providers(AppType::Codex)["a"].name, "renamed");
    assert!(ids_of(&store, AppType::Gemini).is_empty());
    assert!(store.switch(AppType::Codex, "b").is_ok());
    assert_eq!(store.current(AppType::Codex), "b");
    let e = store.switch(AppType::Codex, "missing").unwrap_err();
    failed(&e, SyncErrorKind::ProviderStore, "Provider not found: missing");
    assert_eq!(store.current(AppType::Codex), "b");
    let e = store.switch(AppType::Gemini, "b").unwrap_err();
    assert_eq!(e.kind, SyncErrorKind::ProviderStore);
    store.delete_providers_by_app_type(AppType::Codex);
    assert!(ids_of(&store, AppType::Codex).is_empty());
    assert_eq!(store.current(AppType::Codex), "");
}

#[test]
fn providers_are_copied_in_order() {
    let source = pushed(None, &["z", "a", "m"]).providers;
    let copy = copy_providers(&source);
    assert_eq!(copy.keys().collect::<Vec<_>>(), vec!["z", "a", "m"]);
    assert_eq!(copy["a"].name, "A");
    assert_eq!(copy["m"].settings_config, Value::String("settings of m".to_string()));
    assert!(copy_providers(&IndexMap::new()).is_empty());
    let one = provider("p", "n");
    let twin = clone_provider(&one);
    assert_eq!(twin.id, "p");
    assert_eq!(twin.name, "n");
    assert_eq!(twin.settings_config, one.settings_config);
}

#[test]
fn collector_leaves_out_applications_without_providers() {
    let store = store_with(AppType::Codex, "b", &["a", "b"]);
    let snapshot = collect_snapshot(&store);
    assert!(snapshot.claude.is_none());
    assert!(snapshot.gemini.is_none());
    let codex = snapshot.codex.unwrap();
    assert_eq!(codex.current_id.as_deref(), Some("b"));
    assert_eq!(codex.providers.keys().collect::<Vec<_>>(), vec!["a", "b"]);
    assert_eq!(codex.providers["a"].name, "a");
    assert!(collect_app_snapshot(&store, AppType::Gemini).is_none());
    assert_eq!(ids_of(&store, AppType::Codex), vec!["a", "b"]);
    assert_eq!(store.current(AppType::Codex), "b");
}

#[test]
fn collector_reports_no_current_provider_where_none_is_in_use() {
    let store = store_with(AppType::Gemini, "", &["only"]);
    let gemini = collect_app_snapshot(&store, AppType::Gemini).unwrap();
    assert_eq!(gemini.current_id, None);
    assert_eq!(gemini.providers.len(), 1);
}

#[test]
fn applier_replaces_the_providers_of_an_application() {
    let mut store = store_with(AppType::Codex, "old", &["old", "keep"]);
    store.add(AppType::Gemini, provider("g", "g"));
    let snapshot = pushed(Some("n2"), &["n1", "n2", "keep"]);
    assert!(apply_app_snapshot(&mut store, AppType::Codex, &snapshot).is_ok());
    assert_eq!(ids_of(&store, AppType::Codex), vec!["n1", "n2", "keep"]);
    assert_eq!(store.current(AppType::Codex), "n2");
    assert_eq!(store.get_all_providers(AppType::Codex)["keep"].name, "KEEP");
    assert_eq!(ids_of(&store, AppType::Gemini), vec!["g"]);
}

#[test]
fn applier_refuses_a_current_provider_that_is_not_pushed() {
    let mut store = store_with(AppType::Codex, "a", &["a", "b"]);
    let snapshot = pushed(Some("ghost"), &["x", "y"]);
    let e = apply_app_snapshot(&mut store, AppType::Codex, &snapshot).unwrap_err();
    failed(&e, SyncErrorKind::InvalidAdminConfig, "Admin config current provider not found: ghost");
    assert_eq!(ids_of(&store, AppType::Codex), vec!["a", "b"]);
    assert_eq!(store.current(AppType::Codex), "a");
    assert_eq!(store.get_all_providers(AppType::Codex)["a"].name, "a");
}

#[test]
fn applier_refuses_a_snapshot_without_current_provider() {
    let mut store = store_with(AppType::Gemini, "a", &["a"]);
    let e = apply_app_snapshot(&mut store, AppType::Gemini, &pushed(None, &["x"])).unwrap_err();
    failed(&e, SyncErrorKind::InvalidAdminConfig, "Admin config missing current provider");
    assert_eq!(ids_of(&store, AppType::Gemini), vec!["a"]);
    assert_eq!(store.current(AppType::Gemini), "a");
    let e = apply_app_snapshot(&mut store, AppType::Gemini, &pushed(Some("x"), &[])).unwrap_err();
    failed(&e, SyncErrorKind::InvalidAdminConfig, "Admin config current provider not found: x");
    assert_eq!(ids_of(&store, AppType::Gemini), vec!["a"]);
}

#[test]
fn applier_files_providers_under_their_own_ids() {
    let mut store = ProviderStore::new();
    let mut providers = IndexMap::new();
    providers.insert("key".to_string(), provider("real-id", "n"));
    let snapshot = AppProviderSnapshot { current_id: Some("key".to_string()), providers };
    let e = apply_app_snapshot(&mut store, AppType::Codex, &snapshot).unwrap_err();
    failed(&e, SyncErrorKind::ProviderStore, "Provider not found: key");
    assert!(ids_of(&store, AppType::Codex).is_empty());
    assert_eq!(store.current(AppType::Codex), "");
    let mut kept = store_with(AppType::Codex, "a", &["a", "b"]);
    let e = apply_app_snapshot(&mut kept, AppType::Codex, &snapshot).unwrap_err();
    assert_eq!(e.kind, SyncErrorKind::ProviderStore);
    assert_eq!(ids_of(&kept, AppType::Codex), vec!["a", "b"]);
    assert_eq!(kept.current(AppType::Codex), "a");
    let mut providers = IndexMap::new();
    providers.insert("first".to_string(), provider("x", "one"));
    providers.insert("x".to_string(), provider("y", "two"));
    let crossed = AppProviderSnapshot { current_id: Some("x".to_string()), providers };
    assert!(apply_app_snapshot(&mut kept, AppType::Codex, &crossed).is_ok());
    assert_eq!(ids_of(&kept, AppType::Codex), vec!["x", "y"]);
    assert_eq!(kept.current(AppType::Codex), "x");
}

#[test]
fn applying_twice_is_applying_once() {
    let mut store = store_with(AppType::Codex, "a", &["a", "b"]);
    let config = DeviceConfigSnapshot {
        claude: Some(pushed(Some("c1"), &["c1", "c2"])),
        codex: Some(pushed(Some("ghost"), &["x1"])),
        gemini: None,
    };
    for _ in 0..2 {
        let e = apply_admin_config(&mut store, &config).unwrap_err();
        assert_eq!(e.kind, SyncErrorKind::InvalidAdminConfig);
        assert_eq!(ids_of(&store, AppType::Claude), vec!["c1", "c2"]);
        assert_eq!(store.current(AppType::Claude), "c1");
        assert_eq!(ids_of(&store, AppType::Codex), vec!["a", "b"]);
        assert_eq!(store.current(AppType::Codex), "a");
    }
}

#[test]
fn applier_stops_at_the_first_failure() {
    let mut store = ProviderStore::new();
    store.add(AppType::Claude, provider("c0", "c0"));
    store.add(AppType::Codex, provider("x0", "x0"));
    store.add(AppType::Gemini, provider("g0", "g0"));
    let config = DeviceConfigSnapshot {
        claude: Some(pushed(Some("c1"), &["c1"])),
        codex: Some(pushed(Some("nope"), &["x1"])),
        gemini: Some(pushed(Some("g1"), &["g1"])),
    };
    let e = apply_admin_config(&mut store, &config).unwrap_err();
    failed(&e, SyncErrorKind::InvalidAdminConfig, "Admin config current provider not found: nope");
    assert_eq!(ids_of(&store, AppType::Claude), vec!["c1"]);
    assert_eq!(store.current(AppType::Claude), "c1");
    assert_eq!(ids_of(&store, AppType::Codex), vec!["x0"]);
    assert_eq!(ids_of(&store, AppType::Gemini), vec!["g0"]);
}

#[test]
fn applier_skips_applications_that_are_not_pushed() {
    let mut store = ProviderStore::new();
    store.add(AppType::Claude, provider("c0", "c0"));
    store.add(AppType::Codex, provider("x0", "x0"));
    let config = DeviceConfigSnapshot { claude: None, codex: None, gemini: Some(pushed(Some("g1"), &["g1", "g2"])) };
    assert!(apply_admin_config(&mut store, &config).is_ok());
    assert_eq!(ids_of(&store, AppType::Claude), vec!["c0"]);
    assert_eq!(ids_of(&store, AppType::Codex), vec!["x0"]);
    assert_eq!(ids_of(&store, AppType::Gemini), vec!["g1", "g2"]);
    assert_eq!(store.current(AppType::Gemini), "g1");
    let nothing = DeviceConfigSnapshot { claude: None, codex: None, gemini: None };
    assert!(apply_admin_config(&mut store, &nothing).is_ok());
    assert_eq!(ids_of(&store, AppType::Gemini), vec!["g1", "g2"]);
}

#[test]
fn what_is_collected_can_be_applied_elsewhere() {
    let source = store_with(AppType::Codex, "b", &["a", "b", "c"]);
    let snapshot = collect_snapshot(&source);
    let mut target = store_with(AppType::Codex, "gone", &["gone"]);
    assert!(apply_admin_config(&mut target, &snapshot).is_ok());
    assert_eq!(ids_of(&target, AppType::Codex), vec!["a", "b", "c"]);
    assert_eq!(target.current(AppType::Codex), "b");
    assert_eq!(target.get_all_providers(AppType::Codex)["c"].settings_config, Value::String("settings of c".to_string()));
}

#[test]
fn service_needs_a_url_and_a_token() {
    let no_url = ManagementSyncService::new("   ".to_string(), "tok".to_string(), false);
    failed(&no_url.target().unwrap_err(), SyncErrorKind::Configuration, "Management base URL is empty");
    let no_token = ManagementSyncService::new("https://m.example".to_string(), "\n".to_string(), false);
    failed(&no_token.target().unwrap_err(), SyncErrorKind::Configuration, "Management token is empty");
    let neither = ManagementSyncService::new(String::new(), String::new(), false);
    failed(&neither.target().unwrap_err(), SyncErrorKind::Configuration, "Management base URL is empty");
}

#[test]
fn endpoint_is_the_trimmed_url_and_the_sync_path() {
    let service = ManagementSyncService::new("  https://m.example/base// ".to_string(), " tok \n".to_string(), true);
    let (endpoint, token) = service.target().unwrap();
    assert_eq!(endpoint, "https://m.example/base/api/v1/devices/sync");
    assert_eq!(token, "tok");
    let plain = ManagementSyncService::new("http://localhost:8080".to_string(), "t".to_string(), true);
    assert_eq!(plain.target().unwrap().0, "http://localhost:8080/api/v1/devices/sync");
}

#[test]
fn service_starts_its_triggers() {
    let with = ManagementSyncService::new("u".to_string(), "t".to_string(), true);
    assert_eq!(
        with.start(),
        vec![
            Trigger { kind: TriggerKind::Startup, phase: TriggerPhase::Scheduling },
            Trigger { kind: TriggerKind::Recurring, phase: TriggerPhase::Scheduling },
        ]
    );
    let without = ManagementSyncService::new("u".to_string(), "t".to_string(), false);
    assert_eq!(without.start(), vec![Trigger { kind: TriggerKind::Recurring, phase: TriggerPhase::Scheduling }]);
    assert!(sync_on_start_flag(Some("true")));
    assert!(sync_on_start_flag(Some("1")));
    assert!(!sync_on_start_flag(Some("yes")));
    assert!(!sync_on_start_flag(Some("")));
    assert!(!sync_on_start_flag(None));
}

#[test]
fn request_carries_identity_versions_and_providers() {
    let service = ManagementSyncService::new("https://m.example/".to_string(), "tok".to_string(), false);
    let mut state = AppState { db: Settings::new(), providers: store_with(AppType::Codex, "a", &["a"]) };
    set_applied_admin_version(&mut state.db, 3);
    let call = service
        .prepare(&mut state, Ok("abc".to_string()), "3.9.0", Timestamp::new(1_704_067_200, 0).unwrap())
        .unwrap();
    assert_eq!(call.endpoint, "https://m.example/api/v1/devices/sync");
    assert_eq!(call.token, "tok");
    assert_eq!(call.payload.device_id, derive_device_id("abc"));
    assert_eq!(call.payload.app_version, "3.9.0");
    assert_eq!(call.payload.applied_admin_version, Some(3));
    assert_eq!(call.payload.client_time, "2024-01-01T00:00:00+00:00");
    assert!(call.payload.snapshot.claude.is_none());
    assert_eq!(call.payload.snapshot.codex.as_ref().unwrap().current_id.as_deref(), Some("a"));
    assert_eq!(state.db.get_setting(SETTINGS_DEVICE_ID), Some(derive_device_id("abc")));
    assert_eq!(state.db.get_setting(SETTINGS_LAST_SYNC_AT), None);
}

#[test]
fn request_is_not_made_without_configuration_or_fingerprint() {
    let mut state = AppState { db: Settings::new(), providers: ProviderStore::new() };
    let broken = ManagementSyncService::new(String::new(), "tok".to_string(), false);
    let e = broken.prepare(&mut state, Ok("abc".to_string()), "1", at(1)).unwrap_err();
    failed(&e, SyncErrorKind::Configuration, "Management base URL is empty");
    assert_eq!(state.db.get_setting(SETTINGS_DEVICE_ID), None);
    let service = ManagementSyncService::new("u".to_string(), "tok".to_string(), false);
    let e = service.prepare(&mut state, Err("denied".to_string()), "1", at(1)).unwrap_err();
    failed(&e, SyncErrorKind::HardwareFingerprint, "Failed to read hardware fingerprint: denied");
    assert_eq!(state.db.get_setting(SETTINGS_DEVICE_ID), None);
}

#[test]
fn only_a_success_status_lets_the_round_go_on() {
    for status in [200u16, 201, 204, 299] {
        assert!(check_status(status, "shown").is_ok());
    }
    for (status, shown) in [(199u16, "199"), (300, "300 Multiple Choices"), (401, "401 Unauthorized"), (500, "500 Internal Server Error"), (0, "0")] {
        let e = check_status(status, shown).unwrap_err();
        failed(&e, SyncErrorKind::Transport, &format!("Sync failed with status: {}", shown));
    }
    failed(&transport_failure("connection refused"), SyncErrorKind::Transport, "Sync request failed: connection refused");
    failed(&parse_failure("expected value"), SyncErrorKind::Parse, "Sync response parse failed: expected value");
}

#[test]
fn answer_without_configuration_records_the_sync() {
    let mut state = AppState { db: Settings::new(), providers: store_with(AppType::Codex, "a", &["a"]) };
    let answer = SyncResponse { ok: true, admin_config: None, admin_version: Some(8) };
    assert!(conclude(&mut state, &answer, at(60)).is_ok());
    assert_eq!(state.db.get_setting(SETTINGS_LAST_SYNC_AT), Some("1970-01-01T00:01:00+00:00".to_string()));
    assert_eq!(get_applied_admin_version(&state.db), None);
    assert_eq!(ids_of(&state.providers, AppType::Codex), vec!["a"]);
}

#[test]
fn answer_that_is_not_ok_changes_nothing() {
    let mut state = AppState { db: Settings::new(), providers: store_with(AppType::Codex, "a", &["a"]) };
    let answer = SyncResponse {
        ok: false,
        admin_config: Some(DeviceConfigSnapshot { claude: None, codex: Some(pushed(Some("n"), &["n"])), gemini: None }),
        admin_version: Some(8),
    };
    assert!(conclude(&mut state, &answer, at(60)).is_ok());
    assert_eq!(state.db.get_setting(SETTINGS_LAST_SYNC_AT), None);
    assert_eq!(get_applied_admin_version(&state.db), None);
    assert_eq!(ids_of(&state.providers, AppType::Codex), vec!["a"]);
}

#[test]
fn pushed_configuration_is_applied_and_its_version_recorded() {
    let mut state = AppState { db: Settings::new(), providers: store_with(AppType::Codex, "a", &["a"]) };
    let answer = SyncResponse {
        ok: true,
        admin_config: Some(DeviceConfigSnapshot { claude: None, codex: Some(pushed(Some("n"), &["m", "n"])), gemini: None }),
        admin_version: Some(8),
    };
    assert!(conclude(&mut state, &answer, at(120)).is_ok());
    assert_eq!(ids_of(&state.providers, AppType::Codex), vec!["m", "n"]);
    assert_eq!(state.providers.current(AppType::Codex), "n");
    assert_eq!(get_applied_admin_version(&state.db), Some(8));
    assert_eq!(state.db.get_setting(SETTINGS_LAST_SYNC_AT), Some("1970-01-01T00:02:00+00:00".to_string()));
    let unversioned = SyncResponse {
        ok: true,
        admin_config: Some(DeviceConfigSnapshot { claude: None, codex: None, gemini: None }),
        admin_version: None,
    };
    assert!(conclude(&mut state, &unversioned, at(180)).is_ok());
    assert_eq!(get_applied_admin_version(&state.db), Some(8));
    assert_eq!(state.db.get_setting(SETTINGS_LAST_SYNC_AT), Some("1970-01-01T00:03:00+00:00".to_string()));
}

#[test]
fn invalid_pushed_configuration_fails_the_round() {
    let mut state = AppState { db: Settings::new(), providers: store_with(AppType::Codex, "a", &["a"]) };
    let answer = SyncResponse {
        ok: true,
        admin_config: Some(DeviceConfigSnapshot { claude: None, codex: Some(pushed(Some("ghost"), &["m"])), gemini: None }),
        admin_version: Some(8),
    };
    let e = conclude(&mut state, &answer, at(120)).unwrap_err();
    failed(&e, SyncErrorKind::InvalidAdminConfig, "Admin config current provider not found: ghost");
    assert_eq!(ids_of(&state.providers, AppType::Codex), vec!["a"]);
    assert_eq!(state.providers.current(AppType::Codex), "a");
    assert_eq!(get_applied_admin_version(&state.db), None);
    assert_eq!(state.db.get_setting(SETTINGS_LAST_SYNC_AT), Some("1970-01-01T00:02:00+00:00".to_string()));
}

#[test]
fn a_configuration_is_applied_again_though_its_version_was_applied() {
    let mut state = AppState { db: Settings::new(), providers: store_with(AppType::Codex, "a", &["a"]) };
    set_applied_admin_version(&mut state.db, 8);
    let answer = SyncResponse {
        ok: true,
        admin_config: Some(DeviceConfigSnapshot { claude: None, codex: Some(pushed(Some("n"), &["n"])), gemini: None }),
        admin_version: Some(8),
    };
    assert!(conclude(&mut state, &answer, at(1)).is_ok());
    assert_eq!(ids_of(&state.providers, AppType::Codex), vec!["n"]);
    state.providers.add(AppType::Codex, provider("local", "local"));
    assert!(conclude(&mut state, &answer, at(2)).is_ok());
    assert_eq!(ids_of(&state.providers, AppType::Codex), vec!["n"]);
    assert_eq!(get_applied_admin_version(&state.db), Some(8));
}

#[test]
fn delay_before_the_hour_is_the_time_until_it_today() {
    // 2024-01-01T19:00:00Z is 03:00 on 2 January in Beijing.
    assert_eq!(next_beijing_4am_delay(at(1_704_135_600)), Some(Delay { secs: 3600, nanos: 0 }));
    // Half a second before four.
    assert_eq!(
        next_beijing_4am_delay(Timestamp::new(1_704_139_199, 500_000_000).unwrap()),
        Some(Delay { secs: 0, nanos: 500_000_000 })
    );
    // Midnight in Beijing: 2023-12-31T16:00:00Z.
    assert_eq!(next_beijing_4am_delay(at(1_704_038_400)), Some(Delay { secs: 14_400, nanos: 0 }));
}

#[test]
fn delay_at_or_after_the_hour_is_the_time_until_it_tomorrow() {
    // 2024-01-01T00:00:00Z is 08:00 in Beijing.
    assert_eq!(next_beijing_4am_delay(at(1_704_067_200)), Some(Delay { secs: 72_000, nanos: 0 }));
    // Exactly four in Beijing: 2024-01-01T20:00:00Z.
    assert_eq!(next_beijing_4am_delay(at(1_704_139_200)), Some(Delay { secs: 86_400, nanos: 0 }));
    // One nanosecond later.
    assert_eq!(
        next_beijing_4am_delay(Timestamp::new(1_704_139_200, 1).unwrap()),
        Some(Delay { secs: 86_399, nanos: 999_999_999 })
    );
    // One second before midnight in Beijing, on the last day of the year.
    assert_eq!(next_beijing_4am_delay(at(1_704_038_399)), Some(Delay { secs: 14_401, nanos: 0 }));
    // The epoch itself is 08:00 in Beijing.
    assert_eq!(next_beijing_4am_delay(at(0)), Some(Delay { secs: 72_000, nanos: 0 }));
    // The first day of the range has no four o'clock within the range.
    assert_eq!(next_beijing_4am_delay(at(-62_135_596_800)), None);
}

#[test]
fn delay_until_next_counts_from_the_given_instant() {
    assert_eq!(delay_until_next(at(100), at(160)), Delay { secs: 60, nanos: 0 });
    assert_eq!(delay_until_next(at(160), at(160)), Delay { secs: 86_400, nanos: 0 });
    assert_eq!(delay_until_next(at(200), at(160)), Delay { secs: 86_360, nanos: 0 });
    assert_eq!(delay_until_next(at(160 + 86_400), at(160)), Delay { secs: 0, nanos: 0 });
    assert_eq!(
        delay_until_next(Timestamp::new(100, 999_999_999).unwrap(), at(101)),
        Delay { secs: 0, nanos: 1 }
    );
}

#[test]
fn startup_trigger_waits_syncs_once_and_ends() {
    assert_eq!(STARTUP_SYNC_DELAY_SECS, 3600);
    let start = new_trigger(TriggerKind::Startup);
    let (waiting, action) = advance(start, at(0));
    assert_eq!(action, TriggerAction::Sleep(Delay { secs: 3600, nanos: 0 }));
    let (done, action) = advance(waiting, at(3600));
    assert_eq!(action, TriggerAction::RunSync);
    assert_eq!(done.phase, TriggerPhase::Finished);
    let (still, action) = advance(done, at(3601));
    assert_eq!(action, TriggerAction::Stop);
    assert_eq!(still, done);
}

#[test]
fn recurring_trigger_goes_round_without_end() {
    let mut trigger = new_trigger(TriggerKind::Recurring);
    let mut now = 1_704_067_200i64;
    for _ in 0..5 {
        let (waiting, action) = advance(trigger, at(now));
        let delay = match action {
            TriggerAction::Sleep(delay) => delay,
            other => panic!("expected a wait, got {:?}", other),
        };
        assert_eq!(waiting.phase, TriggerPhase::Waiting);
        now += delay.secs as i64;
        assert_eq!((now + 28_800) % 86_400, 4 * 3600);
        let (next, action) = advance(waiting, at(now));
        assert_eq!(action, TriggerAction::RunSync);
        assert_eq!(next, new_trigger(TriggerKind::Recurring));
        trigger = next;
    }
    assert_eq!(now, 1_704_139_200 + 4 * 86_400);
}

#[test]
fn a_cancelled_trigger_stops() {
    let (waiting, _) = advance(new_trigger(TriggerKind::Recurring), at(1_704_067_200));
    let ended = cancel(waiting);
    assert_eq!(ended, Trigger { kind: TriggerKind::Recurring, phase: TriggerPhase::Finished });
    assert_eq!(advance(ended, at(1_704_067_200)), (ended, TriggerAction::Stop));
}

#[test]
fn four_o_clock_in_beijing_is_eight_hours_before_in_utc() {
    assert_eq!(hour_today(at(1_704_067_200), 28_800, 4), Some(at(1_704_052_800)));
    assert_eq!(hour_today(at(1_704_067_200), 0, 0), Some(at(1_704_067_200)));
    assert_eq!(hour_today(at(1_704_067_200), 0, 24), None);
    assert_eq!(hour_today(at(1_704_067_200), 86_400, 4), None);
}

#[test]
fn failures_are_put_into_a_line_for_the_log() {
    let e = transport_failure("timeout");
    assert_eq!(failure_line(TriggerKind::Startup, &e), "Management startup sync failed: Sync request failed: timeout");
    assert_eq!(failure_line(TriggerKind::Recurring, &e), "Management sync failed: Sync request failed: timeout");
}
