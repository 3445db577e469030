//! The requests of the service, each as a function on the service's state.

use vstd::prelude::*;

use crate::ordering::{is_newest_first, newest_first};
use crate::server::admin::{
    AdminConfigStore, fetch_admin_config, next_version, pushed, upsert_admin_config_value,
};
use crate::server::auth::{
    ServerConfig, admits_admin, authorize_admin, authorize_bearer, bearer_header, presented,
};
use crate::server::batch::{apply_to_many, batch_fits, batch_targets, pushed_each};
use crate::server::error::{ApiError, ApiErrorKind};
use crate::server::model::{
    AdminConfig, AdminConfigItem, AdminConfigRequest, AdminConfigResponse, AdminConfigRow,
    BatchConfigRequest, BatchConfigResponse, ConfigSnapshotView, DeviceDetailResponse,
    DeviceListResponse, DeviceRecord, DeviceRecordView, DeviceSummary, DeviceSummaryView,
    GeoResult, SnapshotItem, SyncRequest, SyncResponse, geo_of,
};
use crate::server::registry::{DeviceRegistry, upsert_device, upserted};
use crate::server::snapshots::{
    LISTING_LIMIT, SnapshotLog, insert_snapshot, is_latest, is_listing, lemma_newest_listed_first,
    snapshot_count,
};
use crate::text::{clone_text, is_blank, is_blank_text, text_of, texts_of};
use crate::text_map::row_of;
use crate::time::Timestamp;

verus! {

/// The state of the service: its configuration and its three stores.
pub struct AppState {
    pub config: ServerConfig,
    pub devices: DeviceRegistry,
    pub snapshots: SnapshotLog,
    pub admin_configs: AdminConfigStore,
}

impl AppState {
    /// A service that has seen no device yet.
    pub fn new(config: ServerConfig) -> (state: Self)
        ensures
            state.config == config,
            state.devices@ == Map::<Seq<char>, DeviceRecordView>::empty(),
            state.snapshots@ == Seq::<ConfigSnapshotView>::empty(),
            state.admin_configs@ == Map::<Seq<char>, AdminConfig>::empty(),
    {
        AppState {
            config,
            devices: DeviceRegistry::new(),
            snapshots: SnapshotLog::new(),
            admin_configs: AdminConfigStore::new(),
        }
    }

    /// Whether the stores hold what they held in `before`.
    pub open spec fn same_stores(self, before: AppState) -> bool {
        &&& self.devices@ == before.devices@
        &&& self.snapshots@ == before.snapshots@
        &&& self.admin_configs@ == before.admin_configs@
    }
}

/// Why a sync is turned down, if it is: a wrong or missing credential comes
/// before a blank device id.
pub open spec fn sync_refusal(
    authorization: Option<&str>,
    config: ServerConfig,
    device_id: Seq<char>,
) -> Option<(ApiErrorKind, Seq<char>)> {
    if presented(authorization) != bearer_header(config.sync_token@) {
        Some((ApiErrorKind::Authorization, "unauthorized"@))
    } else if is_blank_text(device_id) {
        Some((ApiErrorKind::Validation, "device_id is required"@))
    } else {
        None
    }
}

/// Why an operator's push for one device is turned down, if it is.
pub open spec fn push_refusal(
    authorization: Option<&str>,
    config: ServerConfig,
    device_id: Seq<char>,
) -> Option<(ApiErrorKind, Seq<char>)> {
    if !admits_admin(authorization, config) {
        Some((ApiErrorKind::Authorization, "unauthorized"@))
    } else if is_blank_text(device_id) {
        Some((ApiErrorKind::Validation, "device_id is required"@))
    } else {
        None
    }
}

/// Why an operator's batch is turned down, if it is.
pub open spec fn batch_refusal(
    authorization: Option<&str>,
    config: ServerConfig,
    wanted: nat,
) -> Option<(ApiErrorKind, Seq<char>)> {
    if !admits_admin(authorization, config) {
        Some((ApiErrorKind::Authorization, "unauthorized"@))
    } else if wanted == 0 {
        Some((ApiErrorKind::Validation, "device_ids is required"@))
    } else {
        None
    }
}

/// Whether `r` fails for the reason `refusal`, or succeeds where there is
/// none.
pub open spec fn decided<T>(
    r: Result<T, ApiError>,
    refusal: Option<(ApiErrorKind, Seq<char>)>,
) -> bool {
    match refusal {
        Some((kind, message)) => r matches Err(e) && e.is(kind, message),
        None => r is Ok,
    }
}

/// Whether `answer` is what a sync at `now` is told, `current` being the
/// configuration pushed for the device.
pub open spec fn is_sync_answer(
    answer: SyncResponse,
    now: Timestamp,
    current: Option<AdminConfig>,
) -> bool {
    &&& answer.ok
    &&& answer.server_time@ == now.rfc3339()
    &&& answer.admin_config == match current {
        Some(row) => Some(row.body),
        None => None,
    }
    &&& answer.admin_version == match current {
        Some(row) => Some(row.version),
        None => None,
    }
}

/// Whether `summary` shows the device of `row`, given the log of snapshots
/// and the configuration pushed for it.
pub open spec fn summarises(
    summary: DeviceSummaryView,
    row: DeviceRecordView,
    log: Seq<ConfigSnapshotView>,
    current: Option<AdminConfig>,
) -> bool {
    &&& summary.device_id == row.device_id
    &&& summary.fingerprint_hash == row.fingerprint_hash
    &&& summary.last_seen == Some(row.last_seen)
    &&& summary.last_ip == row.last_ip
    &&& summary.geo_country == row.geo_country
    &&& summary.geo_region == row.geo_region
    &&& summary.geo_city == row.geo_city
    &&& summary.app_version == row.app_version
    &&& summary.created_at == Some(row.created_at)
    &&& summary.snapshot_count == snapshot_count(log, row.device_id)
    &&& is_latest(log, row.device_id, summary.last_snapshot_at)
    &&& summary.admin_version == match current {
        Some(c) => Some(c.version),
        None => None,
    }
    &&& summary.admin_updated_at == match current {
        Some(c) => Some(c.updated_at),
        None => None,
    }
}

/// Whether a device last seen at `a` may stand before one last seen at `b`:
/// never an earlier one before a later one, and a device never seen only
/// before others never seen.
pub open spec fn not_older(a: Option<Timestamp>, b: Option<Timestamp>) -> bool {
    match (a, b) {
        (Some(x), Some(y)) => x@ >= y@,
        (Some(_), None) => true,
        (None, Some(_)) => false,
        (None, None) => true,
    }
}

/// Whether `listed` shows every device once, each with its summary, the one
/// seen last first.
pub open spec fn lists_devices(
    devices: Map<Seq<char>, DeviceRecordView>,
    log: Seq<ConfigSnapshotView>,
    configs: Map<Seq<char>, AdminConfig>,
    listed: Seq<DeviceSummaryView>,
) -> bool {
    &&& listed.len() == devices.dom().len()
    &&& forall|i: int|
        0 <= i < listed.len() ==> devices.contains_key((#[trigger] listed[i]).device_id)
            && summarises(
            listed[i],
            devices[listed[i].device_id],
            log,
            row_of(configs, listed[i].device_id),
        )
    &&& forall|i: int, j: int|
        0 <= i < j < listed.len() ==> (#[trigger] listed[i]).device_id != (
        #[trigger] listed[j]).device_id
    &&& forall|i: int, j: int|
        0 <= i < j < listed.len() ==> not_older(
            (#[trigger] listed[i]).last_seen,
            (#[trigger] listed[j]).last_seen,
        )
}

/// The views of summaries.
pub open spec fn summary_views(summaries: Seq<DeviceSummary>) -> Seq<DeviceSummaryView> {
    summaries.map_values(|s: DeviceSummary| s@)
}

/// The fixed answer of the health check.
pub fn healthz() -> (body: &'static str)
    ensures
        body@ == "ok"@,
{
    "ok"
}

/// Decides whether a sync is let in: the credential first, then the device
/// id, which must not be blank.
pub fn admit_sync(config: &ServerConfig, authorization: Option<&str>, payload: &SyncRequest) -> (r:
    Result<(), ApiError>)
    ensures
        decided(r, sync_refusal(authorization, *config, payload.device_id@)),
{
    match authorize_bearer(authorization, config.sync_token.as_str()) {
        Ok(()) => {},
        Err(e) => {
            return Err(e);
        },
    }
    if is_blank(payload.device_id.as_str()) {
        return Err(ApiError::device_id_required());
    }
    Ok(())
}

/// Decides whether an operator's push for `device_id` is let in.
pub fn admit_push(config: &ServerConfig, authorization: Option<&str>, device_id: &str) -> (r:
    Result<(), ApiError>)
    ensures
        decided(r, push_refusal(authorization, *config, device_id@)),
{
    match authorize_admin(authorization, config) {
        Ok(()) => {},
        Err(e) => {
            return Err(e);
        },
    }
    if is_blank(device_id) {
        return Err(ApiError::device_id_required());
    }
    Ok(())
}

/// Decides whether an operator's batch is let in: it must name a device.
pub fn admit_batch(
    config: &ServerConfig,
    authorization: Option<&str>,
    payload: &BatchConfigRequest,
) -> (r: Result<(), ApiError>)
    ensures
        decided(r, batch_refusal(authorization, *config, payload.device_ids@.len())),
{
    match authorize_admin(authorization, config) {
        Ok(()) => {},
        Err(e) => {
            return Err(e);
        },
    }
    if payload.device_ids.len() == 0 {
        return Err(ApiError::device_ids_required());
    }
    Ok(())
}

/// What a sync at `now` is told: the service's time, and the configuration
/// pushed for the device with its version, if there is one.
pub fn sync_reply(now: Timestamp, current: Option<AdminConfigRow>) -> (answer: SyncResponse)
    ensures
        answer.ok,
        answer.server_time@ == now.rfc3339(),
        answer.admin_config == match current {
            Some(row) => Some(row.config),
            None => None,
        },
        answer.admin_version == match current {
            Some(row) => Some(row.version),
            None => None,
        },
{
    let server_time = now.to_rfc3339();
    match current {
        Some(row) => SyncResponse {
            ok: true,
            server_time,
            admin_config: Some(row.config),
            admin_version: Some(row.version),
        },
        None => SyncResponse { ok: true, server_time, admin_config: None, admin_version: None },
    }
}

/// The summary of a device: its row, the count and latest instant of its
/// snapshots, and version and instant of the configuration pushed for it.
pub fn summarise(
    row: &DeviceRecord,
    snapshot_count: i64,
    last_snapshot_at: Option<Timestamp>,
    current: Option<(i64, Timestamp)>,
) -> (summary: DeviceSummary)
    ensures
        summary@ == (DeviceSummaryView {
            device_id: row@.device_id,
            fingerprint_hash: row@.fingerprint_hash,
            last_seen: Some(row.last_seen),
            last_ip: row@.last_ip,
            geo_country: row@.geo_country,
            geo_region: row@.geo_region,
            geo_city: row@.geo_city,
            app_version: row@.app_version,
            created_at: Some(row.created_at),
            snapshot_count: snapshot_count,
            last_snapshot_at: last_snapshot_at,
            admin_version: match current {
                Some(c) => Some(c.0),
                None => None,
            },
            admin_updated_at: match current {
                Some(c) => Some(c.1),
                None => None,
            },
        }),
{
    let (admin_version, admin_updated_at) = match current {
        Some((version, updated_at)) => (Some(version), Some(updated_at)),
        None => (None, None),
    };
    DeviceSummary {
        device_id: row.device_id.clone(),
        fingerprint_hash: row.fingerprint_hash.clone(),
        last_seen: Some(row.last_seen),
        last_ip: clone_text(&row.last_ip),
        geo_country: clone_text(&row.geo_country),
        geo_region: clone_text(&row.geo_region),
        geo_city: clone_text(&row.geo_city),
        app_version: clone_text(&row.app_version),
        created_at: Some(row.created_at),
        snapshot_count,
        last_snapshot_at,
        admin_version,
        admin_updated_at,
    }
}

/// The answer for one device in detail, or the refusal where the device was
/// never seen.
pub fn device_detail(
    row: Option<&DeviceRecord>,
    snapshot_count: i64,
    last_snapshot_at: Option<Timestamp>,
    snapshots: Vec<SnapshotItem>,
    admin_config: Option<AdminConfigItem>,
) -> (r: Result<DeviceDetailResponse, ApiError>)
    ensures
        match row {
            Some(known) => r matches Ok(detail) && detail.snapshots == snapshots
                && detail.admin_config == admin_config && detail.device@ == (DeviceSummaryView {
                device_id: known@.device_id,
                fingerprint_hash: known@.fingerprint_hash,
                last_seen: Some(known.last_seen),
                last_ip: known@.last_ip,
                geo_country: known@.geo_country,
                geo_region: known@.geo_region,
                geo_city: known@.geo_city,
                app_version: known@.app_version,
                created_at: Some(known.created_at),
                snapshot_count: snapshot_count,
                last_snapshot_at: last_snapshot_at,
                admin_version: match admin_config {
                    Some(c) => Some(c.version),
                    None => None,
                },
                admin_updated_at: match admin_config {
                    Some(c) => Some(c.updated_at),
                    None => None,
                },
            }),
            None => r matches Err(e) && e.is(ApiErrorKind::NotFound, "device not found"@),
        },
{
    match row {
        Some(known) => {
            let current = match &admin_config {
                Some(c) => Some((c.version, c.updated_at)),
                None => None,
            };
            let device = summarise(known, snapshot_count, last_snapshot_at, current);
            Ok(DeviceDetailResponse { device, snapshots, admin_config })
        },
        None => Err(ApiError::device_not_found()),
    }
}

/// One sync of a device: its row is written, its snapshot is logged, and it
/// is told the configuration pushed for it. A sync that is turned down
/// changes nothing. Where the log cannot take the snapshot the sync fails
/// with the row already written.
pub fn sync_device(
    state: &mut AppState,
    authorization: Option<&str>,
    ip: Option<String>,
    geo: Option<GeoResult>,
    payload: SyncRequest,
    now: Timestamp,
) -> (r: Result<SyncResponse, ApiError>)
    ensures
        final(state).config == old(state).config,
        final(state).admin_configs@ == old(state).admin_configs@,
        match sync_refusal(authorization, old(state).config, payload.device_id@) {
            Some((kind, message)) => final(state).same_stores(*old(state)) && (r matches Err(e)
                && e.is(kind, message)),
            None => {
                &&& final(state).devices@ == upserted(
                    old(state).devices@,
                    payload.device_id@,
                    payload.device_id@,
                    now,
                    text_of(ip),
                    geo_of(geo),
                    text_of(payload.app_version),
                )
                &&& old(state).snapshots@.len() < i64::MAX ==> final(state).snapshots@ == old(
                    state,
                ).snapshots@.push(
                    ConfigSnapshotView {
                        id: (old(state).snapshots@.len() + 1) as i64,
                        device_id: payload.device_id@,
                        body: payload.snapshot,
                        created_at: now,
                    },
                ) && (r matches Ok(answer) && is_sync_answer(
                    answer,
                    now,
                    row_of(old(state).admin_configs@, payload.device_id@),
                ))
                &&& old(state).snapshots@.len() >= i64::MAX ==> final(state).snapshots@ == old(
                    state,
                ).snapshots@ && (r matches Err(e) && e.is(
                    ApiErrorKind::Storage,
                    "storage failure"@,
                ))
            },
        },
{
    match admit_sync(&state.config, authorization, &payload) {
        Ok(()) => {},
        Err(e) => {
            return Err(e);
        },
    }
    match upsert_device(&mut state.devices, &payload, now, ip, geo.as_ref()) {
        Ok(()) => {},
        Err(e) => {
            return Err(e);
        },
    }
    let device_id = payload.device_id.as_str();
    match insert_snapshot(&mut state.snapshots, device_id, &payload.snapshot, now) {
        Ok(()) => {},
        Err(e) => {
            return Err(e);
        },
    }
    match fetch_admin_config(&state.admin_configs, payload.device_id.as_str()) {
        Ok(current) => Ok(sync_reply(now, current)),
        Err(e) => Err(e),
    }
}

/// All devices, the one seen last first, each with its summary.
pub fn list_devices(state: &AppState, authorization: Option<&str>) -> (r: Result<
    DeviceListResponse,
    ApiError,
>)
    ensures
        match r {
            Ok(list) => admits_admin(authorization, state.config) && lists_devices(
                state.devices@,
                state.snapshots@,
                state.admin_configs@,
                summary_views(list.devices@),
            ),
            Err(e) => !admits_admin(authorization, state.config) && e.is(
                ApiErrorKind::Authorization,
                "unauthorized"@,
            ),
        },
{
    match authorize_admin(authorization, &state.config) {
        Ok(()) => {},
        Err(e) => {
            return Err(e);
        },
    }
    let n = state.devices.len();
    let mut keys: Vec<Timestamp> = Vec::new();
    let mut i: usize = 0;
    while i < n
        invariant
            i <= n,
            n == state.devices.ids().len(),
            state.devices.consistent(),
            keys@.len() == i,
            forall|j: int|
                0 <= j < i ==> (#[trigger] keys@[j])
                    == state.devices@[state.devices.ids()[j]].last_seen,
        decreases n - i,
    {
        keys.push(state.devices.row_at(i).last_seen);
        i += 1;
    }
    let order = newest_first(&keys);
    let mut devices: Vec<DeviceSummary> = Vec::new();
    let mut t: usize = 0;
    while t < n
        invariant
            t <= n,
            n == state.devices.ids().len(),
            state.devices.consistent(),
            keys@.len() == n,
            is_newest_first(keys@, order@),
            forall|j: int|
                0 <= j < n ==> (#[trigger] keys@[j])
                    == state.devices@[state.devices.ids()[j]].last_seen,
            devices@.len() == t,
            forall|s: int|
                0 <= s < t ==> summarises(
                    (#[trigger] devices@[s])@,
                    state.devices@[state.devices.ids()[order@[s] as int]],
                    state.snapshots@,
                    row_of(state.admin_configs@, state.devices.ids()[order@[s] as int]),
                ),
        decreases n - t,
    {
        let row = state.devices.row_at(order[t]);
        let id = row.device_id.as_str();
        let current = match state.admin_configs.get(id) {
            Some(c) => Some((c.version, c.updated_at)),
            None => None,
        };
        let summary = summarise(
            row,
            state.snapshots.count_for(id),
            state.snapshots.last_at(id),
            current,
        );
        devices.push(summary);
        t += 1;
    }
    proof {
        let ids = state.devices.ids();
        let listed = summary_views(devices@);
        assert forall|a: int| 0 <= a < listed.len() implies state.devices@.contains_key(
            (#[trigger] listed[a]).device_id,
        ) && summarises(
            listed[a],
            state.devices@[listed[a].device_id],
            state.snapshots@,
            row_of(state.admin_configs@, listed[a].device_id),
        ) by {
            let id = ids[order@[a] as int];
            assert(ids.contains(id));
            assert(summarises(
                devices@[a]@,
                state.devices@[id],
                state.snapshots@,
                row_of(state.admin_configs@, id),
            ));
            assert(state.devices@.contains_key(id));
            assert(listed[a].device_id == id);
        }
        assert forall|a: int, b: int| 0 <= a < b < listed.len() implies (
        #[trigger] listed[a]).device_id != (#[trigger] listed[b]).device_id by {
            let x = order@[a];
            let y = order@[b];
            assert(x != y);
            assert(ids.contains(ids[x as int]) && ids.contains(ids[y as int]));
            assert(summarises(
                devices@[a]@,
                state.devices@[ids[x as int]],
                state.snapshots@,
                row_of(state.admin_configs@, ids[x as int]),
            ));
            assert(summarises(
                devices@[b]@,
                state.devices@[ids[y as int]],
                state.snapshots@,
                row_of(state.admin_configs@, ids[y as int]),
            ));
            assert(state.devices@.contains_key(ids[x as int]));
            assert(state.devices@.contains_key(ids[y as int]));
        }
        assert forall|a: int, b: int| 0 <= a < b < listed.len() implies not_older(
            (#[trigger] listed[a]).last_seen,
            (#[trigger] listed[b]).last_seen,
        ) by {
            let x = order@[a];
            let y = order@[b];
            assert(keys@[x as int]@ >= keys@[y as int]@);
            assert(summarises(
                devices@[a]@,
                state.devices@[ids[x as int]],
                state.snapshots@,
                row_of(state.admin_configs@, ids[x as int]),
            ));
            assert(summarises(
                devices@[b]@,
                state.devices@[ids[y as int]],
                state.snapshots@,
                row_of(state.admin_configs@, ids[y as int]),
            ));
        }
    }
    Ok(DeviceListResponse { devices })
}

/// One device in detail: its summary, its newest snapshots, and the
/// configuration pushed for it.
pub fn get_device_detail(state: &AppState, authorization: Option<&str>, device_id: &str) -> (r:
    Result<DeviceDetailResponse, ApiError>)
    ensures
        match r {
            Ok(detail) => {
                &&& admits_admin(authorization, state.config)
                &&& state.devices@.contains_key(device_id@)
                &&& summarises(
                    detail.device@,
                    state.devices@[device_id@],
                    state.snapshots@,
                    row_of(state.admin_configs@, device_id@),
                )
                &&& is_listing(
                    state.snapshots@,
                    device_id@,
                    LISTING_LIMIT as nat,
                    detail.snapshots@,
                )
                &&& detail.admin_config == match row_of(state.admin_configs@, device_id@) {
                    Some(c) => Some(
                        AdminConfigItem {
                            version: c.version,
                            updated_at: c.updated_at,
                            config: c.body,
                        },
                    ),
                    None => None,
                }
            },
            Err(e) => if !admits_admin(authorization, state.config) {
                e.is(ApiErrorKind::Authorization, "unauthorized"@)
            } else {
                !state.devices@.contains_key(device_id@) && e.is(
                    ApiErrorKind::NotFound,
                    "device not found"@,
                )
            },
        },
{
    match authorize_admin(authorization, &state.config) {
        Ok(()) => {},
        Err(e) => {
            return Err(e);
        },
    }
    let row = state.devices.get(device_id);
    if row.is_none() {
        return device_detail(None, 0, None, Vec::new(), None);
    }
    let admin_config = match state.admin_configs.get(device_id) {
        Some(c) => Some(
            AdminConfigItem {
                version: c.version,
                updated_at: c.updated_at,
                config: c.body.clone(),
            },
        ),
        None => None,
    };
    device_detail(
        row,
        state.snapshots.count_for(device_id),
        state.snapshots.last_at(device_id),
        state.snapshots.list(device_id, LISTING_LIMIT),
        admin_config,
    )
}

/// An operator's push for one device: the device's configuration is written
/// with the next version, which is the answer. A push that is turned down
/// changes nothing.
pub fn upsert_admin_config(
    state: &mut AppState,
    authorization: Option<&str>,
    device_id: &str,
    payload: AdminConfigRequest,
    now: Timestamp,
) -> (r: Result<AdminConfigResponse, ApiError>)
    ensures
        final(state).config == old(state).config,
        final(state).devices@ == old(state).devices@,
        final(state).snapshots@ == old(state).snapshots@,
        match push_refusal(authorization, old(state).config, device_id@) {
            Some((kind, message)) => final(state).admin_configs@ == old(state).admin_configs@ && (
            r matches Err(e) && e.is(kind, message)),
            None => if next_version(row_of(old(state).admin_configs@, device_id@)) <= i64::MAX {
                &&& final(state).admin_configs@ == pushed(
                    old(state).admin_configs@,
                    device_id@,
                    payload.config,
                    now,
                )
                &&& r == Ok::<AdminConfigResponse, ApiError>(
                    AdminConfigResponse {
                        ok: true,
                        version: next_version(row_of(old(state).admin_configs@, device_id@)) as i64,
                    },
                )
            } else {
                final(state).admin_configs@ == old(state).admin_configs@ && (r matches Err(e)
                    && e.is(ApiErrorKind::Storage, "storage failure"@))
            },
        },
{
    match admit_push(&state.config, authorization, device_id) {
        Ok(()) => {},
        Err(e) => {
            return Err(e);
        },
    }
    match upsert_admin_config_value(&mut state.admin_configs, device_id, &payload.config, now) {
        Ok(version) => Ok(AdminConfigResponse { ok: true, version }),
        Err(e) => Err(e),
    }
}

/// An operator's batch: one configuration for every device that the batch
/// names and the service knows. The answer counts the devices written. A
/// batch that is turned down changes nothing.
pub fn batch_admin_config(
    state: &mut AppState,
    authorization: Option<&str>,
    payload: BatchConfigRequest,
    now: Timestamp,
) -> (r: Result<BatchConfigResponse, ApiError>)
    ensures
        final(state).config == old(state).config,
        final(state).devices@ == old(state).devices@,
        final(state).snapshots@ == old(state).snapshots@,
        ({
            let targets = batch_targets(old(state).devices.ids(), texts_of(payload.device_ids@));
            let configs = old(state).admin_configs@;
            match batch_refusal(authorization, old(state).config, payload.device_ids@.len()) {
                Some((kind, message)) => final(state).admin_configs@ == configs && (
                r matches Err(e) && e.is(kind, message)),
                None => match r {
                    Ok(answer) => {
                        &&& batch_fits(configs, targets, payload.config, now, targets.len() as int)
                        &&& final(state).admin_configs@ == pushed_each(
                            configs,
                            targets,
                            payload.config,
                            now,
                        )
                        &&& answer == (BatchConfigResponse {
                            ok: true,
                            updated: targets.len() as u64,
                        })
                    },
                    Err(e) => {
                        &&& e.is(ApiErrorKind::Storage, "storage failure"@)
                        &&& exists|done: int|
                            0 <= done < targets.len() && batch_fits(
                                configs,
                                targets,
                                payload.config,
                                now,
                                done,
                            ) && final(state).admin_configs@ == #[trigger] pushed_each(
                                configs,
                                targets.take(done),
                                payload.config,
                                now,
                            ) && next_version(
                                row_of(final(state).admin_configs@, targets[done]),
                            ) > i64::MAX
                    },
                },
            }
        }),
{
    match admit_batch(&state.config, authorization, &payload) {
        Ok(()) => {},
        Err(e) => {
            return Err(e);
        },
    }
    match apply_to_many(
        &state.devices,
        &mut state.admin_configs,
        &payload.device_ids,
        &payload.config,
        now,
    ) {
        Ok(updated) => Ok(BatchConfigResponse { ok: true, updated }),
        Err(e) => Err(e),
    }
}

/// What a device reported comes back as it was sent: the snapshot that a
/// sync logged at an instant later than every earlier snapshot of the
/// device is the first that a listing of the device shows, with the
/// document unchanged.
pub proof fn lemma_synced_snapshot_listed_first(
    log: Seq<ConfigSnapshotView>,
    device_id: Seq<char>,
    body: serde_json::Value,
    now: Timestamp,
    items: Seq<SnapshotItem>,
)
    requires
        log.len() < i64::MAX,
        forall|k: int|
            0 <= k < log.len() && (#[trigger] log[k]).device_id == device_id
                ==> log[k].created_at@ < now@,
        is_listing(
            log.push(
                ConfigSnapshotView {
                    id: (log.len() + 1) as i64,
                    device_id: device_id,
                    body: body,
                    created_at: now,
                },
            ),
            device_id,
            LISTING_LIMIT as nat,
            items,
        ),
    ensures
        items.len() >= 1,
        items[0].snapshot == body,
        items[0].created_at == now,
        items[0].id == log.len() + 1,
{
    let logged = ConfigSnapshotView {
        id: (log.len() + 1) as i64,
        device_id: device_id,
        body: body,
        created_at: now,
    };
    let after = log.push(logged);
    assert forall|k: int|
        0 <= k < after.len() && k != log.len() && (#[trigger] after[k]).device_id
            == device_id implies after[k].created_at@ < after[log.len() as int].created_at@ by {
        assert(after[k] == log[k]);
    }
    lemma_newest_listed_first(after, device_id, LISTING_LIMIT as nat, items, log.len() as int);
}

/// The next sync of a device picks up what was last pushed for it: its
/// answer carries the pushed document and the version that the push gave.
pub proof fn lemma_sync_sees_the_last_push(
    configs: Map<Seq<char>, AdminConfig>,
    device_id: Seq<char>,
    body: serde_json::Value,
    pushed_at: Timestamp,
    answer: SyncResponse,
    now: Timestamp,
)
    requires
        next_version(row_of(configs, device_id)) <= i64::MAX,
        is_sync_answer(answer, now, row_of(pushed(configs, device_id, body, pushed_at), device_id)),
    ensures
        answer.admin_config == Some(body),
        answer.admin_version == Some(next_version(row_of(configs, device_id)) as i64),
{
}

} // verus!
