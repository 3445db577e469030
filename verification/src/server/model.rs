//! What the service keeps of a device, and what it is sent and answers.
//! A type that holds text has a view in which the text is a sequence of
//! characters; the contracts of the service speak of those views.

use vstd::prelude::*;

use crate::text::text_of;
use crate::time::Timestamp;

verus! {

/// Where an address was located: country and region by ISO code, city by
/// its English name. Each part may be missing.
#[derive(Clone, Debug)]
pub struct GeoResult {
    pub country: Option<String>,
    pub region: Option<String>,
    pub city: Option<String>,
}

/// The view of a `GeoResult`.
pub struct GeoView {
    pub country: Option<Seq<char>>,
    pub region: Option<Seq<char>>,
    pub city: Option<Seq<char>>,
}

impl View for GeoResult {
    type V = GeoView;

    open spec fn view(&self) -> GeoView {
        GeoView {
            country: text_of(self.country),
            region: text_of(self.region),
            city: text_of(self.city),
        }
    }
}

/// The view of an optional location.
pub open spec fn geo_of(geo: Option<GeoResult>) -> Option<GeoView> {
    match geo {
        Some(g) => Some(g@),
        None => None,
    }
}

/// The service's row for one device. `created_at` is the instant of the
/// first sync and never changes; the other fields are those of the last sync.
#[derive(Clone, Debug)]
pub struct DeviceRecord {
    pub device_id: String,
    pub fingerprint_hash: String,
    pub last_seen: Timestamp,
    pub last_ip: Option<String>,
    pub geo_country: Option<String>,
    pub geo_region: Option<String>,
    pub geo_city: Option<String>,
    pub app_version: Option<String>,
    pub created_at: Timestamp,
}

/// The view of a `DeviceRecord`.
pub struct DeviceRecordView {
    pub device_id: Seq<char>,
    pub fingerprint_hash: Seq<char>,
    pub last_seen: Timestamp,
    pub last_ip: Option<Seq<char>>,
    pub geo_country: Option<Seq<char>>,
    pub geo_region: Option<Seq<char>>,
    pub geo_city: Option<Seq<char>>,
    pub app_version: Option<Seq<char>>,
    pub created_at: Timestamp,
}

impl View for DeviceRecord {
    type V = DeviceRecordView;

    open spec fn view(&self) -> DeviceRecordView {
        DeviceRecordView {
            device_id: self.device_id@,
            fingerprint_hash: self.fingerprint_hash@,
            last_seen: self.last_seen,
            last_ip: text_of(self.last_ip),
            geo_country: text_of(self.geo_country),
            geo_region: text_of(self.geo_region),
            geo_city: text_of(self.geo_city),
            app_version: text_of(self.app_version),
            created_at: self.created_at,
        }
    }
}

/// One reported snapshot, as logged.
#[derive(Clone, Debug)]
pub struct ConfigSnapshot {
    pub id: i64,
    pub device_id: String,
    pub body: serde_json::Value,
    pub created_at: Timestamp,
}

/// The view of a `ConfigSnapshot`.
pub struct ConfigSnapshotView {
    pub id: i64,
    pub device_id: Seq<char>,
    pub body: serde_json::Value,
    pub created_at: Timestamp,
}

impl View for ConfigSnapshot {
    type V = ConfigSnapshotView;

    open spec fn view(&self) -> ConfigSnapshotView {
        ConfigSnapshotView {
            id: self.id,
            device_id: self.device_id@,
            body: self.body,
            created_at: self.created_at,
        }
    }
}

/// The configuration that an operator wants a device to adopt, with the
/// number of times it was written for that device. The store files it under
/// the device's id.
#[derive(Clone, Debug)]
pub struct AdminConfig {
    pub version: i64,
    pub body: serde_json::Value,
    pub updated_at: Timestamp,
}

/// What a device sends when it syncs.
#[derive(Clone, Debug)]
pub struct SyncRequest {
    pub device_id: String,
    pub app_version: Option<String>,
    pub applied_admin_version: Option<i64>,
    pub snapshot: serde_json::Value,
    pub client_time: Option<String>,
}

/// What the service answers to a sync.
#[derive(Clone, Debug)]
pub struct SyncResponse {
    pub ok: bool,
    pub server_time: String,
    pub admin_config: Option<serde_json::Value>,
    pub admin_version: Option<i64>,
}

/// An operator's push for one device.
#[derive(Clone, Debug)]
pub struct AdminConfigRequest {
    pub config: serde_json::Value,
}

/// The answer to a push: the version that the device's configuration now has.
#[derive(Clone, Copy, Debug, PartialEq, Eq, Structural)]
pub struct AdminConfigResponse {
    pub ok: bool,
    pub version: i64,
}

/// An operator's push for many devices.
#[derive(Clone, Debug)]
pub struct BatchConfigRequest {
    pub device_ids: Vec<String>,
    pub config: serde_json::Value,
}

/// The answer to a batch: how many devices were written.
#[derive(Clone, Copy, Debug, PartialEq, Eq, Structural)]
pub struct BatchConfigResponse {
    pub ok: bool,
    pub updated: u64,
}

/// A device as operators see it: its row, how many snapshots it reported and
/// when last, and the version and age of its pushed configuration.
#[derive(Clone, Debug)]
pub struct DeviceSummary {
    pub device_id: String,
    pub fingerprint_hash: String,
    pub last_seen: Option<Timestamp>,
    pub last_ip: Option<String>,
    pub geo_country: Option<String>,
    pub geo_region: Option<String>,
    pub geo_city: Option<String>,
    pub app_version: Option<String>,
    pub created_at: Option<Timestamp>,
    pub snapshot_count: i64,
    pub last_snapshot_at: Option<Timestamp>,
    pub admin_version: Option<i64>,
    pub admin_updated_at: Option<Timestamp>,
}

/// The view of a `DeviceSummary`.
pub struct DeviceSummaryView {
    pub device_id: Seq<char>,
    pub fingerprint_hash: Seq<char>,
    pub last_seen: Option<Timestamp>,
    pub last_ip: Option<Seq<char>>,
    pub geo_country: Option<Seq<char>>,
    pub geo_region: Option<Seq<char>>,
    pub geo_city: Option<Seq<char>>,
    pub app_version: Option<Seq<char>>,
    pub created_at: Option<Timestamp>,
    pub snapshot_count: i64,
    pub last_snapshot_at: Option<Timestamp>,
    pub admin_version: Option<i64>,
    pub admin_updated_at: Option<Timestamp>,
}

impl View for DeviceSummary {
    type V = DeviceSummaryView;

    open spec fn view(&self) -> DeviceSummaryView {
        DeviceSummaryView {
            device_id: self.device_id@,
            fingerprint_hash: self.fingerprint_hash@,
            last_seen: self.last_seen,
            last_ip: text_of(self.last_ip),
            geo_country: text_of(self.geo_country),
            geo_region: text_of(self.geo_region),
            geo_city: text_of(self.geo_city),
            app_version: text_of(self.app_version),
            created_at: self.created_at,
            snapshot_count: self.snapshot_count,
            last_snapshot_at: self.last_snapshot_at,
            admin_version: self.admin_version,
            admin_updated_at: self.admin_updated_at,
        }
    }
}

/// The list of all devices.
#[derive(Clone, Debug)]
pub struct DeviceListResponse {
    pub devices: Vec<DeviceSummary>,
}

/// A logged snapshot as listed.
#[derive(Clone, Debug)]
pub struct SnapshotItem {
    pub id: i64,
    pub created_at: Timestamp,
    pub snapshot: serde_json::Value,
}

/// A device's pushed configuration as shown to operators.
#[derive(Clone, Debug)]
pub struct AdminConfigItem {
    pub version: i64,
    pub updated_at: Timestamp,
    pub config: serde_json::Value,
}

/// The pushed configuration as the sync reads it.
#[derive(Clone, Debug)]
pub struct AdminConfigRow {
    pub version: i64,
    pub config: serde_json::Value,
}

/// One device in detail.
#[derive(Clone, Debug)]
pub struct DeviceDetailResponse {
    pub device: DeviceSummary,
    pub snapshots: Vec<SnapshotItem>,
    pub admin_config: Option<AdminConfigItem>,
}

} // verus!
