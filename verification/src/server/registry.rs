//! The registry of devices: one row per device id, written by every sync.

use vstd::prelude::*;

use crate::server::error::ApiError;
use crate::server::model::{DeviceRecord, DeviceRecordView, GeoResult, GeoView, SyncRequest, geo_of};
use crate::text::{clone_text, text_of};
use crate::text_map::{TextMap, row_of};
use crate::time::Timestamp;

verus! {

/// The row of a device after a sync at `now`. A device seen before keeps its
/// id, fingerprint and `created_at`; a new one is created at `now`.
pub open spec fn seen(
    known: Option<DeviceRecordView>,
    device_id: Seq<char>,
    fingerprint_hash: Seq<char>,
    now: Timestamp,
    ip: Option<Seq<char>>,
    geo: Option<GeoView>,
    app_version: Option<Seq<char>>,
) -> DeviceRecordView {
    let country = match geo {
        Some(g) => g.country,
        None => None,
    };
    let region = match geo {
        Some(g) => g.region,
        None => None,
    };
    let city = match geo {
        Some(g) => g.city,
        None => None,
    };
    match known {
        Some(row) => DeviceRecordView {
            device_id: row.device_id,
            fingerprint_hash: row.fingerprint_hash,
            last_seen: now,
            last_ip: ip,
            geo_country: country,
            geo_region: region,
            geo_city: city,
            app_version: app_version,
            created_at: row.created_at,
        },
        None => DeviceRecordView {
            device_id: device_id,
            fingerprint_hash: fingerprint_hash,
            last_seen: now,
            last_ip: ip,
            geo_country: country,
            geo_region: region,
            geo_city: city,
            app_version: app_version,
            created_at: now,
        },
    }
}

/// The registry after the sync of one device: its row is inserted or
/// overwritten, every other row stays.
pub open spec fn upserted(
    devices: Map<Seq<char>, DeviceRecordView>,
    device_id: Seq<char>,
    fingerprint_hash: Seq<char>,
    now: Timestamp,
    ip: Option<Seq<char>>,
    geo: Option<GeoView>,
    app_version: Option<Seq<char>>,
) -> Map<Seq<char>, DeviceRecordView> {
    devices.insert(
        device_id,
        seen(row_of(devices, device_id), device_id, fingerprint_hash, now, ip, geo, app_version),
    )
}

/// Two syncs of a device that was unknown leave one row for it: it is
/// created at the first instant, and everything else is from the second.
pub proof fn lemma_upsert_twice(
    devices: Map<Seq<char>, DeviceRecordView>,
    device_id: Seq<char>,
    fingerprint_hash: Seq<char>,
    first: Timestamp,
    first_ip: Option<Seq<char>>,
    first_geo: Option<GeoView>,
    first_version: Option<Seq<char>>,
    second: Timestamp,
    second_ip: Option<Seq<char>>,
    second_geo: Option<GeoView>,
    second_version: Option<Seq<char>>,
)
    requires
        devices.dom().finite(),
        !devices.contains_key(device_id),
    ensures
        ({
            let once = upserted(
                devices,
                device_id,
                fingerprint_hash,
                first,
                first_ip,
                first_geo,
                first_version,
            );
            let twice = upserted(
                once,
                device_id,
                fingerprint_hash,
                second,
                second_ip,
                second_geo,
                second_version,
            );
            &&& twice.dom() == devices.dom().insert(device_id)
            &&& twice.dom().len() == devices.dom().len() + 1
            &&& twice.dom().len() == once.dom().len()
            &&& twice[device_id].app_version == second_version
            &&& twice[device_id].last_seen == second
            &&& twice[device_id].last_ip == second_ip
            &&& twice[device_id].created_at == first
            &&& forall|other: Seq<char>|
                other != device_id && devices.contains_key(other) ==> twice[other]
                    == devices[other]
        }),
{
    let once = upserted(
        devices,
        device_id,
        fingerprint_hash,
        first,
        first_ip,
        first_geo,
        first_version,
    );
    let twice = upserted(
        once,
        device_id,
        fingerprint_hash,
        second,
        second_ip,
        second_geo,
        second_version,
    );
    assert(twice.dom() =~= devices.dom().insert(device_id));
    assert(once.dom() =~= devices.dom().insert(device_id));
}

/// A sync never changes when a device was created, and never touches the
/// row of another device.
pub proof fn lemma_upsert_keeps_creation(
    devices: Map<Seq<char>, DeviceRecordView>,
    device_id: Seq<char>,
    fingerprint_hash: Seq<char>,
    now: Timestamp,
    ip: Option<Seq<char>>,
    geo: Option<GeoView>,
    app_version: Option<Seq<char>>,
)
    ensures
        ({
            let after = upserted(devices, device_id, fingerprint_hash, now, ip, geo, app_version);
            &&& after.contains_key(device_id)
            &&& after[device_id].created_at == if devices.contains_key(device_id) {
                devices[device_id].created_at
            } else {
                now
            }
            &&& after[device_id].last_seen == now
            &&& after[device_id].app_version == app_version
            &&& forall|other: Seq<char>|
                other != device_id ==> (after.contains_key(other) <==> devices.contains_key(
                    other,
                )) && (devices.contains_key(other) ==> after[other] == devices[other])
        }),
{
}

/// The devices that the service has seen, by device id.
pub struct DeviceRegistry {
    rows: TextMap<DeviceRecord>,
}

impl View for DeviceRegistry {
    type V = Map<Seq<char>, DeviceRecordView>;

    closed spec fn view(&self) -> Map<Seq<char>, DeviceRecordView> {
        self.rows@.map_values(|r: DeviceRecord| r@)
    }
}

impl DeviceRegistry {
    #[verifier::type_invariant]
    spec fn keyed_by_id(self) -> bool {
        forall|k: Seq<char>| #[trigger]
            self.rows@.contains_key(k) ==> self.rows@[k].device_id@ == k
    }

    /// The device ids in the order in which the devices were first seen.
    pub closed spec fn ids(self) -> Seq<Seq<char>> {
        self.rows.key_seq()
    }

    /// What holds of every registry: `ids` lists each device once, the view
    /// has a row for each of them and for no other, and each row is filed
    /// under its own id.
    pub open spec fn consistent(self) -> bool {
        &&& self.ids().no_duplicates()
        &&& self@.dom().finite()
        &&& self@.dom().len() == self.ids().len()
        &&& forall|k: Seq<char>| self@.contains_key(k) <==> self.ids().contains(k)
        &&& forall|k: Seq<char>| #[trigger] self@.contains_key(k) ==> self@[k].device_id == k
    }

    proof fn lemma_consistent(self)
        requires
            self.rows.consistent(),
            self.keyed_by_id(),
        ensures
            self.consistent(),
    {
        assert(self@.dom() =~= self.rows@.dom());
    }

    /// A registry without devices.
    pub fn new() -> (registry: Self)
        ensures
            registry@ == Map::<Seq<char>, DeviceRecordView>::empty(),
            registry.ids() == Seq::<Seq<char>>::empty(),
    {
        let registry = DeviceRegistry { rows: TextMap::new() };
        assert(registry@ =~= Map::<Seq<char>, DeviceRecordView>::empty());
        registry
    }

    /// The number of devices.
    pub fn len(&self) -> (n: usize)
        ensures
            n == self.ids().len(),
            self.consistent(),
    {
        proof {
            use_type_invariant(self);
        }
        let n = self.rows.len();
        proof {
            self.lemma_consistent();
        }
        n
    }

    /// The row of the device at place `i` of `ids`.
    pub fn row_at(&self, i: usize) -> (row: &DeviceRecord)
        requires
            i < self.ids().len(),
        ensures
            self@.contains_key(self.ids()[i as int]),
            row@ == self@[self.ids()[i as int]],
            row.device_id@ == self.ids()[i as int],
            self.consistent(),
    {
        proof {
            use_type_invariant(self);
        }
        let row = self.rows.value_at(i);
        proof {
            assert(self.rows.key_seq().contains(self.rows.key_seq()[i as int]));
            self.lemma_consistent();
        }
        row
    }

    /// The row of a device, if it was ever seen.
    pub fn get(&self, device_id: &str) -> (row: Option<&DeviceRecord>)
        ensures
            match row {
                Some(r) => row_of(self@, device_id@) == Some(r@) && r.device_id@ == device_id@,
                None => row_of(self@, device_id@) is None,
            },
    {
        proof {
            use_type_invariant(self);
        }
        self.rows.get(device_id)
    }

    /// Whether a device was ever seen.
    pub fn contains(&self, device_id: &str) -> (known: bool)
        ensures
            known == self@.contains_key(device_id@),
    {
        self.rows.contains_key(device_id)
    }

    /// Records a sync: inserts the device's row, or overwrites everything in
    /// it but the id, the fingerprint and `created_at`.
    pub fn upsert(
        &mut self,
        device_id: &str,
        fingerprint_hash: &str,
        now: Timestamp,
        ip: Option<String>,
        geo: Option<GeoResult>,
        app_version: Option<String>,
    )
        ensures
            final(self)@ == upserted(
                old(self)@,
                device_id@,
                fingerprint_hash@,
                now,
                text_of(ip),
                geo_of(geo),
                text_of(app_version),
            ),
            old(self)@.contains_key(device_id@) ==> final(self).ids() == old(self).ids(),
            !old(self)@.contains_key(device_id@) ==> final(self).ids() == old(self).ids().push(
                device_id@,
            ),
    {
        proof {
            use_type_invariant(&*self);
        }
        let (country, region, city) = match geo {
            Some(g) => (g.country, g.region, g.city),
            None => (None, None, None),
        };
        let record = match self.rows.get(device_id) {
            Some(row) => DeviceRecord {
                device_id: row.device_id.clone(),
                fingerprint_hash: row.fingerprint_hash.clone(),
                last_seen: now,
                last_ip: ip,
                geo_country: country,
                geo_region: region,
                geo_city: city,
                app_version,
                created_at: row.created_at,
            },
            None => DeviceRecord {
                device_id: device_id.to_owned(),
                fingerprint_hash: fingerprint_hash.to_owned(),
                last_seen: now,
                last_ip: ip,
                geo_country: country,
                geo_region: region,
                geo_city: city,
                app_version,
                created_at: now,
            },
        };
        let ghost before = *self;
        let mut rows: TextMap<DeviceRecord> = TextMap::new();
        std::mem::swap(&mut rows, &mut self.rows);
        rows.insert(device_id.to_owned(), record);
        self.rows = rows;
        proof {
            assert(self@ =~= upserted(
                before@,
                device_id@,
                fingerprint_hash@,
                now,
                text_of(ip),
                geo_of(geo),
                text_of(app_version),
            ));
        }
    }
}

/// Records the sync of `payload` at `now` from address `ip`, located at
/// `geo`. The fingerprint of a new device is its id.
pub fn upsert_device(
    devices: &mut DeviceRegistry,
    payload: &SyncRequest,
    now: Timestamp,
    ip: Option<String>,
    geo: Option<&GeoResult>,
) -> (r: Result<(), ApiError>)
    ensures
        r is Ok,
        final(devices)@ == upserted(
            old(devices)@,
            payload.device_id@,
            payload.device_id@,
            now,
            text_of(ip),
            match geo {
                Some(g) => Some(g@),
                None => None,
            },
            text_of(payload.app_version),
        ),
{
    let located = match geo {
        Some(g) => Some(
            GeoResult {
                country: clone_text(&g.country),
                region: clone_text(&g.region),
                city: clone_text(&g.city),
            },
        ),
        None => None,
    };
    devices.upsert(
        payload.device_id.as_str(),
        payload.device_id.as_str(),
        now,
        ip,
        located,
        clone_text(&payload.app_version),
    );
    Ok(())
}

} // verus!
