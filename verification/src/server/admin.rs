//! The configuration that operators push: one current document per device,
//! with a version that counts the writes.

use vstd::prelude::*;

use crate::server::error::{ApiError, ApiErrorKind};
use crate::server::model::{AdminConfig, AdminConfigRow};
use crate::text_map::{TextMap, row_of};
use crate::time::Timestamp;

verus! {

/// The version that the next write gives a device: 1 where nothing was
/// written yet, else one more than the current version.
pub open spec fn next_version(current: Option<AdminConfig>) -> int {
    match current {
        Some(row) => row.version + 1,
        None => 1,
    }
}

/// The store after a write for one device: its entry holds the next version,
/// the new document and the instant of the write; every other entry stays.
pub open spec fn pushed(
    configs: Map<Seq<char>, AdminConfig>,
    device_id: Seq<char>,
    body: serde_json::Value,
    now: Timestamp,
) -> Map<Seq<char>, AdminConfig> {
    configs.insert(
        device_id,
        AdminConfig {
            version: next_version(row_of(configs, device_id)) as i64,
            body: body,
            updated_at: now,
        },
    )
}

/// The store after one write for `device_id` with each of `bodies` in turn,
/// the write of `bodies[i]` at `times[i]`.
pub open spec fn pushed_all(
    configs: Map<Seq<char>, AdminConfig>,
    device_id: Seq<char>,
    bodies: Seq<serde_json::Value>,
    times: Seq<Timestamp>,
) -> Map<Seq<char>, AdminConfig>
    decreases bodies.len(),
{
    if bodies.len() == 0 {
        configs
    } else {
        pushed(
            pushed_all(configs, device_id, bodies.drop_last(), times.drop_last()),
            device_id,
            bodies.last(),
            times.last(),
        )
    }
}

/// Before anything was written there is nothing to read, for any device.
pub proof fn lemma_read_before_write(device_id: Seq<char>)
    ensures
        row_of(Map::<Seq<char>, AdminConfig>::empty(), device_id) is None,
{
}

/// After a write, reading the device gives exactly what was written: the
/// document, the instant, and the next version. Other devices read as before.
pub proof fn lemma_read_after_write(
    configs: Map<Seq<char>, AdminConfig>,
    device_id: Seq<char>,
    body: serde_json::Value,
    now: Timestamp,
)
    requires
        next_version(row_of(configs, device_id)) <= i64::MAX,
    ensures
        row_of(pushed(configs, device_id, body, now), device_id) == Some(
            AdminConfig {
                version: next_version(row_of(configs, device_id)) as i64,
                body: body,
                updated_at: now,
            },
        ),
        forall|other: Seq<char>|
            other != device_id ==> row_of(pushed(configs, device_id, body, now), other) == row_of(
                configs,
                other,
            ),
{
}

/// Writing n times for a device that had no configuration leaves it at
/// version n, whatever the documents were, and holding the last of them.
pub proof fn lemma_version_counts_writes(
    configs: Map<Seq<char>, AdminConfig>,
    device_id: Seq<char>,
    bodies: Seq<serde_json::Value>,
    times: Seq<Timestamp>,
)
    requires
        !configs.contains_key(device_id),
        bodies.len() == times.len(),
        1 <= bodies.len() <= i64::MAX,
    ensures
        pushed_all(configs, device_id, bodies, times).contains_key(device_id),
        pushed_all(configs, device_id, bodies, times)[device_id].version == bodies.len(),
        pushed_all(configs, device_id, bodies, times)[device_id].body == bodies.last(),
        pushed_all(configs, device_id, bodies, times)[device_id].updated_at == times.last(),
    decreases bodies.len(),
{
    if bodies.len() > 1 {
        lemma_version_counts_writes(configs, device_id, bodies.drop_last(), times.drop_last());
    } else {
        assert(pushed_all(configs, device_id, bodies.drop_last(), times.drop_last()) == configs);
    }
}

/// Each write raises the version of a device that has a configuration by
/// exactly one, whatever the document.
pub proof fn lemma_write_adds_one(
    configs: Map<Seq<char>, AdminConfig>,
    device_id: Seq<char>,
    body: serde_json::Value,
    now: Timestamp,
)
    requires
        configs.contains_key(device_id),
        configs[device_id].version < i64::MAX,
    ensures
        pushed(configs, device_id, body, now)[device_id].version == configs[device_id].version
            + 1,
{
}

/// The pushed configurations, by device id.
pub struct AdminConfigStore {
    rows: TextMap<AdminConfig>,
}

impl View for AdminConfigStore {
    type V = Map<Seq<char>, AdminConfig>;

    closed spec fn view(&self) -> Map<Seq<char>, AdminConfig> {
        self.rows@
    }
}

impl AdminConfigStore {
    #[verifier::type_invariant]
    spec fn versions_positive(self) -> bool {
        forall|k: Seq<char>| #[trigger] self.rows@.contains_key(k) ==> self.rows@[k].version >= 1
    }

    /// What holds of every store: versions start at 1.
    pub open spec fn consistent(self) -> bool {
        forall|k: Seq<char>| #[trigger] self@.contains_key(k) ==> self@[k].version >= 1
    }

    /// A store without configurations.
    pub fn new() -> (store: Self)
        ensures
            store@ == Map::<Seq<char>, AdminConfig>::empty(),
    {
        AdminConfigStore { rows: TextMap::new() }
    }

    /// The current configuration of a device, if one was ever pushed.
    pub fn get(&self, device_id: &str) -> (current: Option<&AdminConfig>)
        ensures
            match current {
                Some(row) => row_of(self@, device_id@) == Some(*row),
                None => row_of(self@, device_id@) is None,
            },
            self.consistent(),
    {
        proof {
            use_type_invariant(self);
        }
        self.rows.get(device_id)
    }

    /// Puts back a configuration that was kept elsewhere, as it is, in place
    /// of the device's current one. A configuration whose version is below
    /// 1 is not taken.
    pub fn restore(&mut self, device_id: &str, row: AdminConfig) -> (taken: bool)
        ensures
            taken == (row.version >= 1),
            final(self)@ == if row.version >= 1 {
                old(self)@.insert(device_id@, row)
            } else {
                old(self)@
            },
    {
        proof {
            use_type_invariant(&*self);
        }
        if row.version < 1 {
            return false;
        }
        let mut rows: TextMap<AdminConfig> = TextMap::new();
        std::mem::swap(&mut rows, &mut self.rows);
        rows.insert(device_id.to_owned(), row);
        self.rows = rows;
        true
    }

    /// Writes a configuration for a device in one step: version 1 where it
    /// had none, else the current version plus one, with the new document
    /// and instant. Gives the new version. Fails, and changes nothing, only
    /// where the version cannot grow.
    pub fn upsert_increment(
        &mut self,
        device_id: &str,
        body: serde_json::Value,
        now: Timestamp,
    ) -> (r: Result<i64, ApiError>)
        ensures
            next_version(row_of(old(self)@, device_id@)) <= i64::MAX ==> r == Ok::<i64, ApiError>(
                next_version(row_of(old(self)@, device_id@)) as i64,
            ) && final(self)@ == pushed(old(self)@, device_id@, body, now),
            next_version(row_of(old(self)@, device_id@)) > i64::MAX ==> final(self)@ == old(
                self,
            )@ && (r matches Err(e) && e.is(ApiErrorKind::Storage, "storage failure"@)),
    {
        proof {
            use_type_invariant(&*self);
        }
        let version: i64 = match self.rows.get(device_id) {
            Some(row) => {
                if row.version == i64::MAX {
                    return Err(ApiError::storage());
                }
                row.version + 1
            },
            None => 1,
        };
        let mut rows: TextMap<AdminConfig> = TextMap::new();
        std::mem::swap(&mut rows, &mut self.rows);
        rows.insert(device_id.to_owned(), AdminConfig { version, body, updated_at: now });
        self.rows = rows;
        Ok(version)
    }
}

/// Reads the configuration that a sync hands to the device.
pub fn fetch_admin_config(store: &AdminConfigStore, device_id: &str) -> (r: Result<
    Option<AdminConfigRow>,
    ApiError,
>)
    ensures
        r matches Ok(found) && match found {
            Some(row) => row_of(store@, device_id@) matches Some(current) && row.version
                == current.version && row.config == current.body,
            None => row_of(store@, device_id@) is None,
        },
{
    match store.get(device_id) {
        Some(row) => Ok(Some(AdminConfigRow { version: row.version, config: row.body.clone() })),
        None => Ok(None),
    }
}

/// Writes `config` for a device and gives the version it now has.
pub fn upsert_admin_config_value(
    store: &mut AdminConfigStore,
    device_id: &str,
    config: &serde_json::Value,
    now: Timestamp,
) -> (r: Result<i64, ApiError>)
    ensures
        next_version(row_of(old(store)@, device_id@)) <= i64::MAX ==> r == Ok::<i64, ApiError>(
            next_version(row_of(old(store)@, device_id@)) as i64,
        ) && final(store)@ == pushed(old(store)@, device_id@, *config, now),
        next_version(row_of(old(store)@, device_id@)) > i64::MAX ==> final(store)@ == old(store)@
            && (r matches Err(e) && e.is(ApiErrorKind::Storage, "storage failure"@)),
{
    store.upsert_increment(device_id, config.clone(), now)
}

} // verus!
