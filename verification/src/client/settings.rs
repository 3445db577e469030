//! The client's settings: a store of text under text keys, and the three
//! entries that the sync keeps in it.

use vstd::prelude::*;
use vstd::string::*;

use crate::decimal::{decimal_text, format_i64, lemma_parse_of_text, parse_i64, parsed_i64};
use crate::text_map::{TextMap, row_of};
use crate::time::Timestamp;

verus! {

/// The key of the device id.
pub const SETTINGS_DEVICE_ID: &'static str = "management_device_id";

/// The key of the last version of a pushed configuration that was applied.
pub const SETTINGS_APPLIED_ADMIN_VERSION: &'static str = "management_admin_version";

/// The key of the instant of the last sync that the service accepted.
pub const SETTINGS_LAST_SYNC_AT: &'static str = "management_last_sync_at";

/// The settings of one installation.
pub struct Settings {
    entries: TextMap<String>,
}

impl View for Settings {
    type V = Map<Seq<char>, Seq<char>>;

    closed spec fn view(&self) -> Map<Seq<char>, Seq<char>> {
        self.entries@.map_values(|v: String| v@)
    }
}

impl Settings {
    /// Settings without entries.
    pub fn new() -> (settings: Self)
        ensures
            settings@ == Map::<Seq<char>, Seq<char>>::empty(),
    {
        let settings = Settings { entries: TextMap::new() };
        assert(settings@ =~= Map::<Seq<char>, Seq<char>>::empty());
        settings
    }

    /// The text under `key`, if there is one.
    pub fn get_setting(&self, key: &str) -> (value: Option<String>)
        ensures
            crate::text::text_of(value) == row_of(self@, key@),
    {
        match self.entries.get(key) {
            Some(v) => Some(v.clone()),
            None => None,
        }
    }

    /// Puts `value` under `key`, in place of what was there.
    pub fn set_setting(&mut self, key: &str, value: &str)
        ensures
            final(self)@ == old(self)@.insert(key@, value@),
    {
        let ghost before = *self;
        self.entries.insert(key.to_owned(), value.to_owned());
        assert(self@ =~= before@.insert(key@, value@));
    }
}

/// The applied version that settings name: the number under its key, where
/// that is a number above zero.
pub open spec fn applied_version(settings: Map<Seq<char>, Seq<char>>) -> Option<i64> {
    match row_of(settings, SETTINGS_APPLIED_ADMIN_VERSION@) {
        Some(text) => match parsed_i64(text) {
            Some(v) => if v > 0 {
                Some(v as i64)
            } else {
                None
            },
            None => None,
        },
        None => None,
    }
}

/// The last version of a pushed configuration that was applied, if the
/// settings hold one. Text that is no number, and a number that is not
/// above zero, count as none.
pub fn get_applied_admin_version(db: &Settings) -> (version: Option<i64>)
    ensures
        version == applied_version(db@),
{
    match db.get_setting(SETTINGS_APPLIED_ADMIN_VERSION) {
        Some(text) => match parse_i64(text.as_str()) {
            Some(v) => if v > 0 {
                Some(v)
            } else {
                None
            },
            None => None,
        },
        None => None,
    }
}

/// Records the version of the pushed configuration that was applied.
pub fn set_applied_admin_version(db: &mut Settings, version: i64)
    ensures
        final(db)@ == old(db)@.insert(
            SETTINGS_APPLIED_ADMIN_VERSION@,
            decimal_text(version as int),
        ),
{
    let text = format_i64(version);
    db.set_setting(SETTINGS_APPLIED_ADMIN_VERSION, text.as_str());
}

/// Records the instant of a sync that the service accepted.
pub fn set_last_sync_at(db: &mut Settings, at: Timestamp)
    ensures
        final(db)@ == old(db)@.insert(SETTINGS_LAST_SYNC_AT@, at.rfc3339()),
{
    let text = at.to_rfc3339();
    db.set_setting(SETTINGS_LAST_SYNC_AT, text.as_str());
}

/// A version above zero that was recorded is the version that is read.
pub proof fn lemma_applied_version_read_back(settings: Map<Seq<char>, Seq<char>>, version: i64)
    requires
        version > 0,
    ensures
        applied_version(
            settings.insert(SETTINGS_APPLIED_ADMIN_VERSION@, decimal_text(version as int)),
        ) == Some(version),
{
    lemma_parse_of_text(version);
}

} // verus!
