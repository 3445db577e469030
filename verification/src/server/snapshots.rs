//! The log of reported snapshots: append only, listed newest first.

use vstd::prelude::*;

use crate::ordering::{is_newest_first, newest_first};
use crate::server::error::{ApiError, ApiErrorKind};
use crate::server::model::{ConfigSnapshot, ConfigSnapshotView, SnapshotItem};
use crate::text::same_text;
use crate::time::Timestamp;

verus! {

/// How many snapshots a listing shows at most.
pub const LISTING_LIMIT: usize = 20;

/// A logged snapshot as a listing shows it.
pub open spec fn item_of(snapshot: ConfigSnapshotView) -> SnapshotItem {
    SnapshotItem { id: snapshot.id, created_at: snapshot.created_at, snapshot: snapshot.body }
}

/// How many snapshots of `device` the log holds.
pub open spec fn snapshot_count(log: Seq<ConfigSnapshotView>, device: Seq<char>) -> nat
    decreases log.len(),
{
    if log.len() == 0 {
        0
    } else {
        snapshot_count(log.drop_last(), device) + if log.last().device_id == device {
            1nat
        } else {
            0nat
        }
    }
}

/// Whether `at` is the instant of the latest snapshot of `device`: `None`
/// where the log holds none of it.
pub open spec fn is_latest(
    log: Seq<ConfigSnapshotView>,
    device: Seq<char>,
    at: Option<Timestamp>,
) -> bool {
    match at {
        Some(t) => {
            &&& exists|k: int|
                0 <= k < log.len() && (#[trigger] log[k]).device_id == device && log[k].created_at
                    == t
            &&& forall|k: int|
                0 <= k < log.len() && (#[trigger] log[k]).device_id == device
                    ==> log[k].created_at@ <= t@
        },
        None => forall|k: int| 0 <= k < log.len() ==> (#[trigger] log[k]).device_id != device,
    }
}

/// Whether `items` lists the snapshots at the places `picks` of the log:
/// each place once, all of `device`, never an older one before a newer one,
/// at most `limit`, and none left out unless the listing is full and holds
/// nothing older than it.
pub open spec fn lists_places(
    log: Seq<ConfigSnapshotView>,
    device: Seq<char>,
    limit: nat,
    items: Seq<SnapshotItem>,
    picks: Seq<int>,
) -> bool {
    &&& picks.len() == items.len()
    &&& items.len() <= limit
    &&& picks.no_duplicates()
    &&& forall|t: int|
        0 <= t < picks.len() ==> {
            &&& 0 <= #[trigger] picks[t] < log.len()
            &&& log[picks[t]].device_id == device
            &&& items[t] == item_of(log[picks[t]])
        }
    &&& forall|s: int, t: int|
        0 <= s < t < items.len() ==> (#[trigger] items[s]).created_at@ >= (
        #[trigger] items[t]).created_at@
    &&& forall|k: int|
        0 <= k < log.len() && (#[trigger] log[k]).device_id == device && !picks.contains(k) ==> {
            &&& items.len() == limit
            &&& forall|t: int|
                0 <= t < items.len() ==> (#[trigger] items[t]).created_at@ >= log[k].created_at@
        }
}

/// Whether `items` lists the newest snapshots of `device`, newest first and
/// at most `limit` of them. Which of two snapshots of one instant comes
/// first, or is left out of a full listing, is open.
pub open spec fn is_listing(
    log: Seq<ConfigSnapshotView>,
    device: Seq<char>,
    limit: nat,
    items: Seq<SnapshotItem>,
) -> bool {
    exists|picks: Seq<int>| lists_places(log, device, limit, items, picks)
}

/// A snapshot that is newer than every other snapshot of its device comes
/// first in any listing of that device with room for one.
pub proof fn lemma_newest_listed_first(
    log: Seq<ConfigSnapshotView>,
    device: Seq<char>,
    limit: nat,
    items: Seq<SnapshotItem>,
    newest: int,
)
    requires
        is_listing(log, device, limit, items),
        limit >= 1,
        0 <= newest < log.len(),
        log[newest].device_id == device,
        forall|k: int|
            0 <= k < log.len() && k != newest && (#[trigger] log[k]).device_id == device
                ==> log[k].created_at@ < log[newest].created_at@,
    ensures
        items.len() >= 1,
        items[0] == item_of(log[newest]),
{
    let picks = choose|picks: Seq<int>| lists_places(log, device, limit, items, picks);
    if !picks.contains(newest) {
        assert(items.len() == limit);
        let other = picks[0];
        assert(items[0] == item_of(log[other]));
        assert(items[0].created_at@ >= log[newest].created_at@);
        assert(other != newest) by {
            assert(picks.contains(picks[0]));
        }
        assert(log[other].device_id == device);
        assert(false);
    }
    let p = choose|p: int| 0 <= p < picks.len() && picks[p] == newest;
    if p != 0 {
        let other = picks[0];
        assert(items[0] == item_of(log[other]));
        assert(items[p] == item_of(log[picks[p]]));
        assert(items[0].created_at@ >= items[p].created_at@);
        assert(log[other].device_id == device);
        assert(false);
    }
    assert(items[0] == item_of(log[picks[0]]));
}

/// The snapshots that devices reported, in the order in which they arrived.
pub struct SnapshotLog {
    rows: Vec<ConfigSnapshot>,
}

impl View for SnapshotLog {
    type V = Seq<ConfigSnapshotView>;

    closed spec fn view(&self) -> Seq<ConfigSnapshotView> {
        self.rows@.map_values(|r: ConfigSnapshot| r@)
    }
}

impl SnapshotLog {
    #[verifier::type_invariant]
    spec fn numbered(self) -> bool {
        &&& self.rows@.len() <= i64::MAX
        &&& forall|i: int| 0 <= i < self.rows@.len() ==> (#[trigger] self.rows@[i]).id == i + 1
    }

    /// What holds of every log: its snapshots are numbered from 1 in the
    /// order of their arrival.
    pub open spec fn consistent(self) -> bool {
        &&& self@.len() <= i64::MAX
        &&& forall|i: int| 0 <= i < self@.len() ==> (#[trigger] self@[i]).id == i + 1
    }

    /// An empty log.
    pub fn new() -> (log: Self)
        ensures
            log@ == Seq::<ConfigSnapshotView>::empty(),
    {
        let log = SnapshotLog { rows: Vec::new() };
        assert(log@ =~= Seq::<ConfigSnapshotView>::empty());
        log
    }

    /// The number of snapshots.
    pub fn len(&self) -> (n: usize)
        ensures
            n == self@.len(),
            self.consistent(),
    {
        proof {
            use_type_invariant(self);
        }
        self.rows.len()
    }

    /// Adds a snapshot at the end and gives its number. Nothing is ever
    /// removed or merged. Fails, and changes nothing, only where the numbers
    /// have run out.
    pub fn append(&mut self, device_id: &str, body: serde_json::Value, now: Timestamp) -> (r:
        Result<i64, ApiError>)
        ensures
            old(self)@.len() < i64::MAX ==> r == Ok::<i64, ApiError>(
                (old(self)@.len() + 1) as i64,
            ) && final(self)@ == old(self)@.push(
                ConfigSnapshotView {
                    id: (old(self)@.len() + 1) as i64,
                    device_id: device_id@,
                    body: body,
                    created_at: now,
                },
            ),
            old(self)@.len() >= i64::MAX ==> final(self)@ == old(self)@ && (r matches Err(e)
                && e.is(ApiErrorKind::Storage, "storage failure"@)),
    {
        proof {
            use_type_invariant(&*self);
        }
        let n: usize = self.rows.len();
        if n as u64 >= i64::MAX as u64 {
            return Err(ApiError::storage());
        }
        let id: i64 = (n as u64 + 1) as i64;
        let ghost before = *self;
        let mut rows: Vec<ConfigSnapshot> = Vec::new();
        std::mem::swap(&mut rows, &mut self.rows);
        rows.push(ConfigSnapshot { id, device_id: device_id.to_owned(), body, created_at: now });
        self.rows = rows;
        proof {
            assert(self@ =~= before@.push(
                ConfigSnapshotView { id, device_id: device_id@, body: body, created_at: now },
            ));
        }
        Ok(id)
    }

    /// How many snapshots of a device the log holds.
    pub fn count_for(&self, device_id: &str) -> (n: i64)
        ensures
            n == snapshot_count(self@, device_id@),
    {
        proof {
            use_type_invariant(self);
        }
        let mut n: i64 = 0;
        let mut i: usize = 0;
        assert(self@.take(0) =~= Seq::<ConfigSnapshotView>::empty());
        while i < self.rows.len()
            invariant
                i <= self.rows@.len(),
                self.rows@.len() <= i64::MAX,
                self@.len() == self.rows@.len(),
                forall|j: int| 0 <= j < self.rows@.len() ==> self@[j] == self.rows@[j]@,
                0 <= n <= i,
                n == snapshot_count(self@.take(i as int), device_id@),
            decreases self.rows@.len() - i,
        {
            assert(self@.take(i + 1).drop_last() =~= self@.take(i as int));
            if same_text(self.rows[i].device_id.as_str(), device_id) {
                n += 1;
            }
            i += 1;
        }
        assert(self@.take(i as int) =~= self@);
        n
    }

    /// The instant of the latest snapshot of a device.
    pub fn last_at(&self, device_id: &str) -> (at: Option<Timestamp>)
        ensures
            is_latest(self@, device_id@, at),
    {
        let mut at: Option<Timestamp> = None;
        let mut i: usize = 0;
        while i < self.rows.len()
            invariant
                i <= self.rows@.len(),
                self@.len() == self.rows@.len(),
                forall|j: int| 0 <= j < self.rows@.len() ==> self@[j] == self.rows@[j]@,
                is_latest(self@.take(i as int), device_id@, at),
            decreases self.rows@.len() - i,
        {
            let ghost shorter = self@.take(i as int);
            let ghost longer = self@.take(i + 1);
            let ghost earlier = at;
            if same_text(self.rows[i].device_id.as_str(), device_id) {
                let t = self.rows[i].created_at;
                let newer = match at {
                    Some(best) => best.is_before(&t),
                    None => true,
                };
                if newer {
                    at = Some(t);
                }
            }
            proof {
                assert forall|k: int| 0 <= k < i implies longer[k] == shorter[k] by {}
                assert(longer[i as int] == self@[i as int]);
                match at {
                    Some(t) => {
                        if earlier == at {
                            let k = choose|k: int|
                                0 <= k < shorter.len() && (#[trigger] shorter[k]).device_id
                                    == device_id@ && shorter[k].created_at == t;
                            assert(longer[k].device_id == device_id@ && longer[k].created_at == t);
                        } else {
                            let newest = longer[i as int];
                            assert(newest.device_id == device_id@ && newest.created_at == t);
                        }
                        assert forall|k: int|
                            0 <= k < longer.len() && (#[trigger] longer[k]).device_id
                                == device_id@ implies longer[k].created_at@ <= t@ by {
                            if k < i {
                                assert(shorter[k].device_id == device_id@);
                            }
                        }
                    },
                    None => {
                        assert forall|k: int| 0 <= k < longer.len() implies (
                        #[trigger] longer[k]).device_id != device_id@ by {
                            if k < i {
                                assert(shorter[k].device_id != device_id@);
                            }
                        }
                    },
                }
            }
            i += 1;
        }
        assert(self@.take(i as int) =~= self@);
        at
    }

    /// The newest snapshots of a device, newest first, at most `limit`.
    pub fn list(&self, device_id: &str, limit: usize) -> (items: Vec<SnapshotItem>)
        ensures
            is_listing(self@, device_id@, limit as nat, items@),
    {
        let mut places: Vec<usize> = Vec::new();
        let mut keys: Vec<Timestamp> = Vec::new();
        let mut i: usize = 0;
        while i < self.rows.len()
            invariant
                i <= self.rows@.len(),
                self@.len() == self.rows@.len(),
                forall|j: int| 0 <= j < self.rows@.len() ==> self@[j] == self.rows@[j]@,
                places@.len() == keys@.len(),
                forall|t: int|
                    0 <= t < places@.len() ==> (#[trigger] places@[t]) < i
                        && self@[places@[t] as int].device_id == device_id@ && keys@[t]
                        == self@[places@[t] as int].created_at,
                forall|s: int, t: int|
                    0 <= s < t < places@.len() ==> (#[trigger] places@[s]) < (
                    #[trigger] places@[t]),
                forall|k: int|
                    0 <= k < i && (#[trigger] self@[k]).device_id == device_id@
                        ==> places@.contains(k as usize),
            decreases self.rows@.len() - i,
        {
            if same_text(self.rows[i].device_id.as_str(), device_id) {
                let ghost before = places@;
                places.push(i);
                keys.push(self.rows[i].created_at);
                proof {
                    assert forall|k: int|
                        0 <= k < i + 1 && (#[trigger] self@[k]).device_id
                            == device_id@ implies places@.contains(k as usize) by {
                        if k < i {
                            assert(before.contains(k as usize));
                            let t = choose|t: int| 0 <= t < before.len() && before[t] == k as usize;
                            assert(places@[t] == k as usize);
                        } else {
                            assert(places@[before.len() as int] == k as usize);
                        }
                    }
                }
            }
            i += 1;
        }
        let order = newest_first(&keys);
        let mut items: Vec<SnapshotItem> = Vec::new();
        let mut t: usize = 0;
        while t < order.len() && t < limit
            invariant
                t <= order@.len(),
                t <= limit,
                items@.len() == t,
                is_newest_first(keys@, order@),
                places@.len() == keys@.len(),
                self@.len() == self.rows@.len(),
                forall|j: int| 0 <= j < self.rows@.len() ==> self@[j] == self.rows@[j]@,
                forall|u: int|
                    0 <= u < places@.len() ==> (#[trigger] places@[u]) < self.rows@.len(),
                forall|s: int|
                    0 <= s < t ==> (#[trigger] items@[s]) == item_of(
                        self@[places@[order@[s] as int] as int],
                    ),
            decreases order@.len() - t,
        {
            let row = &self.rows[places[order[t]]];
            items.push(
                SnapshotItem { id: row.id, created_at: row.created_at, snapshot: row.body.clone() },
            );
            t += 1;
        }
        proof {
            let log = self@;
            let picks = Seq::new(items@.len(), |s: int| places@[order@[s] as int] as int);
            assert forall|a: int, b: int| 0 <= a < b < picks.len() implies picks[a]
                != picks[b] by {
                let x = order@[a];
                let y = order@[b];
                assert(x != y);
                if x < y {
                    assert(places@[x as int] < places@[y as int]);
                } else {
                    assert(places@[y as int] < places@[x as int]);
                }
            }
            assert forall|a: int, b: int| 0 <= a < b < items@.len() implies (
            #[trigger] items@[a]).created_at@ >= (#[trigger] items@[b]).created_at@ by {
                assert(keys@[order@[a] as int]@ >= keys@[order@[b] as int]@);
            }
            assert forall|k: int|
                0 <= k < log.len() && (#[trigger] log[k]).device_id == device_id@
                    && !picks.contains(k) implies items@.len() == limit && forall|c: int|
                0 <= c < items@.len() ==> (#[trigger] items@[c]).created_at@
                    >= log[k].created_at@ by {
                assert(places@.contains(k as usize));
                let x = choose|x: int| 0 <= x < places@.len() && places@[x] == k as usize;
                assert(order@.contains(x as usize));
                let u = choose|u: int| 0 <= u < order@.len() && order@[u] == x as usize;
                if u < items@.len() {
                    assert(picks[u] == k);
                    assert(picks.contains(k));
                }
                assert forall|c: int| 0 <= c < items@.len() implies (
                #[trigger] items@[c]).created_at@ >= log[k].created_at@ by {
                    assert(keys@[order@[c] as int]@ >= keys@[order@[u] as int]@);
                }
            }
            assert(lists_places(log, device_id@, limit as nat, items@, picks));
        }
        items
    }
}

/// Logs the snapshot that a device reported at `now`.
pub fn insert_snapshot(
    log: &mut SnapshotLog,
    device_id: &str,
    snapshot: &serde_json::Value,
    now: Timestamp,
) -> (r: Result<(), ApiError>)
    ensures
        old(log)@.len() < i64::MAX ==> r is Ok && final(log)@ == old(log)@.push(
            ConfigSnapshotView {
                id: (old(log)@.len() + 1) as i64,
                device_id: device_id@,
                body: *snapshot,
                created_at: now,
            },
        ),
        old(log)@.len() >= i64::MAX ==> final(log)@ == old(log)@ && (r matches Err(e) && e.is(
            ApiErrorKind::Storage,
            "storage failure"@,
        )),
{
    match log.append(device_id, snapshot.clone(), now) {
        Ok(_) => Ok(()),
        Err(e) => Err(e),
    }
}

} // verus!
