//! One configuration for many devices.

use vstd::prelude::*;

use crate::server::admin::{AdminConfigStore, next_version, pushed, upsert_admin_config_value};
use crate::server::error::{ApiError, ApiErrorKind};
use crate::server::model::AdminConfig;
use crate::server::registry::DeviceRegistry;
use crate::text::{contains_text, texts_of};
use crate::text_map::row_of;
use crate::time::Timestamp;

verus! {

/// The devices of `ids`, in that order, that `wanted` names.
pub open spec fn batch_targets(ids: Seq<Seq<char>>, wanted: Seq<Seq<char>>) -> Seq<Seq<char>>
    decreases ids.len(),
{
    if ids.len() == 0 {
        Seq::empty()
    } else {
        let rest = batch_targets(ids.drop_last(), wanted);
        if wanted.contains(ids.last()) {
            rest.push(ids.last())
        } else {
            rest
        }
    }
}

/// The store after one write of `body` for each of `targets` in turn.
pub open spec fn pushed_each(
    configs: Map<Seq<char>, AdminConfig>,
    targets: Seq<Seq<char>>,
    body: serde_json::Value,
    now: Timestamp,
) -> Map<Seq<char>, AdminConfig>
    decreases targets.len(),
{
    if targets.len() == 0 {
        configs
    } else {
        pushed(pushed_each(configs, targets.drop_last(), body, now), targets.last(), body, now)
    }
}

/// What a batch has written after the first `i` devices of `ids` is the
/// beginning of what it writes in all.
pub proof fn lemma_batch_targets_grow(ids: Seq<Seq<char>>, wanted: Seq<Seq<char>>, i: int)
    requires
        0 <= i <= ids.len(),
    ensures
        batch_targets(ids.take(i), wanted).len() <= batch_targets(ids, wanted).len(),
        batch_targets(ids.take(i), wanted) == batch_targets(ids, wanted).take(
            batch_targets(ids.take(i), wanted).len() as int,
        ),
        i < ids.len() && wanted.contains(ids[i]) ==> batch_targets(ids.take(i), wanted).len()
            < batch_targets(ids, wanted).len() && batch_targets(ids, wanted)[batch_targets(
            ids.take(i),
            wanted,
        ).len() as int] == ids[i],
    decreases ids.len(),
{
    if i == ids.len() {
        assert(ids.take(i) =~= ids);
        assert(batch_targets(ids, wanted).take(batch_targets(ids, wanted).len() as int)
            =~= batch_targets(ids, wanted));
    } else {
        let shorter = ids.drop_last();
        assert(shorter.take(i) =~= ids.take(i));
        lemma_batch_targets_grow(shorter, wanted, i);
        let part = batch_targets(ids.take(i), wanted);
        let most = batch_targets(shorter, wanted);
        let all = batch_targets(ids, wanted);
        assert(most.take(part.len() as int) =~= all.take(part.len() as int));
        if i == ids.len() - 1 {
            assert(shorter.take(i) =~= shorter);
        }
    }
}

/// A batch writes for exactly the devices that it names and the service
/// knows, once each: their version goes up by one and they hold the new
/// document; every other device keeps what it had.
pub proof fn lemma_batch_writes_known_only(
    ids: Seq<Seq<char>>,
    wanted: Seq<Seq<char>>,
    configs: Map<Seq<char>, AdminConfig>,
    body: serde_json::Value,
    now: Timestamp,
)
    requires
        ids.no_duplicates(),
    ensures
        batch_targets(ids, wanted).no_duplicates(),
        forall|id: Seq<char>|
            batch_targets(ids, wanted).contains(id) <==> ids.contains(id) && wanted.contains(id),
        forall|id: Seq<char>|
            !batch_targets(ids, wanted).contains(id) ==> row_of(
                pushed_each(configs, batch_targets(ids, wanted), body, now),
                id,
            ) == row_of(configs, id),
        forall|id: Seq<char>|
            batch_targets(ids, wanted).contains(id) ==> row_of(
                pushed_each(configs, batch_targets(ids, wanted), body, now),
                id,
            ) == Some(
                AdminConfig {
                    version: next_version(row_of(configs, id)) as i64,
                    body: body,
                    updated_at: now,
                },
            ),
    decreases ids.len(),
{
    let targets = batch_targets(ids, wanted);
    if ids.len() == 0 {
    } else {
        let shorter = ids.drop_last();
        let last = ids.last();
        let rest = batch_targets(shorter, wanted);
        lemma_batch_writes_known_only(shorter, wanted, configs, body, now);
        assert(!shorter.contains(last)) by {
            if shorter.contains(last) {
                let j = choose|j: int| 0 <= j < shorter.len() && shorter[j] == last;
                assert(ids[j] == ids[ids.len() - 1]);
            }
        }
        assert forall|id: Seq<char>| ids.contains(id) <==> shorter.contains(id) || id == last by {
            if ids.contains(id) {
                let j = choose|j: int| 0 <= j < ids.len() && ids[j] == id;
                if j < shorter.len() {
                    assert(shorter[j] == id);
                }
            }
            if shorter.contains(id) {
                let j = choose|j: int| 0 <= j < shorter.len() && shorter[j] == id;
                assert(ids[j] == id);
            }
            if id == last {
                assert(ids[ids.len() - 1] == id);
            }
        }
        if wanted.contains(last) {
            assert(targets == rest.push(last));
            assert(targets.drop_last() =~= rest);
            assert(targets.last() == last);
            assert forall|id: Seq<char>| targets.contains(id) <==> rest.contains(id) || id
                == last by {
                if targets.contains(id) {
                    let j = choose|j: int| 0 <= j < targets.len() && targets[j] == id;
                    if j < rest.len() {
                        assert(rest[j] == id);
                    }
                }
                if rest.contains(id) {
                    let j = choose|j: int| 0 <= j < rest.len() && rest[j] == id;
                    assert(targets[j] == id);
                }
                if id == last {
                    assert(targets[targets.len() - 1] == id);
                }
            }
            assert(!rest.contains(last));
            assert forall|a: int, b: int| 0 <= a < b < targets.len() implies targets[a]
                != targets[b] by {
                if b == targets.len() - 1 {
                    assert(rest.contains(rest[a]));
                }
            }
        }
    }
}

/// Whether every write of a batch up to the one for `targets[upto]` can
/// take the next version.
pub open spec fn batch_fits(
    configs: Map<Seq<char>, AdminConfig>,
    targets: Seq<Seq<char>>,
    body: serde_json::Value,
    now: Timestamp,
    upto: int,
) -> bool {
    forall|done: int|
        0 <= done < upto ==> next_version(
            row_of(#[trigger] pushed_each(configs, targets.take(done), body, now), targets[done]),
        ) <= i64::MAX
}

/// Writes one configuration for many devices: for each device that the
/// registry knows and `device_ids` names, once, in the order of the
/// registry. Gives the number of devices written. The writes are not undone
/// where a later one fails: the call then fails with the earlier ones made.
pub fn apply_to_many(
    devices: &DeviceRegistry,
    store: &mut AdminConfigStore,
    device_ids: &Vec<String>,
    body: &serde_json::Value,
    now: Timestamp,
) -> (r: Result<u64, ApiError>)
    ensures
        ({
            let targets = batch_targets(devices.ids(), texts_of(device_ids@));
            match r {
                Ok(updated) => {
                    &&& batch_fits(old(store)@, targets, *body, now, targets.len() as int)
                    &&& final(store)@ == pushed_each(old(store)@, targets, *body, now)
                    &&& updated == targets.len()
                },
                Err(e) => {
                    &&& e.is(ApiErrorKind::Storage, "storage failure"@)
                    &&& exists|done: int|
                        0 <= done < targets.len() && batch_fits(
                            old(store)@,
                            targets,
                            *body,
                            now,
                            done,
                        ) && final(store)@ == #[trigger] pushed_each(
                            old(store)@,
                            targets.take(done),
                            *body,
                            now,
                        ) && next_version(row_of(final(store)@, targets[done])) > i64::MAX
                },
            }
        }),
{
    let n = devices.len();
    let ghost ids = devices.ids();
    let ghost wanted = texts_of(device_ids@);
    let ghost targets = batch_targets(ids, wanted);
    let ghost before = store@;
    let mut updated: u64 = 0;
    let mut i: usize = 0;
    assert(ids.take(0) =~= Seq::<Seq<char>>::empty());
    while i < n
        invariant
            i <= n,
            n == ids.len(),
            ids == devices.ids(),
            wanted == texts_of(device_ids@),
            targets == batch_targets(ids, wanted),
            before == old(store)@,
            updated == batch_targets(ids.take(i as int), wanted).len(),
            updated <= i,
            store@ == pushed_each(before, batch_targets(ids.take(i as int), wanted), *body, now),
            batch_fits(before, targets, *body, now, updated as int),
        decreases n - i,
    {
        let ghost part = batch_targets(ids.take(i as int), wanted);
        proof {
            lemma_batch_targets_grow(ids, wanted, i as int);
            assert(ids.take(i + 1).drop_last() =~= ids.take(i as int));
            assert(ids.take(i + 1).last() == ids[i as int]);
        }
        let row = devices.row_at(i);
        if contains_text(device_ids, row.device_id.as_str()) {
            assert(part == targets.take(updated as int));
            assert(targets[updated as int] == ids[i as int]);
            match upsert_admin_config_value(store, row.device_id.as_str(), body, now) {
                Ok(_) => {
                    proof {
                        let next = batch_targets(ids.take(i + 1), wanted);
                        assert(next == part.push(ids[i as int]));
                        assert(next.drop_last() =~= part);
                    }
                    updated += 1;
                },
                Err(e) => {
                    proof {
                        let done = updated as int;
                        assert(store@ == pushed_each(before, targets.take(done), *body, now));
                        assert(next_version(row_of(store@, targets[done])) > i64::MAX);
                    }
                    return Err(e);
                },
            }
        }
        i += 1;
    }
    proof {
        assert(ids.take(n as int) =~= ids);
    }
    Ok(updated)
}

} // verus!
