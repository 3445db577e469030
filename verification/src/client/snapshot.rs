//! What a device reports of itself, and how it adopts what is pushed to it:
//! the collector reads the provider store into a snapshot, the applier
//! replaces the store's providers by those of a pushed snapshot.

use indexmap::IndexMap;
use vstd::prelude::*;
use vstd::string::*;

use crate::client::error::{SyncError, SyncErrorKind};
use crate::client::providers::{
    AppProvidersView, AppType, Provider, ProviderStore, ProviderStoreView, ProviderView, added_all,
    clone_provider, distinct_keys, holds_key,
    holds_provider, lemma_added_all_holds, lemma_added_all_is_identity, provider_at,
    provider_count, provider_entries, provides,
};
use crate::text::{is_blank, is_blank_text, same_text};

verus! {

/// The providers of one application as reported or pushed: the id of the
/// provider in use, and the providers in order.
#[derive(Debug)]
pub struct AppProviderSnapshot {
    pub current_id: Option<String>,
    pub providers: IndexMap<String, Provider>,
}

/// The view of an `AppProviderSnapshot`.
pub struct AppSnapshotView {
    pub current_id: Option<Seq<char>>,
    pub providers: Seq<(Seq<char>, ProviderView)>,
}

impl View for AppProviderSnapshot {
    type V = AppSnapshotView;

    open spec fn view(&self) -> AppSnapshotView {
        AppSnapshotView {
            current_id: crate::text::text_of(self.current_id),
            providers: provider_entries(self.providers),
        }
    }
}

/// The view of an optional snapshot.
pub open spec fn snapshot_of(snapshot: Option<AppProviderSnapshot>) -> Option<AppSnapshotView> {
    match snapshot {
        Some(s) => Some(s@),
        None => None,
    }
}

/// The providers of a device, application by application. An application
/// without providers is left out.
#[derive(Debug)]
pub struct DeviceConfigSnapshot {
    pub claude: Option<AppProviderSnapshot>,
    pub codex: Option<AppProviderSnapshot>,
    pub gemini: Option<AppProviderSnapshot>,
}

/// The view of a `DeviceConfigSnapshot`.
pub struct DeviceConfigView {
    pub claude: Option<AppSnapshotView>,
    pub codex: Option<AppSnapshotView>,
    pub gemini: Option<AppSnapshotView>,
}

impl DeviceConfigView {
    /// The part of one application.
    pub open spec fn of(self, app: AppType) -> Option<AppSnapshotView> {
        match app {
            AppType::Claude => self.claude,
            AppType::Codex => self.codex,
            AppType::Gemini => self.gemini,
        }
    }
}

impl View for DeviceConfigSnapshot {
    type V = DeviceConfigView;

    open spec fn view(&self) -> DeviceConfigView {
        DeviceConfigView {
            claude: snapshot_of(self.claude),
            codex: snapshot_of(self.codex),
            gemini: snapshot_of(self.gemini),
        }
    }
}

/// What is reported of one application: nothing where it has no provider,
/// else its providers and the id of the one in use, if that is not blank.
pub open spec fn collected(set: AppProvidersView) -> Option<AppSnapshotView> {
    if set.providers.len() == 0 {
        None
    } else {
        Some(
            AppSnapshotView {
                current_id: if is_blank_text(set.current) {
                    None
                } else {
                    Some(set.current)
                },
                providers: set.providers,
            },
        )
    }
}

/// Why a pushed snapshot is turned down, if it is: it names no provider in
/// use, or one that it does not hold.
pub open spec fn snapshot_refusal(snapshot: AppSnapshotView) -> Option<
    (SyncErrorKind, Seq<char>),
> {
    match snapshot.current_id {
        None => Some(
            (SyncErrorKind::InvalidAdminConfig, "Admin config missing current provider"@),
        ),
        Some(current) => if holds_key(snapshot.providers, current) {
            None
        } else {
            Some(
                (
                    SyncErrorKind::InvalidAdminConfig,
                    "Admin config current provider not found: "@ + current,
                ),
            )
        },
    }
}

/// What applying a pushed snapshot makes of the set of one application, and
/// the failure that it ends with, if any. A failure leaves the set as it
/// was: that of a snapshot that is turned down, and that of a snapshot in
/// which no provider has the id of the provider in use, which the store
/// would refuse to put in use. Else the set holds the pushed providers and
/// no others, each under its own id, and the pushed provider in use is in
/// use.
pub open spec fn applied_app(before: AppProvidersView, snapshot: AppSnapshotView) -> (
    AppProvidersView,
    Option<(SyncErrorKind, Seq<char>)>,
) {
    match snapshot_refusal(snapshot) {
        Some(refusal) => (before, Some(refusal)),
        None => {
            let current = snapshot.current_id->0;
            if provides(snapshot.providers, current) {
                (
                    AppProvidersView {
                        current: current,
                        providers: added_all(Seq::empty(), snapshot.providers),
                    },
                    None,
                )
            } else {
                (before, Some((SyncErrorKind::ProviderStore, "Provider not found: "@ + current)))
            }
        },
    }
}

/// One step of applying a pushed document: the part of one application, if
/// the document has one.
pub open spec fn applied_step(
    before: ProviderStoreView,
    app: AppType,
    snapshot: Option<AppSnapshotView>,
) -> (ProviderStoreView, Option<(SyncErrorKind, Seq<char>)>) {
    match snapshot {
        Some(s) => {
            let (set, failure) = applied_app(before.of(app), s);
            (before.with(app, set), failure)
        },
        None => (before, None),
    }
}

/// What applying a pushed document makes of the store, and the failure
/// that it ends with, if any. The applications are taken in a fixed order,
/// and the first failure ends it: what was applied before stays applied,
/// what comes after is not touched.
pub open spec fn applied_config(before: ProviderStoreView, config: DeviceConfigView) -> (
    ProviderStoreView,
    Option<(SyncErrorKind, Seq<char>)>,
) {
    let first = applied_step(before, AppType::Claude, config.claude);
    if first.1 is Some {
        first
    } else {
        let second = applied_step(first.0, AppType::Codex, config.codex);
        if second.1 is Some {
            second
        } else {
            applied_step(second.0, AppType::Gemini, config.gemini)
        }
    }
}

/// Whether `r` fails with `failure`, or succeeds where there is none.
pub open spec fn ended<T>(
    r: Result<T, SyncError>,
    failure: Option<(SyncErrorKind, Seq<char>)>,
) -> bool {
    match failure {
        Some((kind, message)) => r matches Err(e) && e.is(kind, message),
        None => r is Ok,
    }
}

/// Whatever fails for an application leaves its local providers as they
/// were.
pub proof fn lemma_failure_changes_nothing(before: AppProvidersView, snapshot: AppSnapshotView)
    ensures
        applied_app(before, snapshot).1 is Some ==> applied_app(before, snapshot).0 == before,
{
}

/// Applying a pushed snapshot a second time changes nothing and ends as the
/// first time.
pub proof fn lemma_apply_app_again(before: AppProvidersView, snapshot: AppSnapshotView)
    ensures
        applied_app(applied_app(before, snapshot).0, snapshot) == applied_app(before, snapshot),
{
}

/// Applying a pushed document a second time changes nothing and ends as
/// the first time.
pub proof fn lemma_apply_config_again(before: ProviderStoreView, config: DeviceConfigView)
    ensures
        applied_config(applied_config(before, config).0, config) == applied_config(before, config),
{
    let first = applied_step(before, AppType::Claude, config.claude);
    lemma_step_again(before, AppType::Claude, config.claude);
    if first.1 is None {
        let second = applied_step(first.0, AppType::Codex, config.codex);
        lemma_step_again(first.0, AppType::Codex, config.codex);
        lemma_step_keeps_others(first.0, AppType::Codex, config.codex);
        assert(applied_step(second.0, AppType::Claude, config.claude) == (second.0, first.1)) by {
            lemma_step_depends_on_own_set(first.0, second.0, AppType::Claude, config.claude);
        }
        if second.1 is None {
            let third = applied_step(second.0, AppType::Gemini, config.gemini);
            lemma_step_again(second.0, AppType::Gemini, config.gemini);
            lemma_step_keeps_others(second.0, AppType::Gemini, config.gemini);
            lemma_step_depends_on_own_set(first.0, third.0, AppType::Claude, config.claude);
            lemma_step_depends_on_own_set(second.0, third.0, AppType::Codex, config.codex);
            assert(applied_step(third.0, AppType::Claude, config.claude) == (third.0, first.1));
            assert(applied_step(third.0, AppType::Codex, config.codex) == (third.0, second.1));
        }
    }
}

proof fn lemma_step_again(
    before: ProviderStoreView,
    app: AppType,
    snapshot: Option<AppSnapshotView>,
)
    ensures
        applied_step(applied_step(before, app, snapshot).0, app, snapshot) == applied_step(
            before,
            app,
            snapshot,
        ),
{
    if let Some(s) = snapshot {
        lemma_apply_app_again(before.of(app), s);
        let once = applied_step(before, app, snapshot).0;
        assert(once.of(app) == applied_app(before.of(app), s).0);
        assert(once.with(app, once.of(app)) == once);
    }
}

proof fn lemma_step_keeps_others(
    before: ProviderStoreView,
    app: AppType,
    snapshot: Option<AppSnapshotView>,
)
    ensures
        forall|other: AppType|
            other != app ==> #[trigger] applied_step(before, app, snapshot).0.of(other)
                == before.of(other),
{
}

proof fn lemma_step_depends_on_own_set(
    a: ProviderStoreView,
    b: ProviderStoreView,
    app: AppType,
    snapshot: Option<AppSnapshotView>,
)
    requires
        b.of(app) == applied_step(a, app, snapshot).0.of(app),
    ensures
        applied_step(b, app, snapshot) == (b, applied_step(a, app, snapshot).1),
{
    lemma_step_again(a, app, snapshot);
    if let Some(s) = snapshot {
        lemma_apply_app_again(a.of(app), s);
        assert(b.with(app, b.of(app)) == b);
    }
}

/// A pushed snapshot whose provider in use is not among its providers is
/// turned down as an invalid configuration, and the local providers of that
/// application stay as they were.
pub proof fn lemma_invalid_snapshot_changes_nothing(
    before: AppProvidersView,
    snapshot: AppSnapshotView,
)
    requires
        snapshot.current_id matches Some(current) ==> !holds_key(snapshot.providers, current),
    ensures
        applied_app(before, snapshot).0 == before,
        applied_app(before, snapshot).1 matches Some(failure) && failure.0
            == SyncErrorKind::InvalidAdminConfig,
{
}

/// Where a pushed document fails at an application because its snapshot is
/// invalid, that application and the ones after it keep their local
/// providers.
pub proof fn lemma_invalid_config_keeps_the_rest(
    before: ProviderStoreView,
    config: DeviceConfigView,
    app: AppType,
)
    requires
        config.of(app) matches Some(snapshot) && snapshot_refusal(snapshot) is Some,
        app == AppType::Codex ==> applied_step(before, AppType::Claude, config.claude).1 is None,
        app == AppType::Gemini ==> applied_step(before, AppType::Claude, config.claude).1 is None
            && applied_step(
            applied_step(before, AppType::Claude, config.claude).0,
            AppType::Codex,
            config.codex,
        ).1 is None,
    ensures
        applied_config(before, config).1 == snapshot_refusal(config.of(app)->0),
        applied_config(before, config).0.of(app) == before.of(app),
        app == AppType::Claude ==> applied_config(before, config).0 == before,
        app == AppType::Codex ==> applied_config(before, config).0.gemini == before.gemini,
{
}

/// A pushed snapshot in which each provider stands under its own id, no id
/// occurs twice and the provider in use is one of them, replaces the local
/// providers by exactly the pushed ones and puts that provider in use.
pub proof fn lemma_valid_snapshot_replaces(before: AppProvidersView, snapshot: AppSnapshotView)
    requires
        distinct_keys(snapshot.providers),
        forall|i: int|
            0 <= i < snapshot.providers.len() ==> (#[trigger] snapshot.providers[i]).0
                == snapshot.providers[i].1.id,
        snapshot.current_id matches Some(current) && holds_key(snapshot.providers, current),
    ensures
        applied_app(before, snapshot) == (
            AppProvidersView {
                current: snapshot.current_id->0,
                providers: snapshot.providers,
            },
            None::<(SyncErrorKind, Seq<char>)>,
        ),
{
    lemma_added_all_is_identity(snapshot.providers);
    let current = snapshot.current_id->0;
    let i = choose|i: int|
        0 <= i < snapshot.providers.len() && (#[trigger] snapshot.providers[i]).0 == current;
    assert(snapshot.providers[i].1.id == current);
}

/// What is collected of a store is a valid snapshot: it holds at least one
/// provider, and the provider in use, if it names one, is among them.
pub proof fn lemma_collected_is_valid(set: AppProvidersView)
    requires
        set.consistent(),
    ensures
        collected(set) matches Some(snapshot) ==> snapshot.providers.len() > 0 && (
        snapshot.current_id matches Some(current) ==> holds_key(snapshot.providers, current)),
{
    if let Some(snapshot) = collected(set) {
        if let Some(current) = snapshot.current_id {
            assert(!crate::text::is_blank_text(set.current));
            assert(set.current.len() > 0);
        }
    }
}

/// What is reported of one application.
pub fn collect_app_snapshot(state: &ProviderStore, app_type: AppType) -> (snapshot: Option<
    AppProviderSnapshot,
>)
    ensures
        snapshot_of(snapshot) == collected(state@.of(app_type)),
        state@.of(app_type).consistent(),
{
    let providers = state.get_all_providers(app_type);
    if provider_count(&providers) == 0 {
        return None;
    }
    let current = state.current(app_type);
    let current_id = if is_blank(current.as_str()) {
        None
    } else {
        Some(current)
    };
    Some(AppProviderSnapshot { current_id, providers })
}

/// What a device reports: the providers of each application that has any.
/// Nothing is changed.
pub fn collect_snapshot(state: &ProviderStore) -> (snapshot: DeviceConfigSnapshot)
    ensures
        forall|app: AppType| #[trigger] snapshot@.of(app) == collected(state@.of(app)),
        state@.consistent(),
{
    DeviceConfigSnapshot {
        claude: collect_app_snapshot(state, AppType::Claude),
        codex: collect_app_snapshot(state, AppType::Codex),
        gemini: collect_app_snapshot(state, AppType::Gemini),
    }
}

/// Applies the pushed snapshot of one application. It is checked first: a
/// snapshot that names no provider in use, or one that it does not hold,
/// fails and changes nothing. Else every local provider of the application
/// is removed, every pushed provider is added, and the pushed provider in
/// use is put in use.
pub fn apply_app_snapshot(
    state: &mut ProviderStore,
    app_type: AppType,
    snapshot: &AppProviderSnapshot,
) -> (r: Result<(), SyncError>)
    ensures
        final(state)@ == old(state)@.with(
            app_type,
            applied_app(old(state)@.of(app_type), snapshot@).0,
        ),
        ended(r, applied_app(old(state)@.of(app_type), snapshot@).1),
{
    let ghost before = state@;
    let current_id = match &snapshot.current_id {
        Some(id) => id,
        None => {
            assert(before.with(app_type, before.of(app_type)) == before);
            return Err(
                SyncError::plain(
                    SyncErrorKind::InvalidAdminConfig,
                    "Admin config missing current provider",
                ),
            );
        },
    };
    if !holds_provider(&snapshot.providers, current_id.as_str()) {
        assert(before.with(app_type, before.of(app_type)) == before);
        return Err(
            SyncError::new(
                SyncErrorKind::InvalidAdminConfig,
                "Admin config current provider not found: ",
                current_id.as_str(),
            ),
        );
    }
    let n = provider_count(&snapshot.providers);
    let ghost pushed = provider_entries(snapshot.providers);
    let mut provided = false;
    let mut j: usize = 0;
    while j < n
        invariant
            j <= n,
            n == pushed.len(),
            pushed == provider_entries(snapshot.providers),
            provided ==> provides(pushed, current_id@),
            !provided ==> forall|k: int| 0 <= k < j ==> (#[trigger] pushed[k]).1.id != current_id@,
        decreases n - j,
    {
        match provider_at(&snapshot.providers, j) {
            Some((_, provider)) => {
                if same_text(provider.id.as_str(), current_id.as_str()) {
                    assert(pushed[j as int].1.id == current_id@);
                    provided = true;
                }
            },
            None => {},
        }
        j += 1;
    }
    if !provided {
        assert(before.with(app_type, before.of(app_type)) == before);
        return Err(
            SyncError::new(
                SyncErrorKind::ProviderStore,
                "Provider not found: ",
                current_id.as_str(),
            ),
        );
    }
    state.delete_providers_by_app_type(app_type);
    let mut i: usize = 0;
    assert(pushed.take(0) =~= Seq::<(Seq<char>, ProviderView)>::empty());
    while i < n
        invariant
            i <= n,
            n == pushed.len(),
            pushed == provider_entries(snapshot.providers),
            state@ == before.with(
                app_type,
                AppProvidersView {
                    current: Seq::empty(),
                    providers: added_all(Seq::empty(), pushed.take(i as int)),
                },
            ),
        decreases n - i,
    {
        match provider_at(&snapshot.providers, i) {
            Some((_, provider)) => {
                proof {
                    assert(pushed.take(i + 1).drop_last() =~= pushed.take(i as int));
                    assert(pushed.take(i + 1).last() == pushed[i as int]);
                }
                state.add(app_type, clone_provider(provider));
            },
            None => {},
        }
        i += 1;
    }
    proof {
        assert(pushed.take(n as int) =~= pushed);
        lemma_added_all_holds(Seq::empty(), pushed, current_id@);
    }
    state.switch(app_type, current_id.as_str())
}

/// Applies a pushed document, application by application in a fixed order.
/// The first failure ends it: the applications before it stay replaced,
/// the failing one and those after it are as `applied_config` says.
pub fn apply_admin_config(state: &mut ProviderStore, config: &DeviceConfigSnapshot) -> (r: Result<
    (),
    SyncError,
>)
    ensures
        final(state)@ == applied_config(old(state)@, config@).0,
        ended(r, applied_config(old(state)@, config@).1),
{
    let ghost before = state@;
    if let Some(snapshot) = &config.claude {
        match apply_app_snapshot(state, AppType::Claude, snapshot) {
            Ok(()) => {},
            Err(e) => {
                return Err(e);
            },
        }
    }
    if let Some(snapshot) = &config.codex {
        match apply_app_snapshot(state, AppType::Codex, snapshot) {
            Ok(()) => {},
            Err(e) => {
                return Err(e);
            },
        }
    }
    if let Some(snapshot) = &config.gemini {
        match apply_app_snapshot(state, AppType::Gemini, snapshot) {
            Ok(()) => {},
            Err(e) => {
                return Err(e);
            },
        }
    }
    Ok(())
}

} // verus!
