//! Providers and the local store that holds them, one ordered set per
//! application.

use indexmap::IndexMap;
use vstd::prelude::*;
use vstd::string::*;

use crate::client::error::{SyncError, SyncErrorKind};

verus! {

/// The application that a provider belongs to.
#[derive(Clone, Copy, Debug, PartialEq, Eq, Structural)]
pub enum AppType {
    Claude,
    Codex,
    Gemini,
}

/// A configured backend of one application: its id, its name, and the
/// settings that it stands for.
#[derive(Clone, Debug)]
pub struct Provider {
    pub id: String,
    pub name: String,
    pub settings_config: serde_json::Value,
}

/// The view of a `Provider`.
pub struct ProviderView {
    pub id: Seq<char>,
    pub name: Seq<char>,
    pub settings_config: serde_json::Value,
}

impl View for Provider {
    type V = ProviderView;

    open spec fn view(&self) -> ProviderView {
        ProviderView { id: self.id@, name: self.name@, settings_config: self.settings_config }
    }
}

/// A copy of a provider.
pub fn clone_provider(provider: &Provider) -> (copy: Provider)
    ensures
        copy@ == provider@,
{
    Provider {
        id: provider.id.clone(),
        name: provider.name.clone(),
        settings_config: provider.settings_config.clone(),
    }
}

/// `indexmap::IndexMap`: a map that keeps its entries in the order in which
/// their keys were first inserted.
#[verifier::external_type_specification]
#[verifier::external_body]
#[verifier::reject_recursive_types(K)]
#[verifier::reject_recursive_types(V)]
#[verifier::reject_recursive_types(S)]
pub struct ExIndexMap<K, V, S>(IndexMap<K, V, S>);

/// What an `IndexMap` of providers holds: its keys and providers in the
/// order of the map.
pub uninterp spec fn provider_entries(map: IndexMap<String, Provider>) -> Seq<
    (Seq<char>, ProviderView),
>;

/// Whether `entries` hold `key`.
pub open spec fn holds_key(entries: Seq<(Seq<char>, ProviderView)>, key: Seq<char>) -> bool {
    exists|i: int| 0 <= i < entries.len() && (#[trigger] entries[i]).0 == key
}

/// Whether no key occurs twice in `entries`.
pub open spec fn distinct_keys(entries: Seq<(Seq<char>, ProviderView)>) -> bool {
    forall|i: int, j: int|
        0 <= i < j < entries.len() ==> (#[trigger] entries[i]).0 != (#[trigger] entries[j]).0
}

/// `entries` after `provider` was put under `key`: in place of the first
/// entry with that key, or last where there is none.
pub open spec fn entry_inserted(
    entries: Seq<(Seq<char>, ProviderView)>,
    key: Seq<char>,
    provider: ProviderView,
) -> Seq<(Seq<char>, ProviderView)>
    decreases entries.len(),
{
    if entries.len() == 0 {
        seq![(key, provider)]
    } else if entries.first().0 == key {
        seq![(key, provider)] + entries.drop_first()
    } else {
        seq![entries.first()] + entry_inserted(entries.drop_first(), key, provider)
    }
}

/// `base` after each provider of `pushed` was added under its own id, in
/// order.
pub open spec fn added_all(
    base: Seq<(Seq<char>, ProviderView)>,
    pushed: Seq<(Seq<char>, ProviderView)>,
) -> Seq<(Seq<char>, ProviderView)>
    decreases pushed.len(),
{
    if pushed.len() == 0 {
        base
    } else {
        entry_inserted(added_all(base, pushed.drop_last()), pushed.last().1.id, pushed.last().1)
    }
}

/// Whether one of the providers in `pushed` has the id `id`.
pub open spec fn provides(pushed: Seq<(Seq<char>, ProviderView)>, id: Seq<char>) -> bool {
    exists|i: int| 0 <= i < pushed.len() && (#[trigger] pushed[i]).1.id == id
}

/// Putting a provider under a key that is not held adds it at the end.
pub proof fn lemma_insert_new_key(
    entries: Seq<(Seq<char>, ProviderView)>,
    key: Seq<char>,
    provider: ProviderView,
)
    requires
        !holds_key(entries, key),
    ensures
        entry_inserted(entries, key, provider) == entries.push((key, provider)),
    decreases entries.len(),
{
    if entries.len() == 0 {
        assert(entry_inserted(entries, key, provider) =~= entries.push((key, provider)));
    } else {
        assert(entries[0].0 != key);
        let rest = entries.drop_first();
        assert(!holds_key(rest, key)) by {
            if holds_key(rest, key) {
                let i = choose|i: int| 0 <= i < rest.len() && (#[trigger] rest[i]).0 == key;
                assert(entries[i + 1].0 == key);
            }
        }
        lemma_insert_new_key(rest, key, provider);
        assert(entry_inserted(entries, key, provider) =~= entries.push((key, provider)));
    }
}

/// After a provider was put under a key, that key is held, and every other
/// key is held exactly where it was held before.
pub proof fn lemma_insert_holds(
    entries: Seq<(Seq<char>, ProviderView)>,
    key: Seq<char>,
    provider: ProviderView,
    other: Seq<char>,
)
    ensures
        holds_key(entry_inserted(entries, key, provider), other) <==> other == key || holds_key(
            entries,
            other,
        ),
    decreases entries.len(),
{
    let after = entry_inserted(entries, key, provider);
    if entries.len() == 0 {
        assert(after[0].0 == key);
        if holds_key(after, other) {
            let i = choose|i: int| 0 <= i < after.len() && (#[trigger] after[i]).0 == other;
        }
    } else {
        let rest = entries.drop_first();
        if entries.first().0 == key {
            assert(after[0].0 == key);
            if holds_key(after, other) {
                let i = choose|i: int| 0 <= i < after.len() && (#[trigger] after[i]).0 == other;
                if i > 0 {
                    assert(after[i] == entries[i]);
                }
            }
            if holds_key(entries, other) && other != key {
                let i = choose|i: int| 0 <= i < entries.len() && (#[trigger] entries[i]).0 == other;
                assert(after[i] == entries[i]);
            }
        } else {
            lemma_insert_holds(rest, key, provider, other);
            let inner = entry_inserted(rest, key, provider);
            assert(after[0] == entries[0]);
            if holds_key(after, other) {
                let i = choose|i: int| 0 <= i < after.len() && (#[trigger] after[i]).0 == other;
                if i > 0 {
                    assert(inner[i - 1] == after[i]);
                    assert(holds_key(inner, other));
                    if holds_key(rest, other) {
                        let j = choose|j: int|
                            0 <= j < rest.len() && (#[trigger] rest[j]).0 == other;
                        assert(entries[j + 1].0 == other);
                    }
                } else {
                    assert(entries[0].0 == other);
                }
            }
            if other == key || holds_key(entries, other) {
                if other == entries[0].0 {
                    assert(after[0].0 == other);
                } else {
                    if holds_key(entries, other) {
                        let i = choose|i: int|
                            0 <= i < entries.len() && (#[trigger] entries[i]).0 == other;
                        assert(rest[i - 1].0 == other);
                        assert(holds_key(rest, other));
                    }
                    assert(holds_key(inner, other));
                    let j = choose|j: int| 0 <= j < inner.len() && (#[trigger] inner[j]).0 == other;
                    assert(after[j + 1] == inner[j]);
                }
            }
        }
    }
}

/// After providers were added, an id is held exactly where it was held
/// before or one of the added providers has it.
pub proof fn lemma_added_all_holds(
    base: Seq<(Seq<char>, ProviderView)>,
    pushed: Seq<(Seq<char>, ProviderView)>,
    id: Seq<char>,
)
    ensures
        holds_key(added_all(base, pushed), id) <==> holds_key(base, id) || provides(pushed, id),
    decreases pushed.len(),
{
    if pushed.len() > 0 {
        let shorter = pushed.drop_last();
        lemma_added_all_holds(base, shorter, id);
        lemma_insert_holds(added_all(base, shorter), pushed.last().1.id, pushed.last().1, id);
        if provides(pushed, id) {
            let i = choose|i: int| 0 <= i < pushed.len() && (#[trigger] pushed[i]).1.id == id;
            if i < shorter.len() {
                assert(shorter[i].1.id == id);
            }
        }
        if provides(shorter, id) {
            let i = choose|i: int| 0 <= i < shorter.len() && (#[trigger] shorter[i]).1.id == id;
            assert(pushed[i].1.id == id);
        }
        if id == pushed.last().1.id {
            assert(pushed[pushed.len() - 1].1.id == id);
        }
    }
}

/// Adding the providers of a set in which each stands under its own id and
/// no id occurs twice, to an empty store, gives that set.
pub proof fn lemma_added_all_is_identity(pushed: Seq<(Seq<char>, ProviderView)>)
    requires
        distinct_keys(pushed),
        forall|i: int| 0 <= i < pushed.len() ==> (#[trigger] pushed[i]).0 == pushed[i].1.id,
    ensures
        added_all(Seq::empty(), pushed) == pushed,
    decreases pushed.len(),
{
    if pushed.len() > 0 {
        let shorter = pushed.drop_last();
        lemma_added_all_is_identity(shorter);
        assert(!holds_key(shorter, pushed.last().0)) by {
            if holds_key(shorter, pushed.last().0) {
                let i = choose|i: int|
                    0 <= i < shorter.len() && (#[trigger] shorter[i]).0 == pushed.last().0;
                assert(pushed[i].0 == pushed[pushed.len() - 1].0);
            }
        }
        lemma_insert_new_key(shorter, pushed.last().1.id, pushed.last().1);
        assert(shorter.push(pushed.last()) =~= pushed);
    }
}

/// An empty map, from `IndexMap::new`.
#[verifier::external_body]
pub(crate) fn empty_providers() -> (map: IndexMap<String, Provider>)
    ensures
        provider_entries(map) == Seq::<(Seq<char>, ProviderView)>::empty(),
{
    IndexMap::new()
}

/// The number of entries, from `IndexMap::len`.
#[verifier::external_body]
pub(crate) fn provider_count(map: &IndexMap<String, Provider>) -> (n: usize)
    ensures
        n == provider_entries(*map).len(),
{
    map.len()
}

/// Whether the map holds `key`, from `IndexMap::contains_key`.
#[verifier::external_body]
pub(crate) fn holds_provider(map: &IndexMap<String, Provider>, key: &str) -> (held: bool)
    ensures
        held == holds_key(provider_entries(*map), key@),
{
    map.contains_key(key)
}

/// The entry at a place of the map, from `IndexMap::get_index`: the key and
/// the provider at that place, or nothing beyond the last place. A map
/// holds each key once, so the key stands at no other place.
#[verifier::external_body]
pub(crate) fn provider_at(map: &IndexMap<String, Provider>, index: usize) -> (entry: Option<
    (&String, &Provider),
>)
    ensures
        match entry {
            Some((key, provider)) => index < provider_entries(*map).len() && provider_entries(
                *map,
            )[index as int] == (key@, provider@) && forall|j: int|
                0 <= j < provider_entries(*map).len() && j != index ==> (
                #[trigger] provider_entries(*map)[j]).0 != key@,
            None => index >= provider_entries(*map).len(),
        },
{
    map.get_index(index)
}

/// Puts a provider under a key with `IndexMap::insert`: a key that the map
/// holds keeps its place and gets the new provider, a new key goes last.
#[verifier::external_body]
pub(crate) fn put_provider(map: &mut IndexMap<String, Provider>, key: String, provider: Provider)
    ensures
        provider_entries(*final(map)) == entry_inserted(
            provider_entries(*old(map)),
            key@,
            provider@,
        ),
{
    map.insert(key, provider);
}

/// A copy of a map of providers, entry by entry.
pub fn copy_providers(map: &IndexMap<String, Provider>) -> (copy: IndexMap<String, Provider>)
    ensures
        provider_entries(copy) == provider_entries(*map),
{
    let mut copy = empty_providers();
    let n = provider_count(map);
    let ghost entries = provider_entries(*map);
    let mut i: usize = 0;
    assert(entries.take(0) =~= Seq::<(Seq<char>, ProviderView)>::empty());
    while i < n
        invariant
            i <= n,
            n == entries.len(),
            entries == provider_entries(*map),
            provider_entries(copy) == entries.take(i as int),
        decreases n - i,
    {
        match provider_at(map, i) {
            Some((key, provider)) => {
                proof {
                    let part = entries.take(i as int);
                    assert(!holds_key(part, key@)) by {
                        if holds_key(part, key@) {
                            let j = choose|j: int|
                                0 <= j < part.len() && (#[trigger] part[j]).0 == key@;
                            assert(entries[j].0 == key@);
                        }
                    }
                    lemma_insert_new_key(part, key@, provider@);
                    assert(part.push((key@, provider@)) =~= entries.take(i + 1));
                }
                put_provider(&mut copy, key.clone(), clone_provider(provider));
            },
            None => {},
        }
        i += 1;
    }
    assert(entries.take(n as int) =~= entries);
    copy
}

/// The providers of one application and the id of the one in use.
pub struct AppProviders {
    current: String,
    providers: IndexMap<String, Provider>,
}

/// The view of `AppProviders`: the id of the provider in use, empty where
/// none is, and the providers in order.
pub struct AppProvidersView {
    pub current: Seq<char>,
    pub providers: Seq<(Seq<char>, ProviderView)>,
}

impl AppProvidersView {
    /// Whether the provider in use, if any, is one of the providers.
    pub open spec fn consistent(self) -> bool {
        self.current.len() == 0 || holds_key(self.providers, self.current)
    }
}

impl View for AppProviders {
    type V = AppProvidersView;

    closed spec fn view(&self) -> AppProvidersView {
        AppProvidersView { current: self.current@, providers: provider_entries(self.providers) }
    }
}

impl AppProviders {
    #[verifier::type_invariant]
    spec fn current_is_held(self) -> bool {
        self.current@.len() == 0 || holds_key(provider_entries(self.providers), self.current@)
    }

    fn new() -> (set: Self)
        ensures
            set@ == (AppProvidersView { current: Seq::empty(), providers: Seq::empty() }),
    {
        AppProviders { current: String::new(), providers: empty_providers() }
    }

    fn current(&self) -> (id: String)
        ensures
            id@ == self@.current,
            self@.consistent(),
    {
        proof {
            use_type_invariant(self);
        }
        self.current.clone()
    }

    fn copy_providers(&self) -> (copy: IndexMap<String, Provider>)
        ensures
            provider_entries(copy) == self@.providers,
            self@.consistent(),
    {
        proof {
            use_type_invariant(self);
        }
        copy_providers(&self.providers)
    }

    fn delete_all(&mut self)
        ensures
            final(self)@ == (AppProvidersView { current: Seq::empty(), providers: Seq::empty() }),
    {
        self.current = String::new();
        self.providers = empty_providers();
    }

    fn add(&mut self, provider: Provider)
        ensures
            final(self)@ == (AppProvidersView {
                current: old(self)@.current,
                providers: entry_inserted(old(self)@.providers, provider@.id, provider@),
            }),
            final(self)@.consistent(),
    {
        proof {
            use_type_invariant(&*self);
        }
        let key = provider.id.clone();
        let mut current = String::new();
        std::mem::swap(&mut current, &mut self.current);
        let mut providers = empty_providers();
        std::mem::swap(&mut providers, &mut self.providers);
        proof {
            lemma_insert_holds(provider_entries(providers), key@, provider@, current@);
        }
        put_provider(&mut providers, key, provider);
        self.providers = providers;
        self.current = current;
    }

    fn switch(&mut self, id: &str) -> (r: Result<(), SyncError>)
        ensures
            holds_key(old(self)@.providers, id@) ==> r is Ok && final(self)@ == (AppProvidersView {
                current: id@,
                providers: old(self)@.providers,
            }),
            !holds_key(old(self)@.providers, id@) ==> final(self)@ == old(self)@ && (
            r matches Err(e) && e.is(SyncErrorKind::ProviderStore, "Provider not found: "@ + id@)),
    {
        if holds_provider(&self.providers, id) {
            self.current = id.to_owned();
            Ok(())
        } else {
            Err(SyncError::new(SyncErrorKind::ProviderStore, "Provider not found: ", id))
        }
    }
}

/// The local store of providers: one set for each application.
pub struct ProviderStore {
    claude: AppProviders,
    codex: AppProviders,
    gemini: AppProviders,
}

/// The view of a `ProviderStore`.
pub struct ProviderStoreView {
    pub claude: AppProvidersView,
    pub codex: AppProvidersView,
    pub gemini: AppProvidersView,
}

impl ProviderStoreView {
    /// Whether in every application the provider in use, if any, is one of
    /// its providers.
    pub open spec fn consistent(self) -> bool {
        self.claude.consistent() && self.codex.consistent() && self.gemini.consistent()
    }

    /// The set of one application.
    pub open spec fn of(self, app: AppType) -> AppProvidersView {
        match app {
            AppType::Claude => self.claude,
            AppType::Codex => self.codex,
            AppType::Gemini => self.gemini,
        }
    }

    /// The store with the set of one application replaced.
    pub open spec fn with(self, app: AppType, set: AppProvidersView) -> ProviderStoreView {
        match app {
            AppType::Claude => ProviderStoreView { claude: set, ..self },
            AppType::Codex => ProviderStoreView { codex: set, ..self },
            AppType::Gemini => ProviderStoreView { gemini: set, ..self },
        }
    }
}

impl View for ProviderStore {
    type V = ProviderStoreView;

    closed spec fn view(&self) -> ProviderStoreView {
        ProviderStoreView { claude: self.claude@, codex: self.codex@, gemini: self.gemini@ }
    }
}

impl ProviderStore {
    /// A store without providers.
    pub fn new() -> (store: Self)
        ensures
            forall|app: AppType| #[trigger]
                store@.of(app) == (AppProvidersView {
                    current: Seq::empty(),
                    providers: Seq::empty(),
                }),
    {
        ProviderStore {
            claude: AppProviders::new(),
            codex: AppProviders::new(),
            gemini: AppProviders::new(),
        }
    }

    /// The providers of an application, in order.
    pub fn get_all_providers(&self, app: AppType) -> (providers: IndexMap<String, Provider>)
        ensures
            provider_entries(providers) == self@.of(app).providers,
            self@.of(app).consistent(),
    {
        match app {
            AppType::Claude => self.claude.copy_providers(),
            AppType::Codex => self.codex.copy_providers(),
            AppType::Gemini => self.gemini.copy_providers(),
        }
    }

    /// The id of the provider that an application uses; empty where it uses
    /// none.
    pub fn current(&self, app: AppType) -> (id: String)
        ensures
            id@ == self@.of(app).current,
            self@.of(app).consistent(),
    {
        match app {
            AppType::Claude => self.claude.current(),
            AppType::Codex => self.codex.current(),
            AppType::Gemini => self.gemini.current(),
        }
    }

    /// Removes every provider of an application. The application then uses
    /// none.
    pub fn delete_providers_by_app_type(&mut self, app: AppType)
        ensures
            final(self)@ == old(self)@.with(
                app,
                AppProvidersView { current: Seq::empty(), providers: Seq::empty() },
            ),
    {
        match app {
            AppType::Claude => self.claude.delete_all(),
            AppType::Codex => self.codex.delete_all(),
            AppType::Gemini => self.gemini.delete_all(),
        }
    }

    /// Adds a provider to an application under the provider's id: in place
    /// of the provider with that id, or last where there is none.
    pub fn add(&mut self, app: AppType, provider: Provider)
        ensures
            final(self)@ == old(self)@.with(
                app,
                AppProvidersView {
                    current: old(self)@.of(app).current,
                    providers: entry_inserted(
                        old(self)@.of(app).providers,
                        provider@.id,
                        provider@,
                    ),
                },
            ),
    {
        match app {
            AppType::Claude => self.claude.add(provider),
            AppType::Codex => self.codex.add(provider),
            AppType::Gemini => self.gemini.add(provider),
        }
    }

    /// Makes the provider with the given id the one that the application
    /// uses. Fails, and changes nothing, where the application has no such
    /// provider.
    pub fn switch(&mut self, app: AppType, id: &str) -> (r: Result<(), SyncError>)
        ensures
            holds_key(old(self)@.of(app).providers, id@) ==> r is Ok && final(self)@ == old(
                self,
            )@.with(
                app,
                AppProvidersView { current: id@, providers: old(self)@.of(app).providers },
            ),
            !holds_key(old(self)@.of(app).providers, id@) ==> final(self)@ == old(self)@ && (
            r matches Err(e) && e.is(SyncErrorKind::ProviderStore, "Provider not found: "@ + id@)),
    {
        match app {
            AppType::Claude => self.claude.switch(id),
            AppType::Codex => self.codex.switch(id),
            AppType::Gemini => self.gemini.switch(id),
        }
    }
}

} // verus!
