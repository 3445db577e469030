//! One round of sync on the client: what is sent, and what becomes of the
//! answer.

use vstd::prelude::*;
use vstd::string::*;

use crate::client::error::{SyncError, SyncErrorKind};
use crate::client::identity::{device_id_text, get_or_create_device_id, stored_id};
use crate::client::providers::{AppType, ProviderStore, ProviderStoreView};
use crate::client::schedule::{Trigger, TriggerKind, TriggerPhase, new_trigger};
use crate::client::settings::{
    SETTINGS_APPLIED_ADMIN_VERSION, SETTINGS_DEVICE_ID, SETTINGS_LAST_SYNC_AT, Settings,
    applied_version, get_applied_admin_version, set_applied_admin_version, set_last_sync_at,
};
use crate::client::snapshot::{
    DeviceConfigSnapshot, DeviceConfigView, applied_config, apply_admin_config, collect_snapshot,
    collected, ended, lemma_apply_config_again,
};
use crate::decimal::decimal_text;
use crate::text::{is_blank_text, trim, trim_end_char, trim_end_matches, trimmed};
use crate::time::Timestamp;

verus! {

/// The path of the sync endpoint below the base URL.
pub const SYNC_PATH: &'static str = "/api/v1/devices/sync";

/// The sync service of a client: where the management service is, the
/// shared secret, and whether a sync runs shortly after launch. It is made
/// once at launch and handed to whoever syncs.
#[derive(Debug)]
pub struct ManagementSyncService {
    pub base_url: String,
    pub token: String,
    pub sync_on_start: bool,
}

/// What a client keeps locally: its settings and its providers.
pub struct AppState {
    pub db: Settings,
    pub providers: ProviderStore,
}

/// What a client sends when it syncs.
#[derive(Debug)]
pub struct SyncRequest {
    pub device_id: String,
    pub app_version: String,
    pub applied_admin_version: Option<i64>,
    pub snapshot: DeviceConfigSnapshot,
    pub client_time: String,
}

/// What the service answers, as the client reads it.
#[derive(Debug)]
pub struct SyncResponse {
    pub ok: bool,
    pub admin_config: Option<DeviceConfigSnapshot>,
    pub admin_version: Option<i64>,
}

/// A request ready to be sent: where to, with which bearer token, and what.
#[derive(Debug)]
pub struct SyncCall {
    pub endpoint: String,
    pub token: String,
    pub payload: SyncRequest,
}

/// Why a service cannot sync at all, if it cannot: its base URL is blank,
/// or else its token is.
pub open spec fn configuration_fault(service: ManagementSyncService) -> Option<
    (SyncErrorKind, Seq<char>),
> {
    if is_blank_text(service.base_url@) {
        Some((SyncErrorKind::Configuration, "Management base URL is empty"@))
    } else if is_blank_text(service.token@) {
        Some((SyncErrorKind::Configuration, "Management token is empty"@))
    } else {
        None
    }
}

/// The address of the sync endpoint below `base_url`: the base URL without
/// white space around it and without slashes at its end, then the path.
pub open spec fn endpoint_of(base_url: Seq<char>) -> Seq<char> {
    trim_end_char(trimmed(base_url), '/') + SYNC_PATH@
}

/// The view of the pushed configuration in an answer.
pub open spec fn pushed_config(response: SyncResponse) -> Option<DeviceConfigView> {
    match response.admin_config {
        Some(config) => Some(config@),
        None => None,
    }
}

/// What an answer that was read makes of settings and providers, and the
/// failure that the round ends with, if any. An answer that is not `ok`
/// changes nothing. Else a pushed configuration is applied, and where that
/// does not fail the pushed version is recorded, if there is one. Whether
/// it fails or not, the instant of the sync is recorded; a failure of the
/// applier is the failure of the round.
pub open spec fn concluded(
    settings: Map<Seq<char>, Seq<char>>,
    providers: ProviderStoreView,
    ok: bool,
    config: Option<DeviceConfigView>,
    version: Option<i64>,
    now_text: Seq<char>,
) -> (Map<Seq<char>, Seq<char>>, ProviderStoreView, Option<(SyncErrorKind, Seq<char>)>) {
    if !ok {
        (settings, providers, None)
    } else {
        match config {
            Some(pushed) => {
                let applied = applied_config(providers, pushed);
                if applied.1 is Some {
                    (settings.insert(SETTINGS_LAST_SYNC_AT@, now_text), applied.0, applied.1)
                } else {
                    let recorded = match version {
                        Some(v) => settings.insert(
                            SETTINGS_APPLIED_ADMIN_VERSION@,
                            decimal_text(v as int),
                        ),
                        None => settings,
                    };
                    (recorded.insert(SETTINGS_LAST_SYNC_AT@, now_text), applied.0, None)
                }
            },
            None => (settings.insert(SETTINGS_LAST_SYNC_AT@, now_text), providers, None),
        }
    }
}

/// A round that is run again with the same answer leaves what a single
/// round at the later instant leaves, and ends as it ends: nothing but the
/// instant of the last sync tells the two apart.
pub proof fn lemma_conclude_again(
    settings: Map<Seq<char>, Seq<char>>,
    providers: ProviderStoreView,
    ok: bool,
    config: Option<DeviceConfigView>,
    version: Option<i64>,
    first_text: Seq<char>,
    second_text: Seq<char>,
)
    ensures
        ({
            let once = concluded(settings, providers, ok, config, version, first_text);
            concluded(once.0, once.1, ok, config, version, second_text) == concluded(
                settings,
                providers,
                ok,
                config,
                version,
                second_text,
            )
        }),
{
    let once = concluded(settings, providers, ok, config, version, first_text);
    let twice = concluded(once.0, once.1, ok, config, version, second_text);
    let single = concluded(settings, providers, ok, config, version, second_text);
    if ok {
        if let Some(pushed) = config {
            lemma_apply_config_again(providers, pushed);
        }
        assert(twice.0 =~= single.0);
    }
}

impl ManagementSyncService {
    /// A sync service for the management service at `base_url`.
    pub fn new(base_url: String, token: String, sync_on_start: bool) -> (service: Self)
        ensures
            service.base_url == base_url,
            service.token == token,
            service.sync_on_start == sync_on_start,
    {
        ManagementSyncService { base_url, token, sync_on_start }
    }

    /// The triggers to run from launch on: the startup trigger where a sync
    /// after launch is switched on, and the recurring trigger in any case.
    /// They run side by side, and neither waits for the other.
    pub fn start(&self) -> (triggers: Vec<Trigger>)
        ensures
            triggers@ == if self.sync_on_start {
                seq![
                    Trigger { kind: TriggerKind::Startup, phase: TriggerPhase::Scheduling },
                    Trigger { kind: TriggerKind::Recurring, phase: TriggerPhase::Scheduling },
                ]
            } else {
                seq![Trigger { kind: TriggerKind::Recurring, phase: TriggerPhase::Scheduling }]
            },
    {
        let mut triggers: Vec<Trigger> = Vec::new();
        if self.sync_on_start {
            triggers.push(new_trigger(TriggerKind::Startup));
        }
        triggers.push(new_trigger(TriggerKind::Recurring));
        assert(triggers@ =~= if self.sync_on_start {
            seq![
                Trigger { kind: TriggerKind::Startup, phase: TriggerPhase::Scheduling },
                Trigger { kind: TriggerKind::Recurring, phase: TriggerPhase::Scheduling },
            ]
        } else {
            seq![Trigger { kind: TriggerKind::Recurring, phase: TriggerPhase::Scheduling }]
        });
        triggers
    }

    /// Where a sync is sent and with which token, or why the service cannot
    /// sync: the address of the endpoint, and the token without white space
    /// around it.
    pub fn target(&self) -> (r: Result<(String, String), SyncError>)
        ensures
            ended(r, configuration_fault(*self)),
            r matches Ok(pair) ==> pair.0@ == endpoint_of(self.base_url@) && pair.1@ == trimmed(
                self.token@,
            ),
    {
        let base_url = trim(self.base_url.as_str());
        proof {
            crate::text::lemma_blank_iff_trimmed_empty(self.base_url@);
            crate::text::lemma_blank_iff_trimmed_empty(self.token@);
        }
        if base_url.unicode_len() == 0 {
            return Err(
                SyncError::plain(SyncErrorKind::Configuration, "Management base URL is empty"),
            );
        }
        let token = trim(self.token.as_str());
        if token.unicode_len() == 0 {
            return Err(
                SyncError::plain(SyncErrorKind::Configuration, "Management token is empty"),
            );
        }
        let endpoint = trim_end_matches(base_url, '/').to_owned().concat(SYNC_PATH);
        Ok((endpoint, token.to_owned()))
    }

    /// Makes the request of one round. A service that cannot sync fails
    /// before anything is read or changed. Else the device id is read from
    /// the settings or made from the hardware fingerprint and kept; what
    /// is sent is that id, the version of the application, the last applied
    /// version, the providers as collected, and `now` as the client's time.
    pub fn prepare(
        &self,
        state: &mut AppState,
        fingerprint: Result<String, String>,
        app_version: &str,
        now: Timestamp,
    ) -> (r: Result<SyncCall, SyncError>)
        ensures
            final(state).providers@ == old(state).providers@,
            match configuration_fault(*self) {
                Some((kind, message)) => final(state).db@ == old(state).db@ && (r matches Err(e)
                    && e.is(kind, message)),
                None => match stored_id(old(state).db@) {
                    None => match fingerprint {
                        Err(reason) => final(state).db@ == old(state).db@ && (r matches Err(e)
                            && e.is(
                            SyncErrorKind::HardwareFingerprint,
                            "Failed to read hardware fingerprint: "@ + reason@,
                        )),
                        Ok(raw) => final(state).db@ == old(state).db@.insert(
                            SETTINGS_DEVICE_ID@,
                            device_id_text(raw@),
                        ) && (r matches Ok(call) && is_call(
                            call,
                            *self,
                            device_id_text(raw@),
                            *final(state),
                            app_version@,
                            now,
                        )),
                    },
                    Some(id) => final(state).db@ == old(state).db@ && (r matches Ok(call)
                        && is_call(call, *self, id, *final(state), app_version@, now)),
                },
            },
    {
        let (endpoint, token) = match self.target() {
            Ok(pair) => pair,
            Err(e) => {
                return Err(e);
            },
        };
        let device_id = match get_or_create_device_id(&mut state.db, fingerprint) {
            Ok(id) => id,
            Err(e) => {
                return Err(e);
            },
        };
        let applied_admin_version = get_applied_admin_version(&state.db);
        let snapshot = collect_snapshot(&state.providers);
        let payload = SyncRequest {
            device_id,
            app_version: app_version.to_owned(),
            applied_admin_version,
            snapshot,
            client_time: now.to_rfc3339(),
        };
        Ok(SyncCall { endpoint, token, payload })
    }
}

/// Whether `call` is the request of a round of `service` for the device
/// `device_id`, made at `now` from `state`.
pub open spec fn is_call(
    call: SyncCall,
    service: ManagementSyncService,
    device_id: Seq<char>,
    state: AppState,
    app_version: Seq<char>,
    now: Timestamp,
) -> bool {
    &&& call.endpoint@ == endpoint_of(service.base_url@)
    &&& call.token@ == trimmed(service.token@)
    &&& call.payload.device_id@ == device_id
    &&& call.payload.app_version@ == app_version
    &&& call.payload.applied_admin_version == applied_version(state.db@)
    &&& forall|app: AppType| #[trigger]
        call.payload.snapshot@.of(app) == collected(state.providers@.of(app))
    &&& call.payload.client_time@ == now.rfc3339()
}

/// The failure of a round whose request did not get through.
pub fn transport_failure(reason: &str) -> (e: SyncError)
    ensures
        e.is(SyncErrorKind::Transport, "Sync request failed: "@ + reason@),
{
    SyncError::new(SyncErrorKind::Transport, "Sync request failed: ", reason)
}

/// Whether an HTTP status is a success: 200 to 299.
pub open spec fn is_success(status: u16) -> bool {
    200 <= status <= 299
}

/// Lets a round go on where the service answered with a success. Any other
/// status fails the round; `shown` is the status as the message shows it.
/// Nothing is tried again within the round.
pub fn check_status(status: u16, shown: &str) -> (r: Result<(), SyncError>)
    ensures
        is_success(status) ==> r is Ok,
        !is_success(status) ==> (r matches Err(e) && e.is(
            SyncErrorKind::Transport,
            "Sync failed with status: "@ + shown@,
        )),
{
    if 200 <= status && status <= 299 {
        Ok(())
    } else {
        Err(SyncError::new(SyncErrorKind::Transport, "Sync failed with status: ", shown))
    }
}

/// The failure of a round whose answer could not be read.
pub fn parse_failure(reason: &str) -> (e: SyncError)
    ensures
        e.is(SyncErrorKind::Parse, "Sync response parse failed: "@ + reason@),
{
    SyncError::new(SyncErrorKind::Parse, "Sync response parse failed: ", reason)
}

/// Ends a round with the answer that was read, at `now`: applies what was
/// pushed, records the applied version, and records the sync. The version
/// that was applied before plays no part: what is pushed is applied again.
pub fn conclude(state: &mut AppState, response: &SyncResponse, now: Timestamp) -> (r: Result<
    (),
    SyncError,
>)
    ensures
        ({
            let outcome = concluded(
                old(state).db@,
                old(state).providers@,
                response.ok,
                pushed_config(*response),
                response.admin_version,
                now.rfc3339(),
            );
            &&& final(state).db@ == outcome.0
            &&& final(state).providers@ == outcome.1
            &&& ended(r, outcome.2)
        }),
{
    if response.ok {
        if let Some(config) = &response.admin_config {
            match apply_admin_config(&mut state.providers, config) {
                Ok(()) => {},
                Err(e) => {
                    set_last_sync_at(&mut state.db, now);
                    return Err(e);
                },
            }
            if let Some(version) = response.admin_version {
                set_applied_admin_version(&mut state.db, version);
            }
        }
        set_last_sync_at(&mut state.db, now);
    }
    Ok(())
}

} // verus!
