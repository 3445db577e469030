//! How a sync round fails on the client.

use vstd::prelude::*;

verus! {

/// Why a sync round failed.
#[derive(Clone, Copy, Debug, PartialEq, Eq, Structural)]
pub enum SyncErrorKind {
    /// The base URL or the shared secret is missing.
    Configuration,
    /// The request did not get through, or the service answered with a
    /// status that is no success.
    Transport,
    /// The answer could not be read.
    Parse,
    /// The pushed configuration names no current provider, or one that it
    /// does not hold.
    InvalidAdminConfig,
    /// The hardware fingerprint could not be read.
    HardwareFingerprint,
    /// The local provider store turned an operation down.
    ProviderStore,
}

/// A failed sync round: its kind and a message for the log.
#[derive(Debug)]
pub struct SyncError {
    pub kind: SyncErrorKind,
    pub message: String,
}

impl SyncError {
    /// Whether this is a failure of `kind` with the text `message`.
    pub open spec fn is(self, kind: SyncErrorKind, message: Seq<char>) -> bool {
        self.kind == kind && self.message@ == message
    }

    /// A failure of `kind` with `message`.
    pub fn plain(kind: SyncErrorKind, message: &str) -> (e: SyncError)
        ensures
            e.is(kind, message@),
    {
        SyncError { kind, message: message.to_owned() }
    }

    /// A failure of `kind` whose message is `prefix` followed by `detail`.
    pub fn new(kind: SyncErrorKind, prefix: &str, detail: &str) -> (e: SyncError)
        ensures
            e.is(kind, prefix@ + detail@),
    {
        SyncError { kind, message: prefix.to_owned().concat(detail) }
    }

    /// The message for the log.
    pub fn to_text(&self) -> (text: String)
        ensures
            text@ == self.message@,
    {
        self.message.clone()
    }
}

} // verus!
