//! Error kinds shared across the pipeline stages.

use vstd::prelude::*;

verus! {

/// One error kind per failure class of the pipeline.
#[derive(Debug, Clone, PartialEq, Eq)]
pub enum DubError {
    /// The user asked to cancel; checkpointed progress stays valid.
    Cancelled,
    /// The scheduler waited more than its deadline for a concurrency slot.
    ConcurrencyTimeout,
    /// A provider answered with a non-success status; carries status and body head.
    ProviderHttp { status: u16, body_head: String },
    /// The network transport failed (DNS, connect, timeout).
    ProviderTransport { detail: String },
    /// A provider reply failed validation (malformed JSON, count mismatch,
    /// empty values or merge annotations).
    Validation { detail: String },
    /// A media tool exited non-zero; carries its diagnostic output.
    MediaTool { detail: String },
    /// Alignment found zero completed TTS items.
    NoAudio,
    /// A required configuration record does not exist.
    ConfigMissing { detail: String },
    /// Database or filesystem failure.
    Storage { detail: String },
}

impl DubError {
    /// A short stable tag naming the error kind.
    pub fn kind_tag(&self) -> (r: &'static str)
        ensures
            self is Cancelled ==> r@ == "cancelled"@,
            self is ConcurrencyTimeout ==> r@ == "concurrency_timeout"@,
            self is ProviderHttp ==> r@ == "provider_http"@,
            self is ProviderTransport ==> r@ == "provider_transport"@,
            self is Validation ==> r@ == "validation"@,
            self is MediaTool ==> r@ == "media_tool"@,
            self is NoAudio ==> r@ == "no_audio"@,
            self is ConfigMissing ==> r@ == "config_missing"@,
            self is Storage ==> r@ == "storage"@,
    {
        proof {
            reveal_strlit("cancelled");
            reveal_strlit("concurrency_timeout");
            reveal_strlit("provider_http");
            reveal_strlit("provider_transport");
            reveal_strlit("validation");
            reveal_strlit("media_tool");
            reveal_strlit("no_audio");
            reveal_strlit("config_missing");
            reveal_strlit("storage");
        }
        match self {
            DubError::Cancelled => "cancelled",
            DubError::ConcurrencyTimeout => "concurrency_timeout",
            DubError::ProviderHttp { .. } => "provider_http",
            DubError::ProviderTransport { .. } => "provider_transport",
            DubError::Validation { .. } => "validation",
            DubError::MediaTool { .. } => "media_tool",
            DubError::NoAudio => "no_audio",
            DubError::ConfigMissing { .. } => "config_missing",
            DubError::Storage { .. } => "storage",
        }
    }
}

/// The cancellation check performed at every suspension boundary — the
/// top of each batch iteration, each scheduler wait, and before each TTS
/// item: a set flag aborts the command with `Cancelled`; checkpointed
/// progress stays valid for the next run.
pub fn cancel_check(cancelled: bool) -> (r: Result<(), DubError>)
    ensures
        (r is Err) <==> cancelled,
        r matches Err(e) ==> e is Cancelled,
{
    if cancelled {
        Err(DubError::Cancelled)
    } else {
        Ok(())
    }
}

} // verus!
