use vstd::prelude::*;

use crate::api::{ConfirmResponse, UploadResponse};
use crate::text::{lower_of, lowercase, str_eq};

verus! {

/// The kinds of document the library accepts.
#[derive(Clone, Copy, PartialEq, Eq, Structural, Debug)]
pub enum ContentType {
    Pdf,
    Markdown,
}

pub open spec fn mime_of(c: ContentType) -> Seq<char> {
    match c {
        ContentType::Pdf => "application/pdf"@,
        ContentType::Markdown => "text/markdown"@,
    }
}

impl ContentType {
    /// The MIME type sent with the document.
    pub fn mime(&self) -> (r: &'static str)
        ensures
            r@ == mime_of(*self),
    {
        match self {
            ContentType::Pdf => "application/pdf",
            ContentType::Markdown => "text/markdown",
        }
    }
}

/// Why an upload stopped, by the phase that failed.
pub enum UploadError {
    /// The file's extension names no accepted kind (it holds the extension
    /// in lower case, or `no extension`).
    UnsupportedType(String),
    /// The service refused to issue a ticket.
    TicketRequestFailed(String),
    /// The storage endpoint refused the bytes; the ticket stays unused.
    TransferFailed(String),
    /// The service refused to commit the transferred bytes.
    CommitFailed(String),
}

/// The kind a lower-case extension names.
pub open spec fn content_type_of(ext: Seq<char>) -> Option<ContentType> {
    if ext == "pdf"@ {
        Some(ContentType::Pdf)
    } else if ext == "md"@ || ext == "markdown"@ {
        Some(ContentType::Markdown)
    } else {
        None
    }
}

/// The kind of document that a lower-case extension names.
pub fn content_type_for_lower(ext: &str) -> (r: Option<ContentType>)
    ensures
        r == content_type_of(ext@),
{
    if str_eq(ext, "pdf") {
        Some(ContentType::Pdf)
    } else if str_eq(ext, "md") || str_eq(ext, "markdown") {
        Some(ContentType::Markdown)
    } else {
        None
    }
}

/// Whether `r` refuses the extension, reporting it as `shown`.
pub open spec fn refused_as(r: Result<ContentType, UploadError>, shown: Seq<char>) -> bool {
    match r {
        Err(UploadError::UnsupportedType(e)) => e@ == shown,
        _ => false,
    }
}

/// The kind of document that a file extension names, in any case.
pub fn content_type_for(ext: Option<&str>) -> (r: Result<ContentType, UploadError>)
    ensures
        ext is None ==> refused_as(r, "no extension"@),
        ext matches Some(x) ==> match content_type_of(lower_of(x@)) {
            Some(c) => r == Ok::<ContentType, UploadError>(c),
            None => refused_as(r, lower_of(x@)),
        },
{
    match ext {
        None => Err(UploadError::UnsupportedType(String::from_str("no extension"))),
        Some(x) => {
            let lower = lowercase(x);
            match content_type_for_lower(lower.as_str()) {
                Some(c) => Ok(c),
                None => Err(UploadError::UnsupportedType(lower)),
            }
        },
    }
}

/// Where an upload stands.
pub enum UploadState {
    /// Waiting for the service to issue a ticket.
    Ticketing { content_type: ContentType, size: u64 },
    /// Waiting for the bytes to reach storage; holds what commits them.
    Transferring { item_id: String, storage_key: String },
    /// Waiting for the service to commit the upload.
    Committing,
    /// The upload was committed.
    Done,
    /// A phase failed; nothing more is done.
    Failed,
}

/// What the outside world reports back for the action last asked for.
pub enum UploadEvent {
    TicketIssued(UploadResponse),
    TicketRefused(String),
    Transferred,
    TransferRefused(String),
    Committed(ConfirmResponse),
    CommitRefused(String),
}

/// What the caller is to do next.
pub enum UploadAction {
    /// Ask the service for a ticket.
    RequestTicket { filename: String, size: u64, content_type: ContentType },
    /// Send all `size` bytes to `upload_url`; progress runs from 0 to `size`.
    Transfer { upload_url: String, content_type: ContentType, size: u64 },
    /// Register the transferred bytes with the service.
    Commit { item_id: String, storage_key: String },
    /// Report the committed upload.
    Finish(ConfirmResponse),
    /// Report the failed phase.
    Fail(UploadError),
    /// The event does not belong to the current phase: nothing to do.
    Ignore,
}

/// One step of the upload protocol.
pub open spec fn next_upload(state: UploadState, event: UploadEvent) -> (UploadState, UploadAction) {
    match state {
        UploadState::Ticketing { content_type, size } => match event {
            UploadEvent::TicketIssued(t) => (
                UploadState::Transferring { item_id: t.item_id, storage_key: t.storage_key },
                UploadAction::Transfer { upload_url: t.upload_url, content_type, size },
            ),
            UploadEvent::TicketRefused(m) => (
                UploadState::Failed,
                UploadAction::Fail(UploadError::TicketRequestFailed(m)),
            ),
            _ => (state, UploadAction::Ignore),
        },
        UploadState::Transferring { item_id, storage_key } => match event {
            UploadEvent::Transferred => (
                UploadState::Committing,
                UploadAction::Commit { item_id, storage_key },
            ),
            UploadEvent::TransferRefused(m) => (
                UploadState::Failed,
                UploadAction::Fail(UploadError::TransferFailed(m)),
            ),
            _ => (state, UploadAction::Ignore),
        },
        UploadState::Committing => match event {
            UploadEvent::Committed(c) => (UploadState::Done, UploadAction::Finish(c)),
            UploadEvent::CommitRefused(m) => (
                UploadState::Failed,
                UploadAction::Fail(UploadError::CommitFailed(m)),
            ),
            _ => (state, UploadAction::Ignore),
        },
        _ => (state, UploadAction::Ignore),
    }
}

/// The actions that a sequence of events draws from `state`, one per event.
pub open spec fn run_upload(state: UploadState, events: Seq<UploadEvent>) -> Seq<UploadAction>
    decreases events.len(),
{
    if events.len() == 0 {
        Seq::empty()
    } else {
        let (s, a) = next_upload(state, events[0]);
        seq![a] + run_upload(s, events.drop_first())
    }
}

/// Begins an upload of `size` bytes: the first phase asks for a ticket.
pub fn start_upload(filename: String, size: u64, content_type: ContentType) -> (r: (
    UploadState,
    UploadAction,
))
    ensures
        r.0 == (UploadState::Ticketing { content_type, size }),
        r.1 == (UploadAction::RequestTicket { filename, size, content_type }),
{
    (
        UploadState::Ticketing { content_type, size },
        UploadAction::RequestTicket { filename, size, content_type },
    )
}

/// Advances the upload by one reported event.
pub fn upload_step(state: UploadState, event: UploadEvent) -> (r: (UploadState, UploadAction))
    ensures
        r == next_upload(state, event),
{
    match state {
        UploadState::Ticketing { content_type, size } => match event {
            UploadEvent::TicketIssued(t) => (
                UploadState::Transferring { item_id: t.item_id, storage_key: t.storage_key },
                UploadAction::Transfer { upload_url: t.upload_url, content_type, size },
            ),
            UploadEvent::TicketRefused(m) => (
                UploadState::Failed,
                UploadAction::Fail(UploadError::TicketRequestFailed(m)),
            ),
            _ => (UploadState::Ticketing { content_type, size }, UploadAction::Ignore),
        },
        UploadState::Transferring { item_id, storage_key } => match event {
            UploadEvent::Transferred => (
                UploadState::Committing,
                UploadAction::Commit { item_id, storage_key },
            ),
            UploadEvent::TransferRefused(m) => (
                UploadState::Failed,
                UploadAction::Fail(UploadError::TransferFailed(m)),
            ),
            _ => (UploadState::Transferring { item_id, storage_key }, UploadAction::Ignore),
        },
        UploadState::Committing => match event {
            UploadEvent::Committed(c) => (UploadState::Done, UploadAction::Finish(c)),
            UploadEvent::CommitRefused(m) => (
                UploadState::Failed,
                UploadAction::Fail(UploadError::CommitFailed(m)),
            ),
            _ => (UploadState::Committing, UploadAction::Ignore),
        },
        UploadState::Done => (UploadState::Done, UploadAction::Ignore),
        UploadState::Failed => (UploadState::Failed, UploadAction::Ignore),
    }
}

/// Once a phase has failed, no event draws any action.
pub proof fn lemma_failed_upload_is_inert(events: Seq<UploadEvent>)
    ensures
        forall|i: int|
            0 <= i < events.len() ==> #[trigger] run_upload(UploadState::Failed, events)[i]
                is Ignore,
    decreases events.len(),
{
    if events.len() > 0 {
        lemma_failed_upload_is_inert(events.drop_first());
        lemma_run_length(UploadState::Failed, events.drop_first());
        let r = run_upload(UploadState::Failed, events);
        let rest = run_upload(UploadState::Failed, events.drop_first());
        assert forall|i: int| 0 <= i < events.len() implies #[trigger] r[i] is Ignore by {
            if i > 0 {
                assert(r[i] == rest[i - 1]);
            }
        }
    }
}

/// A refused ticket ends the upload: whatever is reported after it, neither
/// a transfer nor a commit is ever asked for.
pub proof fn lemma_ticket_failure_stops_upload(
    content_type: ContentType,
    size: u64,
    message: String,
    later: Seq<UploadEvent>,
)
    ensures
        ({
            let r = run_upload(
                UploadState::Ticketing { content_type, size },
                seq![UploadEvent::TicketRefused(message)] + later,
            );
            &&& r.len() == later.len() + 1
            &&& r[0] == UploadAction::Fail(UploadError::TicketRequestFailed(message))
            &&& forall|i: int|
                0 <= i < r.len() ==> !(#[trigger] r[i] is Transfer) && !(r[i] is Commit)
        }),
{
    let events = seq![UploadEvent::TicketRefused(message)] + later;
    assert(events.drop_first() =~= later);
    lemma_failed_upload_is_inert(later);
    lemma_run_length(UploadState::Failed, later);
    let r = run_upload(UploadState::Ticketing { content_type, size }, events);
    assert forall|i: int| 0 <= i < r.len() implies !(#[trigger] r[i] is Transfer) && !(
    r[i] is Commit) by {
        if i > 0 {
            assert(r[i] == run_upload(UploadState::Failed, later)[i - 1]);
        }
    }
}

/// A refused transfer ends the upload: whatever is reported after it, no
/// commit is ever asked for.
pub proof fn lemma_transfer_failure_stops_upload(
    item_id: String,
    storage_key: String,
    message: String,
    later: Seq<UploadEvent>,
)
    ensures
        ({
            let r = run_upload(
                UploadState::Transferring { item_id, storage_key },
                seq![UploadEvent::TransferRefused(message)] + later,
            );
            &&& r.len() == later.len() + 1
            &&& r[0] == UploadAction::Fail(UploadError::TransferFailed(message))
            &&& forall|i: int| 0 <= i < r.len() ==> !(#[trigger] r[i] is Commit)
        }),
{
    let events = seq![UploadEvent::TransferRefused(message)] + later;
    assert(events.drop_first() =~= later);
    lemma_failed_upload_is_inert(later);
    lemma_run_length(UploadState::Failed, later);
    let r = run_upload(UploadState::Transferring { item_id, storage_key }, events);
    assert forall|i: int| 0 <= i < r.len() implies !(#[trigger] r[i] is Commit) by {
        if i > 0 {
            assert(r[i] == run_upload(UploadState::Failed, later)[i - 1]);
        }
    }
}

/// The phases come in order and none is skipped: a transfer is asked for only
/// on a ticket just issued, and a commit only on a transfer just completed.
pub proof fn lemma_phases_in_order(state: UploadState, event: UploadEvent)
    ensures
        next_upload(state, event).1 is Transfer ==> state is Ticketing
            && event is TicketIssued,
        next_upload(state, event).1 is Commit ==> state is Transferring && event is Transferred,
        next_upload(state, event).1 is Finish ==> state is Committing && event is Committed,
{
}

pub proof fn lemma_run_length(state: UploadState, events: Seq<UploadEvent>)
    ensures
        run_upload(state, events).len() == events.len(),
    decreases events.len(),
{
    if events.len() > 0 {
        lemma_run_length(next_upload(state, events[0]).0, events.drop_first());
    }
}

} // verus!
