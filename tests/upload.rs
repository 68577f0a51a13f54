use candlekeep::api::{ConfirmItem, ConfirmJob, ConfirmResponse, UploadResponse};
use candlekeep::upload::{
    content_type_for, content_type_for_lower, start_upload, upload_step, ContentType, UploadAction,
    UploadError, UploadEvent, UploadState,
};

fn ticket() -> UploadResponse {
    UploadResponse {
        item_id: "it_1".to_string(),
        upload_url: "https://storage.example/put?sig=1".to_string(),
        storage_key: "uploads/it_1.pdf".to_string(),
        expires_at: "2030-01-01T00:00:00Z".to_string(),
    }
}

fn confirmation() -> ConfirmResponse {
    ConfirmResponse {
        item: ConfirmItem { id: "it_1".to_string(), title: "Doc".to_string() },
        job: ConfirmJob {
            id: "job_9".to_string(),
            job_type: "PROCESS".to_string(),
            status: "PENDING".to_string(),
        },
    }
}

#[test]
fn content_types_by_extension() {
    assert_eq!(content_type_for(Some("pdf")).ok(), Some(ContentType::Pdf));
    assert_eq!(content_type_for(Some("PDF")).ok(), Some(ContentType::Pdf));
    assert_eq!(content_type_for(Some("Md")).ok(), Some(ContentType::Markdown));
    assert_eq!(content_type_for(Some("MARKDOWN")).ok(), Some(ContentType::Markdown));
    assert_eq!(content_type_for_lower("PDF"), None);
    assert_eq!(ContentType::Pdf.mime(), "application/pdf");
    assert_eq!(ContentType::Markdown.mime(), "text/markdown");
}

#[test]
fn unsupported_extensions_are_refused() {
    match content_type_for(Some("DOCX")) {
        Err(UploadError::UnsupportedType(e)) => assert_eq!(e, "docx"),
        _ => panic!("expected a refusal"),
    }
    match content_type_for(None) {
        Err(UploadError::UnsupportedType(e)) => assert_eq!(e, "no extension"),
        _ => panic!("expected a refusal"),
    }
}

#[test]
fn three_phases_in_order() {
    let (state, action) = start_upload("doc.pdf".to_string(), 1234, ContentType::Pdf);
    match action {
        UploadAction::RequestTicket { filename, size, content_type } => {
            assert_eq!(filename, "doc.pdf");
            assert_eq!(size, 1234);
            assert_eq!(content_type, ContentType::Pdf);
        }
        _ => panic!("expected a ticket request"),
    }
    let (state, action) = upload_step(state, UploadEvent::TicketIssued(ticket()));
    match action {
        UploadAction::Transfer { upload_url, content_type, size } => {
            assert_eq!(upload_url, "https://storage.example/put?sig=1");
            assert_eq!(content_type, ContentType::Pdf);
            assert_eq!(size, 1234);
        }
        _ => panic!("expected a transfer"),
    }
    let (state, action) = upload_step(state, UploadEvent::Transferred);
    match action {
        UploadAction::Commit { item_id, storage_key } => {
            assert_eq!(item_id, "it_1");
            assert_eq!(storage_key, "uploads/it_1.pdf");
        }
        _ => panic!("expected a commit"),
    }
    let (state, action) = upload_step(state, UploadEvent::Committed(confirmation()));
    match action {
        UploadAction::Finish(c) => assert_eq!(c.job.id, "job_9"),
        _ => panic!("expected the outcome"),
    }
    assert!(matches!(state, UploadState::Done));
}

#[test]
fn ticket_failure_stops_before_transfer() {
    let (state, _) = start_upload("doc.md".to_string(), 10, ContentType::Markdown);
    let (state, action) = upload_step(state, UploadEvent::TicketRefused("quota".to_string()));
    match action {
        UploadAction::Fail(UploadError::TicketRequestFailed(m)) => assert_eq!(m, "quota"),
        _ => panic!("expected a ticket failure"),
    }
    assert!(matches!(state, UploadState::Failed));
    let (state, action) = upload_step(state, UploadEvent::TicketIssued(ticket()));
    assert!(matches!(action, UploadAction::Ignore));
    let (_, action) = upload_step(state, UploadEvent::Transferred);
    assert!(matches!(action, UploadAction::Ignore));
}

#[test]
fn transfer_failure_never_commits() {
    let (state, _) = start_upload("doc.pdf".to_string(), 10, ContentType::Pdf);
    let (state, _) = upload_step(state, UploadEvent::TicketIssued(ticket()));
    let (state, action) =
        upload_step(state, UploadEvent::TransferRefused("Upload failed (403 Forbidden): no".to_string()));
    assert!(matches!(action, UploadAction::Fail(UploadError::TransferFailed(_))));
    let (_, action) = upload_step(state, UploadEvent::Transferred);
    assert!(matches!(action, UploadAction::Ignore));
}

#[test]
fn commit_failure_is_terminal() {
    let (state, _) = start_upload("doc.pdf".to_string(), 10, ContentType::Pdf);
    let (state, _) = upload_step(state, UploadEvent::TicketIssued(ticket()));
    let (state, _) = upload_step(state, UploadEvent::Transferred);
    let (state, action) = upload_step(state, UploadEvent::CommitRefused("expired".to_string()));
    match action {
        UploadAction::Fail(UploadError::CommitFailed(m)) => assert_eq!(m, "expired"),
        _ => panic!("expected a commit failure"),
    }
    let (_, action) = upload_step(state, UploadEvent::Committed(confirmation()));
    assert!(matches!(action, UploadAction::Ignore));
}

#[test]
fn phases_cannot_be_skipped() {
    let (state, _) = start_upload("doc.pdf".to_string(), 10, ContentType::Pdf);
    let (state, action) = upload_step(state, UploadEvent::Transferred);
    assert!(matches!(action, UploadAction::Ignore));
    let (_, action) = upload_step(state, UploadEvent::Committed(confirmation()));
    assert!(matches!(action, UploadAction::Ignore));
}
