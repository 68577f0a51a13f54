use vstd::prelude::*;

verus! {

/// The signed-in user, as the service describes them.
pub struct WhoamiResponse {
    pub id: String,
    pub email: String,
    pub name: Option<String>,
    pub tier: String,
    pub item_limit: i32,
    pub item_count: i32,
}

/// An item that waits for its metadata to be enriched.
pub struct EnrichmentQueueItem {
    pub id: String,
    pub title: String,
    pub page_count: i32,
}

/// A processing job of the service.
pub struct Job {
    pub id: String,
    pub job_type: String,
    pub status: String,
    pub progress: Option<i32>,
    pub error: Option<String>,
}

/// Tables of contents for several items.
pub struct BatchTocResponse {
    pub items: Vec<ItemWithToc>,
    pub not_found: Option<Vec<String>>,
}

/// One item with its table of contents, where it has one.
pub struct ItemWithToc {
    pub id: String,
    pub title: String,
    pub page_count: i32,
    pub toc: Option<Vec<TocEntry>>,
}

/// One entry of a table of contents.
pub struct TocEntry {
    pub title: String,
    pub page: i32,
    pub level: Option<i32>,
}

/// A transfer ticket: where to send the bytes of one upload, and the key
/// that commits them.
pub struct UploadResponse {
    pub item_id: String,
    pub upload_url: String,
    pub storage_key: String,
    pub expires_at: String,
}

/// What a committed upload became: the item and its processing job.
pub struct ConfirmResponse {
    pub item: ConfirmItem,
    pub job: ConfirmJob,
}

pub struct ConfirmItem {
    pub id: String,
    pub title: String,
}

pub struct ConfirmJob {
    pub id: String,
    pub job_type: String,
    pub status: String,
}

/// The outcome of deleting several items.
pub struct DeleteResponse {
    pub deleted: Vec<String>,
    pub not_found: Vec<String>,
    pub storage_errors: Option<Vec<String>>,
}

/// The body of a failed call.
pub struct ApiError {
    pub error: String,
}

pub struct FlagResponse {
    pub item: FlaggedItem,
}

pub struct FlaggedItem {
    pub id: String,
    pub title: String,
    pub needs_enrichment: bool,
}

pub struct CreateMarkdownResponse {
    pub id: String,
    pub title: String,
    pub description: Option<String>,
    pub source_type: String,
    pub page_count: i32,
    pub created_at: String,
    pub updated_at: String,
}

pub struct GetContentResponse {
    pub id: String,
    pub title: String,
    pub description: Option<String>,
    pub content: String,
    pub version: i32,
    pub page_count: i32,
    pub updated_at: String,
}

pub struct PutContentResponse {
    pub id: String,
    pub title: String,
    pub version: i32,
    pub page_count: i32,
    pub updated_at: String,
}

/// The kinds of failure that the service reports by status.
#[derive(Clone, Copy, PartialEq, Eq, Structural, Debug)]
pub enum ApiFailure {
    Unauthenticated,
    Forbidden,
    NotFound,
    BadRequest,
    Other,
}

/// Whether an HTTP status reports success.
pub open spec fn success_status(status: u16) -> bool {
    200 <= status <= 299
}

/// The kind of failure an HTTP status reports.
pub open spec fn failure_of(status: u16) -> ApiFailure {
    if status == 401 {
        ApiFailure::Unauthenticated
    } else if status == 403 {
        ApiFailure::Forbidden
    } else if status == 404 {
        ApiFailure::NotFound
    } else if status == 400 {
        ApiFailure::BadRequest
    } else {
        ApiFailure::Other
    }
}

/// Whether an HTTP status reports success.
pub fn is_success(status: u16) -> (r: bool)
    ensures
        r == success_status(status),
{
    200 <= status && status <= 299
}

/// The kind of failure an HTTP status reports.
pub fn classify_status(status: u16) -> (r: ApiFailure)
    ensures
        r == failure_of(status),
{
    if status == 401 {
        ApiFailure::Unauthenticated
    } else if status == 403 {
        ApiFailure::Forbidden
    } else if status == 404 {
        ApiFailure::NotFound
    } else if status == 400 {
        ApiFailure::BadRequest
    } else {
        ApiFailure::Other
    }
}

/// The message for a failed call: `detail` under a heading for its kind;
/// `status_text` is the status as shown to people (`500 Internal Server Error`).
pub open spec fn failure_text(status: u16, status_text: Seq<char>, detail: Seq<char>) -> Seq<char> {
    match failure_of(status) {
        ApiFailure::Unauthenticated => "Authentication failed: "@ + detail,
        ApiFailure::Forbidden => "Access denied: "@ + detail,
        ApiFailure::NotFound => "Not found: "@ + detail,
        ApiFailure::BadRequest => "Bad request: "@ + detail,
        ApiFailure::Other => "API error ("@ + status_text + "): "@ + detail,
    }
}

/// The message for a failed call.
pub fn failure_message(status: u16, status_text: &str, detail: &str) -> (r: String)
    ensures
        r@ == failure_text(status, status_text@, detail@),
{
    let mut r = match classify_status(status) {
        ApiFailure::Unauthenticated => String::from_str("Authentication failed: "),
        ApiFailure::Forbidden => String::from_str("Access denied: "),
        ApiFailure::NotFound => String::from_str("Not found: "),
        ApiFailure::BadRequest => String::from_str("Bad request: "),
        ApiFailure::Other => {
            let mut h = String::from_str("API error (");
            h.append(status_text);
            h.append("): ");
            h
        },
    };
    r.append(detail);
    r
}

/// The detail of a failed call: the service's own error text where its body
/// held one, else `HTTP <status>`.
pub fn failure_detail(body_error: Option<String>, status_text: &str) -> (r: String)
    ensures
        r@ == match body_error {
            Some(e) => e@,
            None => "HTTP "@ + status_text@,
        },
{
    match body_error {
        Some(e) => e,
        None => {
            let mut r = String::from_str("HTTP ");
            r.append(status_text);
            r
        },
    }
}

/// The message for bytes that the storage endpoint refused.
pub fn transfer_failure_message(status_text: &str, body: &str) -> (r: String)
    ensures
        r@ == "Upload failed ("@ + status_text@ + "): "@ + body@,
{
    let mut r = String::from_str("Upload failed (");
    r.append(status_text);
    r.append("): ");
    r.append(body);
    r
}

/// The address of an endpoint of the versioned API.
pub fn endpoint_url(base_url: &str, path: &str) -> (r: String)
    ensures
        r@ == base_url@ + "/api/v1"@ + path@,
{
    let mut r = String::from_str(base_url);
    r.append("/api/v1");
    r.append(path);
    r
}

/// The `Authorization` header value for a credential.
pub fn bearer(api_key: &str) -> (r: String)
    ensures
        r@ == "Bearer "@ + api_key@,
{
    let mut r = String::from_str("Bearer ");
    r.append(api_key);
    r
}

} // verus!
