//! Plain response and request records exchanged with the transport layer.

use vstd::prelude::*;

verus! {

/// Body of a successful conversion reply.
pub struct ConversionResponse {
    pub file_id: String,
    pub svg_data: String,
    pub message: String,
}

/// Body of an error reply.
pub struct ErrorResponse {
    pub error: String,
    pub details: Option<String>,
}

/// Body of the health probe reply.
pub struct HealthResponse {
    pub status: String,
    pub message: String,
}

/// Identifiers requested in one batch download.
pub struct BatchDownloadRequest {
    pub file_ids: Vec<String>,
}

/// The health probe is static: it always reports an operational status.
pub fn health_response() -> (r: HealthResponse)
    ensures
        r.status@ == "ok"@,
        r.message@ == "Server is running"@,
{
    HealthResponse {
        status: String::from_str("ok"),
        message: String::from_str("Server is running"),
    }
}

} // verus!
