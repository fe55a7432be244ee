use vstd::prelude::*;

verus! {

/// Errors the service reports to its callers.
#[derive(Debug)]
pub enum AppError {
    BadRequest(String),
    SidecarUnavailable,
    InternalServerError(String),
    NotFound,
}

impl Clone for AppError {
    fn clone(&self) -> (r: AppError)
        ensures
            r == *self,
    {
        match self {
            AppError::BadRequest(m) => AppError::BadRequest(m.clone()),
            AppError::SidecarUnavailable => AppError::SidecarUnavailable,
            AppError::InternalServerError(m) => AppError::InternalServerError(m.clone()),
            AppError::NotFound => AppError::NotFound,
        }
    }
}

/// HTTP status code that an error is answered with.
pub open spec fn status_of(e: AppError) -> u16 {
    match e {
        AppError::BadRequest(_) => 400,
        AppError::SidecarUnavailable => 503,
        AppError::InternalServerError(_) => 500,
        AppError::NotFound => 404,
    }
}

/// Message that is shown to the client for an error (details stay in the log).
pub open spec fn public_message_of(e: AppError) -> Seq<char> {
    match e {
        AppError::BadRequest(_) => "Invalid input"@,
        AppError::SidecarUnavailable => "The Whisper sidecar is not responding"@,
        AppError::InternalServerError(_) => "An unexpected internal error occurred"@,
        AppError::NotFound => "Not found"@,
    }
}

/// The statuses that the API documents for its error responses, with their descriptions.
pub open spec fn documented_responses_spec() -> Seq<(u16, Seq<char>)> {
    seq![
        (400u16, "Bad Request"@),
        (404u16, "Not Found"@),
        (500u16, "Internal Server Error"@),
        (503u16, "Service Unavailable"@),
    ]
}

impl AppError {
    /// Internal error for a failed network request, carrying the transport's description.
    pub fn network_failure(detail: &str) -> (e: AppError)
        ensures
            e matches AppError::InternalServerError(m) && m@ == "Network request failed: "@ + detail@,
    {
        let mut msg = String::from_str("Network request failed: ");
        msg.append(detail);
        AppError::InternalServerError(msg)
    }

    /// Status code of the HTTP response for this error.
    pub fn status_code(&self) -> (code: u16)
        ensures
            code == status_of(*self),
    {
        match self {
            AppError::BadRequest(_) => 400,
            AppError::SidecarUnavailable => 503,
            AppError::InternalServerError(_) => 500,
            AppError::NotFound => 404,
        }
    }

    /// Message placed in the `error` field of the response body.
    pub fn public_message(&self) -> (msg: &'static str)
        ensures
            msg@ == public_message_of(*self),
    {
        match self {
            AppError::BadRequest(_) => "Invalid input",
            AppError::SidecarUnavailable => "The Whisper sidecar is not responding",
            AppError::InternalServerError(_) => "An unexpected internal error occurred",
            AppError::NotFound => "Not found",
        }
    }

    /// The error responses that the API documentation lists, in order.
    pub fn documented_responses() -> (r: Vec<(u16, String)>)
        ensures
            r@.len() == documented_responses_spec().len(),
            forall|i: int|
                0 <= i < r@.len() ==> r@[i].0 == documented_responses_spec()[i].0
                    && r@[i].1@ == documented_responses_spec()[i].1,
    {
        let mut r: Vec<(u16, String)> = Vec::new();
        r.push((400, String::from_str("Bad Request")));
        r.push((404, String::from_str("Not Found")));
        r.push((500, String::from_str("Internal Server Error")));
        r.push((503, String::from_str("Service Unavailable")));
        r
    }
}

/// Every error that the service can produce is answered with one of the documented statuses.
pub proof fn lemma_every_status_documented(e: AppError)
    ensures
        exists|i: int|
            0 <= i < documented_responses_spec().len() && #[trigger] documented_responses_spec()[i].0
                == status_of(e),
{
    let d = documented_responses_spec();
    match e {
        AppError::BadRequest(_) => assert(d[0].0 == status_of(e)),
        AppError::NotFound => assert(d[1].0 == status_of(e)),
        AppError::InternalServerError(_) => assert(d[2].0 == status_of(e)),
        AppError::SidecarUnavailable => assert(d[3].0 == status_of(e)),
    }
}

} // verus!
