//! HTTP-level errors and the single translation step from storage errors to
//! status codes.

use vstd::prelude::*;
use vstd::string::StringExecFns;

use crate::response::JsonApiResponse;
use crate::store::StorageError;

verus! {

/// An HTTP error: the status code to return and a message for the user.
#[derive(Debug)]
pub struct HttpError {
    /// The HTTP status code to return
    pub status_code: u16,
    /// The message for the user describing the error
    pub message: String,
}

/// The status code actually sent: codes outside the well-formed range
/// (100..=999) fall back to 500.
pub open spec fn effective_status(code: u16) -> u16 {
    if 100 <= code < 1000 {
        code
    } else {
        500
    }
}

/// The message actually sent: server errors (status 500 and above) have
/// their text replaced with a generic string so internals do not leak, while
/// client-error messages pass through.
pub open spec fn masked_message(code: u16, message: Seq<char>) -> Seq<char> {
    if effective_status(code) < 500 {
        message
    } else {
        "Internal server error"@
    }
}

impl HttpError {
    /// Helper factory function to create a new HttpError.
    pub fn new(status_code: u16, message: String) -> (r: HttpError)
        ensures
            r.status_code == status_code,
            r.message == message,
    {
        HttpError { status_code, message }
    }

    /// Translate a storage error into an HTTP error: `NotFound` becomes 404,
    /// `Conflict` 409 with the constraint's message, `Timeout` 408, and
    /// anything else 500.
    pub fn from_storage(error: StorageError) -> (r: HttpError)
        ensures
            error is NotFound ==> r.status_code == 404 && r.message@
                == "The record was not found"@,
            error matches StorageError::Conflict(m) ==> r.status_code == 409 && r.message@ == m@,
            error is Timeout ==> r.status_code == 408 && r.message@ == "DB Pool timed out"@,
            error matches StorageError::Internal(m) ==> r.status_code == 500 && r.message@
                == "Unexpected DB error: "@ + m@,
    {
        match error {
            StorageError::Conflict(m) => HttpError::new(409, m),
            StorageError::Timeout => HttpError::new(408, "DB Pool timed out".to_owned()),
            StorageError::NotFound => HttpError::new(404, "The record was not found".to_owned()),
            StorageError::Internal(m) => {
                let mut text = "Unexpected DB error: ".to_owned();
                text.append(m.as_str());
                HttpError::new(500, text)
            },
        }
    }

    /// The HTTP reply this error produces: the effective status code and an
    /// error envelope whose single entry is the (possibly masked) message.
    pub fn response_parts(&self) -> (r: (u16, JsonApiResponse<String>))
        ensures
            r.0 == effective_status(self.status_code),
            r.1.data is None,
            r.1.message@ == "NOT OK"@,
            r.1.errors matches Some(errs) && errs.deep_view() == seq![
                masked_message(self.status_code, self.message@),
            ],
    {
        let status: u16 = if self.status_code >= 100 && self.status_code < 1000 {
            self.status_code
        } else {
            500
        };
        let text: String = if status < 500 {
            self.message.clone()
        } else {
            "Internal server error".to_owned()
        };
        let errors = vec![text];
        proof {
            assert(errors.deep_view() =~= seq![
                masked_message(self.status_code, self.message@),
            ]);
        }
        (status, JsonApiResponse::<String>::error(errors, None))
    }
}

} // verus!
