//! The uniform envelope wrapped around every API response.

use vstd::prelude::*;

verus! {

/// A uniform response envelope: `data` populated on success, `errors`
/// populated on failure, and a message either way.
#[derive(Debug)]
pub struct JsonApiResponse<T> {
    /// The returned records, present only on success.
    pub data: Option<Vec<T>>,
    /// A human-readable message.
    pub message: String,
    /// The reported errors, present only on failure.
    pub errors: Option<Vec<T>>,
}

impl<T> JsonApiResponse<T> {
    /// Produce an envelope indicating success, with "OK" standing in for an
    /// omitted message.
    pub fn success(data: Vec<T>, message: Option<String>) -> (r: Self)
        ensures
            r.data == Some(data),
            r.errors is None,
            r.message@ == (match message {
                Some(m) => m@,
                None => "OK"@,
            }),
    {
        Self {
            data: Some(data),
            message: match message {
                Some(m) => m,
                None => "OK".to_owned(),
            },
            errors: None,
        }
    }

    /// Produce an envelope indicating an error, with "NOT OK" standing in
    /// for an omitted message.
    pub fn error(errors: Vec<T>, message: Option<String>) -> (r: Self)
        ensures
            r.data is None,
            r.errors == Some(errors),
            r.message@ == (match message {
                Some(m) => m@,
                None => "NOT OK"@,
            }),
    {
        Self {
            data: None,
            message: match message {
                Some(m) => m,
                None => "NOT OK".to_owned(),
            },
            errors: Some(errors),
        }
    }
}

} // verus!
