use vstd::prelude::*;

verus! {

/// The failure taxonomy of the service.
///
/// - `NotFound`: a requested resource does not exist.
/// - `PGError`: a SQL statement failed (constraint violation, lost
///   connectivity, out-of-range id, missing schema).
/// - `PGMError`: a row could not be converted into the target entity shape.
/// - `PoolError`: a database connection could not be acquired; carries the
///   underlying error message.
#[derive(Debug)]
pub enum MyError {
    NotFound,
    PGError,
    PGMError,
    PoolError(String),
}

/// The HTTP status code that a failure maps to.
pub open spec fn spec_status(e: MyError) -> int {
    match e {
        MyError::NotFound => 404,
        MyError::PGError => 500,
        MyError::PGMError => 500,
        MyError::PoolError(_) => 500,
    }
}

/// The HTTP response body that a failure maps to: empty, except for a pool
/// failure, whose message is passed through.
pub open spec fn spec_body(e: MyError) -> Seq<char> {
    match e {
        MyError::PoolError(m) => m@,
        _ => Seq::empty(),
    }
}

impl MyError {
    /// Renders the failure as an HTTP status code and response body.
    pub fn error_response(&self) -> (r: (u16, String))
        ensures
            r.0 as int == spec_status(*self),
            r.1@ == spec_body(*self),
    {
        match self {
            MyError::NotFound => (404, String::new()),
            MyError::PoolError(m) => (500, m.clone()),
            MyError::PGError => (500, String::new()),
            MyError::PGMError => (500, String::new()),
        }
    }
}

} // verus!
