//! The errors that the service answers with.
use vstd::prelude::*;

verus! {

/// An error of the service; each variant maps to one HTTP status.
#[derive(Debug, Clone, PartialEq, Eq)]
pub enum AppError {
    /// 400: the request is malformed or not allowed in the current state.
    BadRequest(String),
    /// 401: no, or no valid, credentials.
    Unauthorized(String),
    /// 403: the caller may not do this.
    Forbidden(String),
    /// 404: the addressed record does not exist.
    NotFound,
    /// 409: the request conflicts with the current state.
    Conflict(String),
    /// 500: the server failed.
    Internal(String),
}

impl AppError {
    /// The HTTP status code of this error.
    pub fn status_code(&self) -> (res: u16)
        ensures
            res == match self {
                AppError::BadRequest(_) => 400u16,
                AppError::Unauthorized(_) => 401u16,
                AppError::Forbidden(_) => 403u16,
                AppError::NotFound => 404u16,
                AppError::Conflict(_) => 409u16,
                AppError::Internal(_) => 500u16,
            },
    {
        match self {
            AppError::BadRequest(_) => 400,
            AppError::Unauthorized(_) => 401,
            AppError::Forbidden(_) => 403,
            AppError::NotFound => 404,
            AppError::Conflict(_) => 409,
            AppError::Internal(_) => 500,
        }
    }
}

/// The message an error carries (empty for `NotFound`).
pub open spec fn message(e: AppError) -> Seq<char> {
    match e {
        AppError::BadRequest(m) => m@,
        AppError::Unauthorized(m) => m@,
        AppError::Forbidden(m) => m@,
        AppError::NotFound => Seq::empty(),
        AppError::Conflict(m) => m@,
        AppError::Internal(m) => m@,
    }
}

/// `r` failed with `BadRequest(m)`.
pub open spec fn bad_request<T>(r: Result<T, AppError>, m: Seq<char>) -> bool {
    r is Err && r->Err_0 is BadRequest && message(r->Err_0) == m
}

/// `r` failed with `Unauthorized(m)`.
pub open spec fn unauthorized<T>(r: Result<T, AppError>, m: Seq<char>) -> bool {
    r is Err && r->Err_0 is Unauthorized && message(r->Err_0) == m
}

/// `r` failed with `Forbidden(m)`.
pub open spec fn forbidden<T>(r: Result<T, AppError>, m: Seq<char>) -> bool {
    r is Err && r->Err_0 is Forbidden && message(r->Err_0) == m
}

/// `r` failed with `Conflict(m)`.
pub open spec fn conflict<T>(r: Result<T, AppError>, m: Seq<char>) -> bool {
    r is Err && r->Err_0 is Conflict && message(r->Err_0) == m
}

/// `r` failed with `NotFound`.
pub open spec fn not_found<T>(r: Result<T, AppError>) -> bool {
    r is Err && r->Err_0 is NotFound
}

/// `r` failed with `Internal(_)`.
pub open spec fn internal<T>(r: Result<T, AppError>) -> bool {
    r is Err && r->Err_0 is Internal
}

/// Turns "no row" into `NotFound`, as every fetch of a single record does.
pub fn found<T>(row: Option<T>) -> (res: Result<T, AppError>)
    ensures
        row matches Some(v) ==> res == Ok::<T, AppError>(v),
        row is None ==> res == Err::<T, AppError>(AppError::NotFound),
{
    match row {
        Some(v) => Ok(v),
        None => Err(AppError::NotFound),
    }
}

/// A delete that touched no row addressed a record that does not exist.
pub fn require_affected(rows_affected: u64) -> (res: Result<(), AppError>)
    ensures
        rows_affected == 0 ==> res == Err::<(), AppError>(AppError::NotFound),
        rows_affected != 0 ==> res is Ok,
{
    if rows_affected == 0 {
        Err(AppError::NotFound)
    } else {
        Ok(())
    }
}

} // verus!
