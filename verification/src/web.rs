//! The failure classes the surrounding service reports to its clients, and
//! the helpers that turn an absent value or a failed operation into the
//! right class.
use vstd::prelude::*;

verus! {

/// A failed request, by class, each with its detail message where one
/// exists.
#[derive(Debug, Clone)]
pub enum AppError {
    DatabaseError(String),
    StorageError(String),
    Forbidden(Option<String>),
    NotFound(Option<String>),
    BadRequest(Option<String>),
}

/// What a request handler returns: a value or a classified failure.
pub type AppResult<T> = Result<T, AppError>;

/// Turning an optional value into a handler result: the value when present,
/// else the failure class the method names, with no detail.
pub trait ErrorForOption: Sized {
    type T;

    /// The optional value this carrier stands for.
    spec fn to_opt(self) -> Option<Self::T>;

    /// The value, or NotFound.
    fn found(self) -> (r: Result<Self::T, AppError>)
        ensures
            match self.to_opt() {
                Some(x) => r == Ok::<Self::T, AppError>(x),
                None => r matches Err(e) && e matches AppError::NotFound(m) && m is None,
            },
    ;

    /// The value, or Forbidden.
    fn allow(self) -> (r: Result<Self::T, AppError>)
        ensures
            match self.to_opt() {
                Some(x) => r == Ok::<Self::T, AppError>(x),
                None => r matches Err(e) && e matches AppError::Forbidden(m) && m is None,
            },
    ;

    /// The value, or BadRequest.
    fn good(self) -> (r: Result<Self::T, AppError>)
        ensures
            match self.to_opt() {
                Some(x) => r == Ok::<Self::T, AppError>(x),
                None => r matches Err(e) && e matches AppError::BadRequest(m) && m is None,
            },
    ;
}

impl<T> ErrorForOption for Option<T> {
    type T = T;

    open spec fn to_opt(self) -> Option<T> {
        self
    }

    fn found(self) -> (r: Result<T, AppError>) {
        match self {
            Some(x) => Ok(x),
            None => Err(AppError::NotFound(None)),
        }
    }

    fn allow(self) -> (r: Result<T, AppError>) {
        match self {
            Some(x) => Ok(x),
            None => Err(AppError::Forbidden(None)),
        }
    }

    fn good(self) -> (r: Result<T, AppError>) {
        match self {
            Some(x) => Ok(x),
            None => Err(AppError::BadRequest(None)),
        }
    }
}

/// Turning a fallible operation into a handler result: the value on
/// success, else the failure class the method names, carrying the
/// operation's error message as detail.
pub trait ErrorForResult: Sized {
    type T;

    /// The operation outcome this carrier stands for.
    spec fn to_res(self) -> Result<Self::T, Seq<char>>;

    /// The value, or NotFound with the message.
    fn found(self) -> (r: Result<Self::T, AppError>)
        ensures
            match self.to_res() {
                Ok(x) => r == Ok::<Self::T, AppError>(x),
                Err(msg) => r matches Err(e) && e matches AppError::NotFound(m) && m matches Some(
                    d,
                ) && d@ == msg,
            },
    ;

    /// The value, or Forbidden with the message.
    fn allow(self) -> (r: Result<Self::T, AppError>)
        ensures
            match self.to_res() {
                Ok(x) => r == Ok::<Self::T, AppError>(x),
                Err(msg) => r matches Err(e) && e matches AppError::Forbidden(m) && m matches Some(
                    d,
                ) && d@ == msg,
            },
    ;

    /// The value, or BadRequest with the message.
    fn good(self) -> (r: Result<Self::T, AppError>)
        ensures
            match self.to_res() {
                Ok(x) => r == Ok::<Self::T, AppError>(x),
                Err(msg) => r matches Err(e) && e matches AppError::BadRequest(m) && m matches Some(
                    d,
                ) && d@ == msg,
            },
    ;
}

impl<T> ErrorForResult for Result<T, String> {
    type T = T;

    open spec fn to_res(self) -> Result<T, Seq<char>> {
        match self {
            Ok(x) => Ok(x),
            Err(e) => Err(e@),
        }
    }

    fn found(self) -> (r: Result<T, AppError>) {
        match self {
            Ok(x) => Ok(x),
            Err(e) => Err(AppError::NotFound(Some(e))),
        }
    }

    fn allow(self) -> (r: Result<T, AppError>) {
        match self {
            Ok(x) => Ok(x),
            Err(e) => Err(AppError::Forbidden(Some(e))),
        }
    }

    fn good(self) -> (r: Result<T, AppError>) {
        match self {
            Ok(x) => Ok(x),
            Err(e) => Err(AppError::BadRequest(Some(e))),
        }
    }
}

} // verus!
