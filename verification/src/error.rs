use vstd::prelude::*;
use vstd::string::StringExecFns;

verus! {

/// The service's errors.
pub enum AppError {
    /// The requested resource does not exist.
    NotFound,
    /// A dependency (the Hacker News API) failed or answered garbage; the
    /// message says how.
    Internal(String),
}

impl AppError {
    /// The HTTP status with which the error is answered.
    pub fn status_code(&self) -> (r: u16)
        ensures
            r == match self {
                AppError::NotFound => 404u16,
                AppError::Internal(_) => 500u16,
            },
    {
        match self {
            AppError::NotFound => 404,
            AppError::Internal(_) => 500,
        }
    }

    /// The text with which the error is answered.
    pub fn message(&self) -> (r: String)
        ensures
            r@ == match self {
                AppError::NotFound => "Recurso no encontrado"@,
                AppError::Internal(m) => "Error interno: "@ + m@,
            },
    {
        match self {
            AppError::NotFound => String::from_str("Recurso no encontrado"),
            AppError::Internal(m) => String::from_str("Error interno: ").concat(m.as_str()),
        }
    }
}

} // verus!
