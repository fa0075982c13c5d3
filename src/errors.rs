use vstd::prelude::*;

verus! {

/// Why a login is refused.
#[derive(Debug, Clone, Copy, PartialEq, Eq, Structural)]
pub enum LoginError {
    /// The e-mail or the password is incorrect.
    ValidationError,
}

impl LoginError {
    /// The HTTP status that answers the error: a bad request.
    pub fn status_code(&self) -> (r: u16)
        ensures
            r == 400,
    {
        match self {
            LoginError::ValidationError => 400,
        }
    }
}

} // verus!
