//! The error taxonomy of the library: every operation that can fail reports
//! one of these variants, and the contracts state exactly when each one comes.

use vstd::prelude::*;

verus! {

/// The ways an operation on the config model can fail.
#[derive(Debug, Clone, Copy, PartialEq, Eq, Structural)]
pub enum KmanError {
    /// The document holds no contexts, so a listing has nothing to show.
    EmptyConfig,
    /// A supplied or implied context name matches no entry in `contexts`.
    ContextNotFound,
    /// A context's `user` reference matches no entry in `users`.
    UserNotFound,
    /// A candidate token does not have the required lexical shape.
    InvalidTokenFormat,
    /// A document does not decode into the expected config shape.
    Decode,
}

impl KmanError {
    /// A human-readable description of the error.
    pub fn message(&self) -> (m: &'static str)
        ensures
            m@ == match *self {
                KmanError::EmptyConfig => "Kubeconfig does not contain any contexts"@,
                KmanError::ContextNotFound => "Given context does not exist"@,
                KmanError::UserNotFound => "Context references a user that does not exist"@,
                KmanError::InvalidTokenFormat => "Incorrect token given. A token looks like this: `sha256~AAAAAAAAAAAAAAAAAAAAAAAAAAAAAAAAAAAAAAAAAAA`"@,
                KmanError::Decode => "Given file is not a valid Kubeconfig"@,
            },
    {
        match *self {
            KmanError::EmptyConfig => "Kubeconfig does not contain any contexts",
            KmanError::ContextNotFound => "Given context does not exist",
            KmanError::UserNotFound => "Context references a user that does not exist",
            KmanError::InvalidTokenFormat => "Incorrect token given. A token looks like this: `sha256~AAAAAAAAAAAAAAAAAAAAAAAAAAAAAAAAAAAAAAAAAAA`",
            KmanError::Decode => "Given file is not a valid Kubeconfig",
        }
    }
}

} // verus!
