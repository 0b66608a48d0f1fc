//! The envelopes in which the client's commands answer.

use vstd::prelude::*;
use vstd::std_specs::convert::FromSpecImpl;
use vstd::string::StringExecFns;

verus! {

/// A command that failed, with the reason.
#[derive(Debug)]
pub struct CommandError(String);

impl View for CommandError {
    type V = Seq<char>;

    /// The reason.
    closed spec fn view(&self) -> Seq<char> {
        self.0@
    }
}

impl CommandError {
    /// The reason of the failure.
    pub fn message(&self) -> (text: String)
        ensures
            text@ == self@,
    {
        self.0.clone()
    }
}

impl From<String> for CommandError {
    /// The error whose reason is `reason`.
    fn from(reason: String) -> (error: Self)
        ensures
            error@ == reason@,
    {
        CommandError(reason)
    }
}

impl FromSpecImpl<String> for CommandError {
    open spec fn obeys_from_spec() -> bool {
        true
    }

    closed spec fn from_spec(reason: String) -> Self {
        CommandError(reason)
    }
}

impl From<&str> for CommandError {
    /// The error whose reason is `reason`.
    fn from(reason: &str) -> (error: Self)
        ensures
            error@ == reason@,
    {
        CommandError(String::from_str(reason))
    }
}

impl FromSpecImpl<&str> for CommandError {
    /// Which string holds the reason is left open: the result of `from` is
    /// stated by its view.
    open spec fn obeys_from_spec() -> bool {
        false
    }

    closed spec fn from_spec(reason: &str) -> Self {
        choose|error: CommandError| error@ == reason@
    }
}

/// The answer of a command: either the data or the reason of the failure.
#[derive(Debug)]
pub struct ApiResponse<T> {
    pub success: bool,
    pub data: Option<T>,
    pub error: Option<String>,
    pub message: Option<String>,
}

impl<T> ApiResponse<T> {
    /// The answer of a command that succeeded with `data`.
    pub fn success(data: T) -> (response: Self)
        ensures
            response.success,
            response.data == Some(data),
            response.error is None,
            response.message is None,
    {
        ApiResponse { success: true, data: Some(data), error: None, message: None }
    }

    /// The answer of a command that failed for the reason `error`.
    pub fn error(error: &str) -> (response: Self)
        ensures
            !response.success,
            response.data is None,
            response.error is Some,
            response.error->0@ == error@,
            response.message is None,
    {
        ApiResponse {
            success: false,
            data: None,
            error: Some(String::from_str(error)),
            message: None,
        }
    }
}

} // verus!
