//! The user interface as a service: a server that runs beside the workers
//! and is looked after by a plain loop.

use crate::error::Error;
use vstd::prelude::*;
use vstd::string::StringExecFns;

verus! {

/// What a look at the server found.
#[derive(Debug, PartialEq, Eq)]
pub enum ServerStatus {
    /// The server is running: it has not reported anything.
    Running,
    /// The server has ended and reported how.
    Finished(Result<(), String>),
    /// The server is gone and has not reported anything.
    Gone,
}

/// What is reported of a server that went away without a word.
pub const SERVER_GONE: &'static str = "ui server died with leaving a response?!";

/// What an iteration of the loop that looks after the server comes to: a
/// running server is as it should be, a server that has ended passes on
/// how it ended, and a server that is gone is a failure.
pub fn check_server(status: ServerStatus) -> (checked: Result<(), Error>)
    ensures
        match status {
            ServerStatus::Running => checked is Ok,
            ServerStatus::Finished(Ok(())) => checked is Ok,
            ServerStatus::Finished(Err(message)) => checked == Err::<(), Error>(
                Error::HandlerFailed(message),
            ),
            ServerStatus::Gone => checked matches Err(Error::HandlerFailed(message))
                && message@ == SERVER_GONE@,
        },
{
    match status {
        ServerStatus::Running => Ok(()),
        ServerStatus::Finished(Ok(())) => Ok(()),
        ServerStatus::Finished(Err(message)) => Err(Error::HandlerFailed(message)),
        ServerStatus::Gone => Err(Error::HandlerFailed(String::from_str(SERVER_GONE))),
    }
}

} // verus!
