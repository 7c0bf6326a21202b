//! Log lines over USB. A line that the port does not take is dropped.
use crate::mcu::logger;
use crate::mcu::logger::{cut, Sending};
use crate::text;
use vstd::prelude::*;
use vstd::string::*;

verus! {

pub struct Logger;

impl Logger {
    /// Every level is logged.
    pub fn enabled(&self) -> (r: bool)
        ensures
            r,
    {
        true
    }

    /// Composes the line of a record from its level and the pieces of its text.
    pub fn compose(&self, level: &str, args: &Vec<String>) -> (r: String)
        ensures
            r@ == logger::filled(Seq::empty(), logger::pieces(level@, args@)),
    {
        logger::Logger.compose(level, args)
    }
}

pub enum Error {
    /// The task could not be spawned; with the executor's own words.
    SpawnError(String),
    SetLoggerError,
}

impl Error {
    pub open spec fn text(self) -> Seq<char> {
        match self {
            Error::SpawnError(detail) => "failed to spawn logger task: "@ + detail@,
            Error::SetLoggerError => "failed to set logger"@,
        }
    }

    pub fn message(&self) -> (r: String)
        ensures
            r@ == self.text(),
    {
        match self {
            Error::SpawnError(detail) => String::from_str("failed to spawn logger task: ").concat(
                detail.as_str(),
            ),
            Error::SetLoggerError => String::from_str("failed to set logger"),
        }
    }
}

/// The outcome of starting the logger: the task is spawned first, and the logger installed then.
pub fn init(spawned: Result<(), String>, installed: bool) -> (r: Result<(), Error>)
    ensures
        match spawned {
            Err(detail) => r == Err::<(), Error>(Error::SpawnError(detail)),
            Ok(_) => r == (if installed {
                Ok(())
            } else {
                Err(Error::SetLoggerError)
            }),
        },
        r is Ok <==> spawned is Ok && installed,
{
    match spawned {
        Err(detail) => Err(Error::SpawnError(detail)),
        Ok(_) => if installed {
            Ok(())
        } else {
            Err(Error::SetLoggerError)
        },
    }
}

/// The packets of a line, to be sent one by one.
pub fn send(msg: &[u8]) -> (r: Sending)
    ensures
        r.wf(),
        r.left() == logger::chunks(msg@),
{
    Sending::new(cut(msg))
}

/// A message says what failed and, behind it, all of the other side's own words.
pub proof fn law_messages_carry_the_detail(detail: String)
    ensures
        text::says(Error::SpawnError(detail).text(), "failed to spawn logger task: "@, detail@),
        Error::SetLoggerError.text() == "failed to set logger"@,
{
    text::lemma_says("failed to spawn logger task: "@, detail@);
}

} // verus!
