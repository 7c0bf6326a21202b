//! Starting the USB device.
use crate::text;
use vstd::prelude::*;
use vstd::string::*;

verus! {

pub enum Error {
    /// The task could not be spawned; with the executor's own words.
    SpawnError(String),
}

impl Error {
    pub open spec fn text(self) -> Seq<char> {
        match self {
            Error::SpawnError(detail) => "failed to spawn USB task: "@ + detail@,
        }
    }

    pub fn message(&self) -> (r: String)
        ensures
            r@ == self.text(),
    {
        match self {
            Error::SpawnError(detail) => String::from_str("failed to spawn USB task: ").concat(
                detail.as_str(),
            ),
        }
    }
}

/// A message says what failed and, behind it, all of the other side's own words.
pub proof fn law_messages_carry_the_detail(detail: String)
    ensures
        text::says(Error::SpawnError(detail).text(), "failed to spawn USB task: "@, detail@),
{
    text::lemma_says("failed to spawn USB task: "@, detail@);
}

} // verus!
