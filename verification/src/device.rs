use crate::error::Error;
use vstd::prelude::*;

verus! {

/// Whether a status returned by the vendor's open call means success.
///
/// Open and close report failure with a negative status.
pub open spec fn open_succeeded(status: i32) -> bool {
    status >= 0
}

/// Whether a status returned by a mode, configuration or stream call means
/// success.
///
/// These calls report failure with a zero status, unlike open and close.
pub open spec fn call_succeeded(status: i32) -> bool {
    status != 0
}

/// An open session with one bridge chip.
///
/// The handle stands for the session between a successful open and the
/// matching close. It is neither `Clone` nor `Copy`: at most one handle exists
/// per opened session, and the bus adapters borrow it.
#[derive(Debug)]
pub struct CH347 {
    index: u32,
}

impl CH347 {
    /// The session index that the handle owns.
    pub closed spec fn session(&self) -> u32 {
        self.index
    }

    /// Builds the handle for session `index` from the `status` that the
    /// vendor's open call returned for it.
    ///
    /// A negative status is a failed open and is handed back inside
    /// `Error::OpenFailed`.
    pub fn new(index: u32, status: i32) -> (result: Result<CH347, Error>)
        ensures
            open_succeeded(status) ==> result is Ok && result->Ok_0.session() == index,
            !open_succeeded(status) ==> result is Err && result->Err_0 == Error::OpenFailed(status),
    {
        if status >= 0 {
            Ok(CH347 { index })
        } else {
            Err(Error::OpenFailed(status))
        }
    }

    /// The session index, as the vendor calls take it.
    pub fn index(&self) -> (index: u32)
        ensures
            index == self.session(),
    {
        self.index
    }
}

} // verus!
