//! Errors reported by the hint tool.

use vstd::prelude::*;
use crate::text::concat;

verus! {

/// No on-screen element could be found to hint.
#[derive(Debug)]
pub struct AccessibleChildrenNotFound {
    pub message: String,
}

impl AccessibleChildrenNotFound {
    /// The text `Display` shows for this error.
    pub fn to_string(&self) -> (r: String)
        ensures
            r@ == "AccessibleChildrenNotFound: "@ + self.message@,
    {
        concat("AccessibleChildrenNotFound: ", self.message.as_str())
    }
}

/// The focused window has no accessible counterpart.
#[derive(Debug)]
pub struct CouldNotFindAccessibleWindow {
    pub message: String,
}

impl CouldNotFindAccessibleWindow {
    /// The text `Display` shows for this error.
    pub fn to_string(&self) -> (r: String)
        ensures
            r@ == "CouldNotFindAccessibleWindow: "@ + self.message@,
    {
        concat("CouldNotFindAccessibleWindow: ", self.message.as_str())
    }
}

/// The session's window system is not supported.
#[derive(Debug)]
pub struct WindowSystemNotSupported {
    pub message: String,
}

impl WindowSystemNotSupported {
    /// The text `Display` shows for this error.
    pub fn to_string(&self) -> (r: String)
        ensures
            r@ == "WindowSystemNotSupported: "@ + self.message@,
    {
        concat("WindowSystemNotSupported: ", self.message.as_str())
    }
}

/// The mouse service could not be reached.
#[derive(Debug)]
pub struct CouldNotCommunicateWithMouseService {
    pub message: String,
}

impl CouldNotCommunicateWithMouseService {
    /// The text `Display` shows for this error.
    pub fn to_string(&self) -> (r: String)
        ensures
            r@ == "CouldNotCommunicateWithMouseService: "@ + self.message@,
    {
        concat("CouldNotCommunicateWithMouseService: ", self.message.as_str())
    }
}

} // verus!
