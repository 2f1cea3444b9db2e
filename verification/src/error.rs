//! What can go wrong in one run of the utility.

use vstd::prelude::*;
use crate::mac::{Invalid, InvalidView};

verus! {

/// A failure of one command. Each failure of a request on an interface
/// holds the interface's name.
#[derive(Debug)]
pub enum Error {
    /// The address text was refused.
    Mac(Invalid),
    /// The control socket could not be opened.
    CantGetSocket,
    /// The kernel refused to write the interface's flags.
    CantSetIfFlag(String),
    /// The kernel refused to read the interface's flags.
    CantGetIfFlag(String),
    /// The kernel refused to assign the address.
    CantSetMacAddr(String),
    /// The kernel refused to read the assigned address.
    CantGetMacAddr(String),
    /// The driver refused to give its permanent address.
    CantGetPermMacAddr(String),
    /// A flag mask does not fit the kernel's sixteen-bit flag word. Holds the mask.
    CantGetFlagFromValue(i32),
    /// The kernel refused to list the interfaces.
    CantGetInterfaces,
}

/// An `Error` with its texts as sequences of characters.
pub enum ErrorView {
    Mac(InvalidView),
    CantGetSocket,
    CantSetIfFlag(Seq<char>),
    CantGetIfFlag(Seq<char>),
    CantSetMacAddr(Seq<char>),
    CantGetMacAddr(Seq<char>),
    CantGetPermMacAddr(Seq<char>),
    CantGetFlagFromValue(i32),
    CantGetInterfaces,
}

impl View for Error {
    type V = ErrorView;

    open spec fn view(&self) -> ErrorView {
        match self {
            Error::Mac(invalid) => ErrorView::Mac(invalid@),
            Error::CantGetSocket => ErrorView::CantGetSocket,
            Error::CantSetIfFlag(name) => ErrorView::CantSetIfFlag(name@),
            Error::CantGetIfFlag(name) => ErrorView::CantGetIfFlag(name@),
            Error::CantSetMacAddr(name) => ErrorView::CantSetMacAddr(name@),
            Error::CantGetMacAddr(name) => ErrorView::CantGetMacAddr(name@),
            Error::CantGetPermMacAddr(name) => ErrorView::CantGetPermMacAddr(name@),
            Error::CantGetFlagFromValue(mask) => ErrorView::CantGetFlagFromValue(*mask),
            Error::CantGetInterfaces => ErrorView::CantGetInterfaces,
        }
    }
}

impl From<Invalid> for Error {
    /// The failure of a command whose address text was refused.
    fn from(invalid: Invalid) -> (error: Error)
        ensures
            error == Error::Mac(invalid),
    {
        Error::Mac(invalid)
    }
}

impl vstd::std_specs::convert::FromSpecImpl<Invalid> for Error {
    open spec fn obeys_from_spec() -> bool {
        true
    }

    open spec fn from_spec(invalid: Invalid) -> Error {
        Error::Mac(invalid)
    }
}

} // verus!
