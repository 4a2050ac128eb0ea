//! The record of the bridge that the application is paired with.
use vstd::prelude::*;

verus! {

/// The bridge that the application is paired with.
#[derive(Debug)]
pub struct Current {
    pub bridge: String,
    pub ticket: String,
    /// Whether the user supplied the ticket. A ticket that was not supplied by the
    /// user can be had again at any time.
    pub manual: bool,
}

/// Model of [`Current`].
pub struct CurrentView {
    pub bridge: Seq<char>,
    pub ticket: Seq<char>,
    pub manual: bool,
}

impl View for Current {
    type V = CurrentView;

    open spec fn view(&self) -> CurrentView {
        CurrentView { bridge: self.bridge@, ticket: self.ticket@, manual: self.manual }
    }
}

} // verus!
