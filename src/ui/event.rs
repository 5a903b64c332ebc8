//! Events that the catalog service sends to its consumer.
use crate::library::{LibraryError, LibraryItem, LibraryItemKey};
use vstd::prelude::*;

verus! {

/// Nodes, each with its item.
pub type LibraryRequestResult = Vec<(LibraryItemKey, LibraryItem)>;

#[derive(Debug)]
pub enum UiEvent {
    /// A line for the log.
    AddLog(String),
    /// A new status line.
    SetStatus(String),
    /// The answer to a request for the children of a node.
    LibraryGetChildrenComplete(LibraryItemKey, Result<LibraryRequestResult, LibraryError>),
    /// The answer to a search, under its request id.
    LibraryFindEntriesComplete(usize, LibraryRequestResult),
}

} // verus!
