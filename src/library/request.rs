//! Requests that a consumer sends to the catalog service.
use crate::library::{LibraryItemKey, NodeView};
use vstd::prelude::*;

verus! {

/// Which kinds of node a search looks at.
#[derive(Debug, Clone, Copy, PartialEq, Eq, Structural)]
pub enum FindType {
    Any,
    Artist,
    Album,
    Song,
}

impl FindType {
    /// Whether node `k` is of a kind that this filter admits; the root never is.
    pub open spec fn admits(self, k: NodeView) -> bool {
        match self {
            FindType::Any => !(k is Root),
            FindType::Artist => k is Artist,
            FindType::Album => k is Album,
            FindType::Song => k is Song,
        }
    }
}

#[derive(Debug)]
pub enum LibraryRequest {
    /// The children of a node.
    GetChildren(LibraryItemKey),
    /// The cached nodes of a kind whose text holds a query, under a request id.
    FindEntries(usize, FindType, String),
    /// Stop the service once the requests before it are done.
    Shutdown,
}

} // verus!
