//! What an operation of the store can fail with.

use vstd::prelude::*;

verus! {

/// The reason why an operation left the store unchanged.
#[derive(Clone, Copy, Debug, PartialEq, Eq, Structural)]
pub enum GraphError {
    /// An edge was to join two nodes of which at least one does not exist.
    EndpointNotFound,
    /// No node has the identifier that was given.
    NodeNotFound,
    /// No edge has the identifier that was given.
    EdgeNotFound,
}

impl GraphError {
    /// The text of the error.
    pub open spec fn text(self) -> Seq<char> {
        match self {
            GraphError::EndpointNotFound => "Source or target node not found"@,
            GraphError::NodeNotFound => "Node not found"@,
            GraphError::EdgeNotFound => "Edge not found"@,
        }
    }

    /// The text of the error, as the editor shows it.
    pub fn message(&self) -> (text: String)
        ensures
            text@ == self.text(),
    {
        match self {
            GraphError::EndpointNotFound => "Source or target node not found".to_owned(),
            GraphError::NodeNotFound => "Node not found".to_owned(),
            GraphError::EdgeNotFound => "Edge not found".to_owned(),
        }
    }
}

} // verus!
