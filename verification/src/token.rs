//! The credential: an API token value plus optional workspace and scope
//! metadata.  Immutable after construction; cloning copies the fields.
use vstd::prelude::*;
use vstd::slice::slice_to_vec;

verus! {

/// The mathematical value of a token: its byte strings.
pub ghost struct TokenView {
    pub value: Seq<u8>,
    pub workspace_id: Option<Seq<u8>>,
    pub scope: Option<Seq<u8>>,
}

/// A bearer token with optional workspace and scope metadata.
#[derive(Debug, PartialEq)]
pub struct SlackApiToken {
    pub value: Vec<u8>,
    pub workspace_id: Option<Vec<u8>>,
    pub scope: Option<Vec<u8>>,
}

impl View for SlackApiToken {
    type V = TokenView;

    open spec fn view(&self) -> TokenView {
        TokenView {
            value: self.value@,
            workspace_id: match self.workspace_id {
                Some(w) => Some(w@),
                None => None,
            },
            scope: match self.scope {
                Some(s) => Some(s@),
                None => None,
            },
        }
    }
}

impl SlackApiToken {
    /// A token holding only the required value.
    pub fn new(value: Vec<u8>) -> (t: Self)
        ensures
            t@.value == value@,
            t@.workspace_id is None,
            t@.scope is None,
    {
        SlackApiToken { value, workspace_id: None, scope: None }
    }

    /// The same token with the workspace id set.
    pub fn with_workspace_id(self, workspace_id: Vec<u8>) -> (t: Self)
        ensures
            t@.value == self@.value,
            t@.workspace_id == Some(workspace_id@),
            t@.scope == self@.scope,
    {
        SlackApiToken { workspace_id: Some(workspace_id), ..self }
    }

    /// The same token with the scope set.
    pub fn with_scope(self, scope: Vec<u8>) -> (t: Self)
        ensures
            t@.value == self@.value,
            t@.workspace_id == self@.workspace_id,
            t@.scope == Some(scope@),
    {
        SlackApiToken { scope: Some(scope), ..self }
    }
}

impl Clone for SlackApiToken {
    /// A copy with the same mathematical value.
    fn clone(&self) -> (t: Self)
        ensures
            t@ == self@,
    {
        SlackApiToken {
            value: slice_to_vec(self.value.as_slice()),
            workspace_id: match &self.workspace_id {
                Some(w) => Some(slice_to_vec(w.as_slice())),
                None => None,
            },
            scope: match &self.scope {
                Some(s) => Some(slice_to_vec(s.as_slice())),
                None => None,
            },
        }
    }
}

} // verus!
