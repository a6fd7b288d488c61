//! Types of the harness protocol that several extensions share.

use vstd::prelude::*;

verus! {

/// Who asked for a prompt.
#[derive(Debug, PartialEq, Eq)]
pub enum PromptOriginator {
    User,
    Extension { name: String, query_id: String },
}

/// Who asked for a prompt, as mathematics.
pub enum OriginatorView {
    User,
    Extension { name: Seq<char>, query_id: Seq<char> },
}

impl View for PromptOriginator {
    type V = OriginatorView;

    open spec fn view(&self) -> OriginatorView {
        match self {
            PromptOriginator::User => OriginatorView::User,
            PromptOriginator::Extension { name, query_id } => OriginatorView::Extension {
                name: name@,
                query_id: query_id@,
            },
        }
    }
}

impl PromptOriginator {
    /// A copy of the originator.
    pub fn copy(&self) -> (originator: PromptOriginator)
        ensures
            originator@ == self@,
    {
        match self {
            PromptOriginator::User => PromptOriginator::User,
            PromptOriginator::Extension { name, query_id } => PromptOriginator::Extension {
                name: name.clone(),
                query_id: query_id.clone(),
            },
        }
    }
}

} // verus!
