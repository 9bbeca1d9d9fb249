//! Retargeting the staged operation.
use crate::error::SemanticEditError;
use crate::selector::Selector;
use crate::state::StagedOperation;
use vstd::prelude::*;

verus! {

/// Request to change where the staged operation applies, keeping its content.
#[derive(Debug, Clone)]
pub struct RetargetStaged {
    pub selector: Selector,
}

impl RetargetStaged {
    /// The staged operation pointed at the new selector, to be previewed.
    pub fn retargeted(self, staged: Option<StagedOperation>) -> (r: Result<StagedOperation, SemanticEditError>)
        ensures
            staged is None ==> r == Err::<StagedOperation, SemanticEditError>(SemanticEditError::OperationNotStaged),
            staged matches Some(op) ==> r is Ok && r->Ok_0.selector == self.selector
                && r->Ok_0.content == op.content && r->Ok_0.file_path == op.file_path
                && r->Ok_0.language_name == op.language_name && r->Ok_0.edit_position is None,
    {
        match staged {
            None => Err(SemanticEditError::OperationNotStaged),
            Some(op) => {
                let mut op = op;
                op.retarget(self.selector);
                Ok(op)
            },
        }
    }

    /// What stays staged after the retargeted preview: its new snapshot when
    /// the preview succeeded, else the previous snapshot, untouched.
    pub fn next_staged(previous: Option<StagedOperation>, previewed: Option<StagedOperation>) -> (r: Option<StagedOperation>)
        ensures
            previewed is Some ==> r == previewed,
            previewed is None ==> r == previous,
    {
        match previewed {
            Some(op) => Some(op),
            None => previous,
        }
    }
}

} // verus!
