//! Committing the staged operation.
use crate::error::SemanticEditError;
use crate::state::StagedOperation;
use vstd::prelude::*;

verus! {

/// Request to execute the staged operation.
#[derive(Debug, Clone, Copy)]
pub struct CommitStaged {
    pub acknowledge: bool,
}

/// A commit request that does not say otherwise is acknowledged.
pub fn default_acknowledge() -> (r: bool)
    ensures
        r,
{
    true
}

impl CommitStaged {
    /// The operation to commit: refused unless acknowledged, and only when
    /// one is staged.
    pub fn take_operation(&self, staged: Option<StagedOperation>) -> (r: Result<StagedOperation, SemanticEditError>)
        ensures
            !self.acknowledge ==> r == Err::<StagedOperation, SemanticEditError>(SemanticEditError::OperationNotAcknowledged),
            self.acknowledge && staged is None ==> r == Err::<StagedOperation, SemanticEditError>(SemanticEditError::OperationNotStaged),
            self.acknowledge && staged is Some ==> r == Ok::<StagedOperation, SemanticEditError>(staged->0),
    {
        if !self.acknowledge {
            return Err(SemanticEditError::OperationNotAcknowledged);
        }
        match staged {
            Some(op) => Ok(op),
            None => Err(SemanticEditError::OperationNotStaged),
        }
    }
}

} // verus!
