//! The decisions of the staging tools: what a commit or a retarget does with
//! the staged operation, independent of how a session stores it.
pub mod commit_staged;
pub mod retarget_staged;
pub use commit_staged::CommitStaged;
pub use retarget_staged::RetargetStaged;
