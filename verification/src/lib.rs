//! Stacked branches: the tree that they form, the plans that bring them up to
//! date, and the carrying out of those plans. What only the engine or the
//! repository can tell comes in as values and functions; all that is decided
//! from it is decided here.

pub mod apply;
pub mod cascade;
pub mod cli;
pub mod engine;
pub mod laws;
pub mod plan;
pub mod plan_text;
pub mod status;
pub mod style;
pub mod text;
pub mod tree;
pub mod worker;

pub use crate::apply::{apply_plan, execute_op, execute_plan, execute_rebases, OpResult};
pub use crate::cascade::build_cascade_plan;
pub use crate::cli::git_bin;
pub use crate::plan::{build_converge_plan, build_submit_plan, build_sync_plan, Plan, PlanIntent};
pub use crate::plan_text::{
    print_converge_plan_to, print_plan_to, print_submit_plan_to, print_sync_plan_to,
};
pub use crate::status::{repo_status, RepoState, RepoStatus};
pub use crate::tree::print_tree_to;
pub use crate::worker::{GitCommand, GitResponse};
