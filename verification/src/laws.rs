//! What the operations are for. Each law speaks of the values that go into an
//! operation and of those that come out of it.

pub mod apply;
pub mod cascade;
pub mod cli;
pub mod github;
pub mod plan_text;
pub mod plans;
pub mod status;
pub mod text;
pub mod tree;
pub mod worker;
