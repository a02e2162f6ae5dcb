//! The command line: what its options mean, and what it shows.

pub mod args;
pub mod escape;
pub mod explain;
pub mod gui;
pub mod lima;
pub mod publish;
pub mod quote;
pub mod report;
pub mod sections;
pub mod shell;
pub mod unix;
pub mod verdict;
