//! Logic of a desktop dashboard for package managers (npm, pip, cargo, brew and others):
//! which commands it runs, how it reads their output and what it reports back.

pub mod text;
pub mod json;
pub mod command;
pub mod listing;
pub mod latest;
pub mod details;
pub mod system;
pub mod scan;
