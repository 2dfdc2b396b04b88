//! Gathers the contents of files and directory trees into one annotated
//! text, or into a summary of their counts.

pub mod aggregate;
pub mod blocks;
pub mod cli;
pub mod clipboard;
pub mod counting;
pub mod decimal;
pub mod directory_operations;
pub mod error;
pub mod file_operations;
pub mod paths;
pub mod run;
pub mod separators;
pub mod text;
