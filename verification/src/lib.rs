//! The engine of a file utility: it decides which entries of a directory
//! walk take part, splits files into lines, matches patterns, and works out
//! what search, count and replace do with each file. It reads and writes no
//! file itself; callers hand it what they read and carry out what it
//! decides.
//!
//! - [`pattern`], [`wildcard`], [`span`]: compiled patterns and ordered
//!   match spans.
//! - [`filter`], [`corpus`]: the entry filter and the files of a walk.
//! - [`lines`]: the line scanner.
//! - [`search`], [`count`], [`replace`], [`tree`]: the operations.
//! - [`fileops`], [`listing`], [`convert`], [`reading`]: the decisions of
//!   the plain file commands.
//! - [`command`]: the commands and their arguments.

pub mod command;
pub mod convert;
pub mod corpus;
pub mod count;
pub mod fileops;
pub mod filter;
pub mod lines;
pub mod listing;
pub mod pattern;
pub mod reading;
pub mod replace;
pub mod search;
pub mod span;
pub mod text;
pub mod tree;
pub mod wildcard;
