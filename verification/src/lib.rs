use vstd::prelude::*;

pub mod text;
pub mod json;
pub mod resolver;
pub mod catalog;
pub mod settings;
pub mod downloads;
pub mod devices;
pub mod oplog;
pub mod install;
pub mod schedule;
pub mod paths;

verus! {
} // verus!
