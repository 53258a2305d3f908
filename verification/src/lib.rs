use vstd::prelude::*;

pub mod text;
pub mod order;
pub mod money;
pub mod models;
pub mod sheet;
pub mod audit;
pub mod update;
pub mod comparison;
pub mod search;
pub mod security;
pub mod session;
pub mod tags;
pub mod generator;
pub mod import;
pub mod files;
pub mod records;
pub mod history;
pub mod revert;
pub mod export;
pub mod backups;
pub mod trash;

verus! {
} // verus!
