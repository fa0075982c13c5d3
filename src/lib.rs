use vstd::prelude::*;

pub mod controllers;
pub mod crawler;
pub mod decimal;
pub mod errors;
pub mod matcher;
pub mod models;
pub mod page;
pub mod text;
pub mod types;
pub mod utils;

verus! {

} // verus!
