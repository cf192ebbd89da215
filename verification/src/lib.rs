use vstd::prelude::*;

pub mod cli;
pub mod config;
pub mod text;
pub mod regex_ops;
pub mod parser;
pub mod scanner;
pub mod paths;
pub mod planner;
pub mod order;
pub mod report;
pub mod preflight;
pub mod tmdb;
pub mod resolve;
pub mod preview;
pub mod executor;
pub mod doctor;
pub mod laws;
pub mod prompt;

verus! {

} // verus!
