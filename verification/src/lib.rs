//! Forge: naming, configuration and generation planning for NestJS artifacts.
use vstd::prelude::*;

pub mod text;
pub mod casing;
pub mod error;
pub mod artifact;
pub mod suggest;
pub mod paths;
pub mod config;
pub mod discovery;
pub mod template;
pub mod generator;
pub mod cli;
pub mod output;

verus! {

} // verus!
