//! Layered profiles: a declarative tree of layers is expanded into named
//! variants, and each variant is carried through construction, preparation
//! and launch.

pub mod command;
pub mod config;
pub mod construct;
pub mod launch;
pub mod layer;
pub mod report;
pub mod resolver;
pub mod text;
