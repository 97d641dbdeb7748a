use vstd::prelude::*;

pub mod binding;
pub mod constant;
pub mod context;
pub mod convert;
pub mod error;
pub mod eval;
pub mod files;
pub mod map_entries;
pub mod pattern;
pub mod resolved_pattern;
pub mod source_type;
pub mod state;
pub mod strings;
