//! An owned, verified model of an IR builder and pass-pipeline core.
//!
//! Operations own their regions, regions own their blocks and blocks own their
//! operations. Operations are put together by an [`OperationBuilder`], which
//! accumulates fragments and turns them into one operation in a single step.
//! Pass pipelines are parsed from text against a registry of passes, and
//! transform sequences are applied with a small set of options.

use vstd::prelude::*;

pub mod builder;
pub mod context;
pub mod error;
pub mod ir;
pub mod pass;
pub mod transform;

pub use builder::OperationBuilder;
pub use context::{register_all_dialects, register_all_llvm_translations, Context, DialectRegistry};
pub use error::Error;
pub use ir::{Attribute, Block, Identifier, Location, Module, Operation, Region, Type, Value};
pub use pass::{handle_parse_error, parse_pass_pipeline, register_all_passes, OperationPassManager, PassRegistry};
pub use transform::{apply_named_sequence, load_irdl_dialects, merge_symbols_into_from_clone, TransformOptions};
