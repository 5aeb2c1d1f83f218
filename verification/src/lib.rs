//! Reading, checking and completing arguments in Goal Structuring Notation.
//!
//! Documents are taken in one by one: each belongs to a module and defines elements. What has been
//! taken in is then checked, completed with stand-ins for elements that are not defined, and
//! rendered.
//!
//! Parsing, the individual checks and rendering are the work of an [`engine::Engine`]. This crate
//! decides what is handed to it, in which order, and what follows from what it returns.

pub mod check_laws;
pub mod checks;
pub mod completion;
pub mod diagnostics;
pub mod documents;
pub mod element_laws;
pub mod engine;
pub mod gsn;
pub mod inputs;
pub mod laws;
pub mod module_laws;
pub mod modules;
pub mod order;
pub mod output_laws;
pub mod outputs;
pub mod process;
pub mod reading;
pub mod render;
pub mod repetition;
pub mod report;
pub mod text;
pub mod text_map;
pub mod uses;
pub mod word_laws;
pub mod yaml;

pub use crate::checks::{validate_and_check, ValidationOrCheckError};
pub use crate::documents::check_and_add_nodes;
pub use crate::gsn::{make_unknown_node_for, MODULE_INFORMATION_NODE};
pub use crate::process::{parse_yaml_str, process_gsn};
pub use crate::report::output_messages;
