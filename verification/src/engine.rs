//! The work that is done elsewhere: parsing, the individual checks, and rendering.

use vstd::prelude::*;
use crate::diagnostics::Diagnostics;
use crate::gsn::{Documents, Module, Modules, Nodes};
use crate::render::RenderOptions;

verus! {

/// What a check works on: the elements, and the messages collected so far.
#[derive(Debug)]
pub struct CheckState {
    pub nodes: Nodes,
    pub diags: Diagnostics,
}

/// The work that is done elsewhere.
///
/// Nothing is promised of what an implementation returns. Each check gets the elements and the
/// messages, and gives them back as it leaves them, together with whether it passed.
pub trait Engine {
    /// Parses a document.
    fn parse_documents(&self, yaml: &str) -> Result<Documents, serde_yaml_ng::Error>;

    /// Escapes a text, so that it can stand in a rendered document.
    fn escape_text(&self, text: &str) -> String;

    /// Validates the elements of one module.
    fn validate_module(
        &self,
        state: CheckState,
        module: &Module,
        extended_check: bool,
        warn_dialectic: bool,
    ) -> (CheckState, bool);

    /// Carries out what modules say about extending others.
    fn extend_modules(&self, state: CheckState, modules: &Modules) -> (CheckState, bool);

    /// Checks the elements of all modules together.
    fn check_nodes(&self, state: CheckState, excluded_modules: &[&str]) -> (CheckState, bool);

    /// Checks the layers.
    fn check_layers(&self, state: CheckState, layers: &[&str]) -> (CheckState, bool);

    /// Renders all elements.
    fn render_complete(&self, nodes: &Nodes, options: &RenderOptions) -> Result<Vec<u8>, String>;
}

} // verus!
