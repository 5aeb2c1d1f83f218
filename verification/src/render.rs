//! What to render and how.

use vstd::prelude::*;
use crate::text::texts;

verus! {

/// How much of a legend is rendered.
#[derive(Clone, Copy, Debug, PartialEq, Eq, Structural)]
pub enum RenderLegend {
    No,
    Short,
    Full,
}

/// What to render and how.
#[derive(Debug)]
pub struct RenderOptions {
    pub stylesheets: Vec<String>,
    pub masked_elements: Vec<String>,
    pub layers: Vec<String>,
    pub legend: RenderLegend,
    pub embed_stylesheets: bool,
    pub architecture_filename: Option<String>,
    pub evidence_filename: Option<String>,
    pub complete_filename: Option<String>,
    pub output_directory: String,
    pub skip_argument: bool,
    pub char_wrap: Option<u32>,
}

/// What to render and how, as a value of specifications.
#[verifier::ext_equal]
pub struct RenderOptionsView {
    pub stylesheets: Seq<Seq<char>>,
    pub masked_elements: Seq<Seq<char>>,
    pub layers: Seq<Seq<char>>,
    pub legend: RenderLegend,
    pub embed_stylesheets: bool,
    pub architecture_filename: Option<Seq<char>>,
    pub evidence_filename: Option<Seq<char>>,
    pub complete_filename: Option<Seq<char>>,
    pub output_directory: Seq<char>,
    pub skip_argument: bool,
    pub char_wrap: Option<u32>,
}

impl View for RenderOptions {
    type V = RenderOptionsView;

    open spec fn view(&self) -> RenderOptionsView {
        RenderOptionsView {
            stylesheets: texts(self.stylesheets@),
            masked_elements: texts(self.masked_elements@),
            layers: texts(self.layers@),
            legend: self.legend,
            embed_stylesheets: self.embed_stylesheets,
            architecture_filename: crate::diagnostics::opt_text(self.architecture_filename),
            evidence_filename: crate::diagnostics::opt_text(self.evidence_filename),
            complete_filename: crate::diagnostics::opt_text(self.complete_filename),
            output_directory: self.output_directory@,
            skip_argument: self.skip_argument,
            char_wrap: self.char_wrap,
        }
    }
}

/// The options for rendering one document, by itself, to a text.
pub open spec fn single_document_options(char_wrap: Option<u32>) -> RenderOptionsView {
    RenderOptionsView {
        stylesheets: Seq::empty(),
        masked_elements: Seq::empty(),
        layers: Seq::empty(),
        legend: RenderLegend::No,
        embed_stylesheets: false,
        architecture_filename: None,
        evidence_filename: None,
        complete_filename: None,
        output_directory: "."@,
        skip_argument: true,
        char_wrap,
    }
}

impl RenderOptions {
    /// The options for rendering one document, by itself, to a text.
    pub fn for_single_document(char_wrap: Option<u32>) -> (options: RenderOptions)
        ensures
            options@ == single_document_options(char_wrap),
    {
        let options = RenderOptions {
            stylesheets: Vec::new(),
            masked_elements: Vec::new(),
            layers: Vec::new(),
            legend: RenderLegend::No,
            embed_stylesheets: false,
            architecture_filename: None,
            evidence_filename: None,
            complete_filename: None,
            output_directory: ".".to_owned(),
            skip_argument: true,
            char_wrap,
        };
        assert(options@ =~= single_document_options(char_wrap));
        options
    }
}

} // verus!
