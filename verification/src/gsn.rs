//! Elements, modules and documents of Goal Structuring Notation.

use vstd::prelude::*;
use crate::diagnostics::opt_text;
use crate::element_laws::{
    is_kind_by_letters, kinds_go_by_letters, stand_ins_go_by_their_name, stands_in_for,
};
use crate::text::{copy_texts, same_text, starts_with, texts};
use crate::text_map::TextMap;

verus! {

/// The name under which a document describes its module.
pub const MODULE_INFORMATION_NODE: &'static str = "module";

/// The module of elements that are referred to and not defined.
pub const UNKNOWN_MODULE: &'static str = "Unknown";

/// The kind of an element.
#[derive(Clone, Copy, Debug, PartialEq, Eq, Structural)]
pub enum GsnNodeType {
    Goal,
    Strategy,
    Solution,
    Context,
    Assumption,
    Justification,
    CounterGoal,
    CounterSolution,
}

/// The kind that the name of an element gives away by how it starts: `G` for a goal, `S` for a
/// strategy, `Sn` for a solution, `C` for a context, `A` for an assumption, `J` for a
/// justification, `CG` for a counter goal and `CSn` for a counter solution.
///
/// Where several of these fit, the longest counts.
pub open spec fn node_type_of(name: Seq<char>) -> Option<GsnNodeType> {
    if "CSn"@.is_prefix_of(name) {
        Some(GsnNodeType::CounterSolution)
    } else if "CG"@.is_prefix_of(name) {
        Some(GsnNodeType::CounterGoal)
    } else if "Sn"@.is_prefix_of(name) {
        Some(GsnNodeType::Solution)
    } else if "G"@.is_prefix_of(name) {
        Some(GsnNodeType::Goal)
    } else if "S"@.is_prefix_of(name) {
        Some(GsnNodeType::Strategy)
    } else if "C"@.is_prefix_of(name) {
        Some(GsnNodeType::Context)
    } else if "A"@.is_prefix_of(name) {
        Some(GsnNodeType::Assumption)
    } else if "J"@.is_prefix_of(name) {
        Some(GsnNodeType::Justification)
    } else {
        None
    }
}

/// The kind of element that a name stands for.
pub fn node_type_from_name(name: &str) -> (node_type: Option<GsnNodeType>)
    ensures
        node_type == node_type_of(name@),
        is_kind_by_letters(name@, node_type),
{
    proof {
        kinds_go_by_letters(name@);
    }
    if starts_with(name, "CSn") {
        Some(GsnNodeType::CounterSolution)
    } else if starts_with(name, "CG") {
        Some(GsnNodeType::CounterGoal)
    } else if starts_with(name, "Sn") {
        Some(GsnNodeType::Solution)
    } else if starts_with(name, "G") {
        Some(GsnNodeType::Goal)
    } else if starts_with(name, "S") {
        Some(GsnNodeType::Strategy)
    } else if starts_with(name, "C") {
        Some(GsnNodeType::Context)
    } else if starts_with(name, "A") {
        Some(GsnNodeType::Assumption)
    } else if starts_with(name, "J") {
        Some(GsnNodeType::Justification)
    } else {
        None
    }
}

/// An element of an argument.
#[derive(Debug)]
pub struct GsnNode {
    pub node_type: Option<GsnNodeType>,
    pub text: String,
    pub module: String,
    pub supported_by: Vec<String>,
    pub in_context_of: Vec<String>,
    pub char_wrap: Option<u32>,
    /// What a document says besides, as YAML. It is carried along unread.
    pub additional: String,
}

/// What an element says.
#[verifier::ext_equal]
pub struct GsnNodeView {
    pub node_type: Option<GsnNodeType>,
    pub text: Seq<char>,
    pub module: Seq<char>,
    pub supported_by: Seq<Seq<char>>,
    pub in_context_of: Seq<Seq<char>>,
    pub char_wrap: Option<u32>,
    pub additional: Seq<char>,
}

impl View for GsnNode {
    type V = GsnNodeView;

    open spec fn view(&self) -> GsnNodeView {
        GsnNodeView {
            node_type: self.node_type,
            text: self.text@,
            module: self.module@,
            supported_by: texts(self.supported_by@),
            in_context_of: texts(self.in_context_of@),
            char_wrap: self.char_wrap,
            additional: self.additional@,
        }
    }
}

/// An element that says nothing.
pub open spec fn empty_node() -> GsnNodeView {
    GsnNodeView {
        node_type: None,
        text: Seq::empty(),
        module: Seq::empty(),
        supported_by: Seq::empty(),
        in_context_of: Seq::empty(),
        char_wrap: None,
        additional: Seq::empty(),
    }
}

/// A kind that is given stays; one that is not comes from the name.
pub open spec fn fixed_node_type(given: Option<GsnNodeType>, name: Seq<char>) -> Option<
    GsnNodeType,
> {
    match given {
        Some(node_type) => Some(node_type),
        None => node_type_of(name),
    }
}

impl Default for GsnNode {
    fn default() -> (node: GsnNode)
        ensures
            node@ == empty_node(),
    {
        GsnNode {
            node_type: None,
            text: String::new(),
            module: String::new(),
            supported_by: Vec::new(),
            in_context_of: Vec::new(),
            char_wrap: None,
            additional: String::new(),
        }
    }
}

impl GsnNode {
    /// Settles the kind of an element that does not state one, by its name.
    pub fn fix_node_type(&mut self, name: &str)
        ensures
            final(self)@ == (GsnNodeView {
                node_type: fixed_node_type(old(self)@.node_type, name@),
                ..old(self)@
            }),
    {
        if self.node_type.is_none() {
            self.node_type = node_type_from_name(name);
        }
    }
}

/// The stand-in for an element that is referred to and not defined.
pub open spec fn unknown_node(name: Seq<char>) -> GsnNodeView {
    GsnNodeView { node_type: node_type_of(name), module: UNKNOWN_MODULE@, ..empty_node() }
}

/// Makes the stand-in for an element that is referred to and not defined.
pub fn make_unknown_node_for(node_name: &str) -> (node: GsnNode)
    ensures
        node@ == unknown_node(node_name@),
        stands_in_for(node@, node_name@),
{
    proof {
        stand_ins_go_by_their_name(node_name@);
    }
    let mut node = GsnNode::default();
    node.module = UNKNOWN_MODULE.to_owned();
    node.fix_node_type(node_name);
    node
}

/// What a document says about its module.
#[derive(Debug)]
pub struct ModuleInformation {
    pub name: String,
    pub uses: Vec<String>,
    pub stylesheets: Vec<String>,
    pub char_wrap: Option<u32>,
    /// What a document says besides, as YAML. It is carried along unread.
    pub additional: String,
}

/// What is said about a module.
#[verifier::ext_equal]
pub struct ModuleInformationView {
    pub name: Seq<char>,
    pub uses: Seq<Seq<char>>,
    pub stylesheets: Seq<Seq<char>>,
    pub char_wrap: Option<u32>,
    pub additional: Seq<char>,
}

impl View for ModuleInformation {
    type V = ModuleInformationView;

    open spec fn view(&self) -> ModuleInformationView {
        ModuleInformationView {
            name: self.name@,
            uses: texts(self.uses@),
            stylesheets: texts(self.stylesheets@),
            char_wrap: self.char_wrap,
            additional: self.additional@,
        }
    }
}

/// A module of which only the name is known.
pub open spec fn named_module(name: Seq<char>) -> ModuleInformationView {
    ModuleInformationView {
        name,
        uses: Seq::empty(),
        stylesheets: Seq::empty(),
        char_wrap: None,
        additional: Seq::empty(),
    }
}

impl ModuleInformation {
    /// A module of which only the name is known.
    pub fn new(name: String) -> (info: ModuleInformation)
        ensures
            info@ == named_module(name@),
    {
        let info = ModuleInformation {
            name,
            uses: Vec::new(),
            stylesheets: Vec::new(),
            char_wrap: None,
            additional: String::new(),
        };
        assert(info@ =~= named_module(info.name@));
        info
    }

    /// A copy.
    pub fn copy(&self) -> (copy: ModuleInformation)
        ensures
            copy@ == self@,
    {
        ModuleInformation {
            name: self.name.clone(),
            uses: copy_texts(&self.uses),
            stylesheets: copy_texts(&self.stylesheets),
            char_wrap: self.char_wrap,
            additional: self.additional.clone(),
        }
    }
}

/// What caused a module to be read.
#[derive(Debug)]
pub enum Origin {
    /// It was named on the command line.
    CommandLine,
    /// A file uses it.
    File(String),
    /// It was not read at all.
    Excluded,
}

/// What caused a module to be read, as a value of specifications.
#[verifier::ext_equal]
pub enum OriginView {
    CommandLine,
    File(Seq<char>),
    Excluded,
}

impl View for Origin {
    type V = OriginView;

    open spec fn view(&self) -> OriginView {
        match self {
            Origin::CommandLine => OriginView::CommandLine,
            Origin::File(file) => OriginView::File(file@),
            Origin::Excluded => OriginView::Excluded,
        }
    }
}

/// An origin as it is shown.
pub open spec fn origin_text(origin: OriginView) -> Seq<char> {
    match origin {
        OriginView::CommandLine => "command line"@,
        OriginView::File(file) => file,
        OriginView::Excluded => "excluded"@,
    }
}

impl Origin {
    /// The origin as it is shown.
    pub fn text(&self) -> (text: String)
        ensures
            text@ == origin_text(self@),
    {
        match self {
            Origin::CommandLine => "command line".to_owned(),
            Origin::File(file) => file.clone(),
            Origin::Excluded => "excluded".to_owned(),
        }
    }
}

/// A module that has been read.
#[derive(Debug)]
pub struct Module {
    pub orig_file_name: String,
    pub meta: ModuleInformation,
    pub origin: Origin,
    pub canonical_path: Option<String>,
    pub output_path: Option<String>,
}

/// A module that has been read, as a value of specifications.
#[verifier::ext_equal]
pub struct ModuleView {
    pub orig_file_name: Seq<char>,
    pub meta: ModuleInformationView,
    pub origin: OriginView,
    pub canonical_path: Option<Seq<char>>,
    pub output_path: Option<Seq<char>>,
}

impl View for Module {
    type V = ModuleView;

    open spec fn view(&self) -> ModuleView {
        ModuleView {
            orig_file_name: self.orig_file_name@,
            meta: self.meta@,
            origin: self.origin@,
            canonical_path: opt_text(self.canonical_path),
            output_path: opt_text(self.output_path),
        }
    }
}

/// What stands under a name in a document: an element, or what the document says about its module.
#[derive(Debug)]
pub enum GsnDocument {
    GsnNode(GsnNode),
    ModuleInformation(ModuleInformation),
}

/// What stands under a name in a document, as a value of specifications.
#[verifier::ext_equal]
pub enum GsnDocumentView {
    GsnNode(GsnNodeView),
    ModuleInformation(ModuleInformationView),
}

impl View for GsnDocument {
    type V = GsnDocumentView;

    open spec fn view(&self) -> GsnDocumentView {
        match self {
            GsnDocument::GsnNode(node) => GsnDocumentView::GsnNode(node@),
            GsnDocument::ModuleInformation(info) => GsnDocumentView::ModuleInformation(info@),
        }
    }
}

/// What a document holds, by name.
pub type Documents = TextMap<GsnDocument>;

/// The elements of all documents, by name.
pub type Nodes = TextMap<GsnNode>;

/// The modules that have been read, by name.
pub type Modules = TextMap<Module>;

/// Whether some module was read from a file.
pub open spec fn path_is_known(
    modules: Map<Seq<char>, ModuleView>,
    canonical_path: Seq<char>,
) -> bool {
    exists|name: Seq<char>| #[trigger]
        modules.contains_key(name) && modules[name].canonical_path == Some(canonical_path)
}

/// Whether some module was read from a file.
pub fn find_module_by_path(modules: &Modules, canonical_path: &str) -> (found: bool)
    ensures
        found == path_is_known(modules@, canonical_path@),
{
    let n = modules.len();
    for i in 0..n
        invariant
            n == modules.keys().len(),
            modules.well_formed(),
            forall|j: int|
                0 <= j < i ==> modules@[#[trigger] modules.keys()[j]].canonical_path != Some(
                    canonical_path@,
                ),
    {
        let module = modules.value_at(i);
        if let Some(path) = &module.canonical_path {
            if same_text(path.as_str(), canonical_path) {
                return true;
            }
        }
    }
    proof {
        if path_is_known(modules@, canonical_path@) {
            let name = choose|name: Seq<char>| #[trigger]
                modules@.contains_key(name) && modules@[name].canonical_path == Some(
                    canonical_path@,
                );
            let i = crate::text_map::lemma_place(*modules, name);
        }
    }
    false
}

} // verus!
