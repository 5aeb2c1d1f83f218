//! Documents that cannot be parsed.

use vstd::prelude::*;
use vstd::string::*;
use crate::text::{decimal, decimal_text};

verus! {

/// `serde_yaml_ng::Error`: why a document could not be parsed.
#[verifier::external_type_specification]
#[verifier::external_body]
pub struct ExternalYamlError(serde_yaml_ng::Error);

/// `serde_yaml_ng::Location`: a place in a document.
#[verifier::external_type_specification]
#[verifier::external_body]
pub struct ExternalYamlLocation(serde_yaml_ng::Location);

/// `serde_yaml_ng::Error::location` gives the place in the document where it went wrong, if the
/// error has one. Which errors have one is not said.
pub assume_specification[ serde_yaml_ng::Error::location ](error: &serde_yaml_ng::Error) -> Option<
    serde_yaml_ng::Location,
>;

/// `serde_yaml_ng::Location::line` gives the line of a place. Lines are counted from one.
pub assume_specification[ serde_yaml_ng::Location::line ](location: &serde_yaml_ng::Location) -> (line:
    usize)
    ensures
        line >= 1,
;

/// Why a document could not be parsed.
#[derive(Debug)]
pub struct YamlError {
    pub line: Option<usize>,
    pub message: String,
}

/// Why a document could not be parsed, as a value of specifications.
#[verifier::ext_equal]
pub struct YamlErrorView {
    pub line: Option<usize>,
    pub message: Seq<char>,
}

impl View for YamlError {
    type V = YamlErrorView;

    open spec fn view(&self) -> YamlErrorView {
        YamlErrorView { line: self.line, message: self.message@ }
    }
}

/// The message about a document that could not be parsed.
pub open spec fn yaml_failure_text(error: YamlErrorView) -> Seq<char> {
    let line = match error.line {
        Some(line) => decimal(line as nat),
        None => "unknown"@,
    };
    "No valid GSN element can be found starting from line "@ + line
        + ".\nThis typically means that the YAML is completely invalid or \nthe `text:` attribute is missing for an element.\nPlease see the documentation for details.\nOriginal error message: "@
        + error.message + "."@
}

/// Whether a line is where an error says that it went wrong.
spec fn is_line_of(line: Option<usize>, error: serde_yaml_ng::Error) -> bool {
    match line {
        Some(line) => is_located_at(line, error),
        None => call_ensures(serde_yaml_ng::Error::location, (&error,), None),
    }
}

spec fn is_located_at(line: usize, error: serde_yaml_ng::Error) -> bool {
    exists|location: serde_yaml_ng::Location| is_line_at(line, location, error)
}

spec fn is_line_at(
    line: usize,
    location: serde_yaml_ng::Location,
    error: serde_yaml_ng::Error,
) -> bool {
    &&& call_ensures(serde_yaml_ng::Error::location, (&error,), Some(location))
    &&& call_ensures(serde_yaml_ng::Location::line, (&location,), line)
}

/// Whether a text is what an error says.
spec fn is_text_of(text: Seq<char>, error: serde_yaml_ng::Error) -> bool {
    exists|message: String| #[trigger]
        to_string_from_display_ensures(&error, message) && text == message@
}

/// Whether this is what an error of the parser says: the line, if it has a place, and its message.
pub closed spec fn is_said_by(said: YamlErrorView, error: serde_yaml_ng::Error) -> bool {
    is_line_of(said.line, error) && is_text_of(said.message, error)
}

/// What is said of a failure is the line of its place, if it has one, and the text that it displays.
pub proof fn failures_say_their_line_and_text(said: YamlErrorView, error: serde_yaml_ng::Error) -> (parts:
    (serde_yaml_ng::Location, String))
    requires
        is_said_by(said, error),
    ensures
        said.line is None ==> call_ensures(serde_yaml_ng::Error::location, (&error,), None),
        said.line matches Some(line) ==> {
            &&& call_ensures(serde_yaml_ng::Error::location, (&error,), Some(parts.0))
            &&& call_ensures(serde_yaml_ng::Location::line, (&parts.0,), line)
        },
        to_string_from_display_ensures(&error, parts.1),
        said.message == parts.1@,
{
    let message = choose|message: String| #[trigger]
        to_string_from_display_ensures(&error, message) && said.message == message@;
    assert(is_text_of(said.message, error));
    match said.line {
        Some(line) => {
            assert(is_located_at(line, error));
            let location = choose|location: serde_yaml_ng::Location|
                is_line_at(line, location, error);
            assert(is_line_at(line, location, error));
            (location, message)
        },
        None => (arbitrary(), message),
    }
}

/// Lines are counted from one.
pub proof fn lines_start_at_one(said: YamlErrorView, error: serde_yaml_ng::Error)
    requires
        is_said_by(said, error),
    ensures
        said.line matches Some(line) ==> line >= 1,
{
}

impl YamlError {
    /// What an error of the parser says.
    pub fn of(error: &serde_yaml_ng::Error) -> (said: YamlError)
        ensures
            is_said_by(said@, *error),
    {
        let line = match error.location() {
            Some(location) => {
                let line = location.line();
                assert(is_line_at(line, location, *error));
                assert(is_located_at(line, *error));
                Some(line)
            },
            None => None,
        };
        assert(is_line_of(line, *error));
        let message = error.to_string();
        YamlError { line, message }
    }

    /// The message about the document.
    pub fn text(&self) -> (text: String)
        ensures
            text@ == yaml_failure_text(self@),
    {
        let mut text = "No valid GSN element can be found starting from line ".to_owned();
        match self.line {
            Some(line) => {
                let line = decimal_text(line);
                text.append(line.as_str());
            },
            None => {
                text.append("unknown");
            },
        }
        text.append(
            ".\nThis typically means that the YAML is completely invalid or \nthe `text:` attribute is missing for an element.\nPlease see the documentation for details.\nOriginal error message: ",
        );
        text.append(self.message.as_str());
        text.append(".");
        text
    }
}

} // verus!
