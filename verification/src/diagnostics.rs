//! Errors and warnings, collected while documents are read and checked.

use vstd::prelude::*;
use vstd::string::*;

verus! {

/// How grave a message is.
#[derive(Clone, Copy, Debug, PartialEq, Eq, Structural)]
pub enum DiagType {
    Error,
    Warning,
}

/// One message.
#[derive(Debug)]
pub struct DiagnosticMessage {
    pub diag_type: DiagType,
    pub module: Option<String>,
    pub msg: String,
}

/// What one message says.
#[verifier::ext_equal]
pub struct MessageView {
    pub diag_type: DiagType,
    pub module: Option<Seq<char>>,
    pub msg: Seq<char>,
}

/// What an optional string says.
pub open spec fn opt_text(text: Option<String>) -> Option<Seq<char>> {
    match text {
        Some(t) => Some(t@),
        None => None,
    }
}

/// What an optional string slice says.
pub open spec fn opt_str(text: Option<&str>) -> Option<Seq<char>> {
    match text {
        Some(t) => Some(t@),
        None => None,
    }
}

impl View for DiagnosticMessage {
    type V = MessageView;

    open spec fn view(&self) -> MessageView {
        MessageView {
            diag_type: self.diag_type,
            module: opt_text(self.module),
            msg: self.msg@,
        }
    }
}

/// An error, raised for a module or for the documents as a whole.
pub open spec fn error_message(module: Option<Seq<char>>, msg: Seq<char>) -> MessageView {
    MessageView { diag_type: DiagType::Error, module, msg }
}

/// A warning, raised for a module or for the documents as a whole.
pub open spec fn warning_message(module: Option<Seq<char>>, msg: Seq<char>) -> MessageView {
    MessageView { diag_type: DiagType::Warning, module, msg }
}

/// A message as it is shown: its kind, the module in brackets if there is one, and what it says.
pub open spec fn message_text(message: MessageView) -> Seq<char> {
    let kind = match message.diag_type {
        DiagType::Error => "Error: "@,
        DiagType::Warning => "Warning: "@,
    };
    match message.module {
        Some(module) => kind + "("@ + module + ") "@ + message.msg,
        None => kind + message.msg,
    }
}

/// Messages as they are shown, one by one.
pub open spec fn message_texts(messages: Seq<MessageView>) -> Seq<Seq<char>> {
    messages.map_values(|message: MessageView| message_text(message))
}

impl DiagnosticMessage {
    /// The message as it is shown.
    pub fn text(&self) -> (text: String)
        ensures
            text@ == message_text(self@),
    {
        let mut text = match self.diag_type {
            DiagType::Error => "Error: ".to_owned(),
            DiagType::Warning => "Warning: ".to_owned(),
        };
        if let Some(module) = &self.module {
            text.append("(");
            text.append(module.as_str());
            text.append(") ");
        }
        text.append(self.msg.as_str());
        text
    }
}

/// What a list of messages says, message by message.
pub open spec fn messages_view(messages: Seq<DiagnosticMessage>) -> Seq<MessageView> {
    messages.map_values(|message: DiagnosticMessage| message@)
}

/// How many messages of a kind there are.
pub open spec fn count_of(messages: Seq<MessageView>, diag_type: DiagType) -> nat {
    messages.filter(|message: MessageView| message.diag_type == diag_type).len()
}

proof fn count_of_push(messages: Seq<MessageView>, message: MessageView, diag_type: DiagType)
    ensures
        count_of(messages.push(message), diag_type) == count_of(messages, diag_type) + (if message.diag_type
            == diag_type {
            1nat
        } else {
            0nat
        }),
{
    reveal(Seq::filter);
    assert(messages.push(message).drop_last() == messages);
}

/// Every message is an error or a warning.
pub proof fn errors_and_warnings(messages: Seq<MessageView>)
    ensures
        count_of(messages, DiagType::Error) + count_of(messages, DiagType::Warning)
            == messages.len(),
    decreases messages.len(),
{
    reveal(Seq::filter);
    if messages.len() > 0 {
        errors_and_warnings(messages.drop_last());
        count_of_push(messages.drop_last(), messages.last(), DiagType::Error);
        count_of_push(messages.drop_last(), messages.last(), DiagType::Warning);
        assert(messages.drop_last().push(messages.last()) == messages);
    }
}

/// The messages collected so far, and how many of them are errors and warnings.
#[derive(Debug)]
pub struct Diagnostics {
    messages: Vec<DiagnosticMessage>,
    warnings: usize,
    errors: usize,
}

impl View for Diagnostics {
    type V = Seq<MessageView>;

    closed spec fn view(&self) -> Seq<MessageView> {
        messages_view(self.messages@)
    }
}

impl Default for Diagnostics {
    fn default() -> (diags: Diagnostics)
        ensures
            diags@ == Seq::<MessageView>::empty(),
    {
        Diagnostics::new()
    }
}

impl Diagnostics {
    #[verifier::type_invariant]
    spec fn counted(self) -> bool {
        &&& self.errors == count_of(self@, DiagType::Error)
        &&& self.warnings == count_of(self@, DiagType::Warning)
    }

    /// No messages.
    pub fn new() -> (diags: Diagnostics)
        ensures
            diags@ == Seq::<MessageView>::empty(),
    {
        let messages: Vec<DiagnosticMessage> = Vec::new();
        proof {
            reveal(Seq::filter);
            assert(messages_view(messages@) == Seq::<MessageView>::empty());
        }
        Diagnostics { messages, warnings: 0, errors: 0 }
    }

    /// The messages, oldest first.
    pub fn messages(&self) -> (messages: &Vec<DiagnosticMessage>)
        ensures
            messages_view(messages@) == self@,
    {
        &self.messages
    }

    /// How many of the messages are errors.
    pub fn errors(&self) -> (errors: usize)
        ensures
            errors == count_of(self@, DiagType::Error),
    {
        proof {
            use_type_invariant(self);
        }
        self.errors
    }

    /// How many of the messages are warnings.
    pub fn warnings(&self) -> (warnings: usize)
        ensures
            warnings == count_of(self@, DiagType::Warning),
    {
        proof {
            use_type_invariant(self);
        }
        self.warnings
    }

    fn add_message(&mut self, message: DiagnosticMessage)
        ensures
            final(self)@ == old(self)@.push(message@),
    {
        let mut taken = Diagnostics::new();
        std::mem::swap(self, &mut taken);
        proof {
            use_type_invariant(&taken);
            errors_and_warnings(taken@);
            count_of_push(taken@, message@, DiagType::Error);
            count_of_push(taken@, message@, DiagType::Warning);
        }
        let ghost before = taken@;
        let ghost added = message@;
        let diag_type = message.diag_type;
        let Diagnostics { mut messages, mut warnings, mut errors } = taken;
        messages.push(message);
        assert(messages_view(messages@) == before.push(added));
        let total = messages.len();
        assert(errors + warnings < total);
        match diag_type {
            DiagType::Error => {
                errors += 1;
            },
            DiagType::Warning => {
                warnings += 1;
            },
        }
        *self = Diagnostics { messages, warnings, errors };
    }

    /// Adds an error.
    pub fn add_error(&mut self, module: Option<&str>, msg: String)
        ensures
            final(self)@ == old(self)@.push(error_message(opt_str(module), msg@)),
    {
        let module = match module {
            Some(name) => Some(name.to_owned()),
            None => None,
        };
        self.add_message(DiagnosticMessage { diag_type: DiagType::Error, module, msg });
    }

    /// Adds a warning.
    pub fn add_warning(&mut self, module: Option<&str>, msg: String)
        ensures
            final(self)@ == old(self)@.push(warning_message(opt_str(module), msg@)),
    {
        let module = match module {
            Some(name) => Some(name.to_owned()),
            None => None,
        };
        self.add_message(DiagnosticMessage { diag_type: DiagType::Warning, module, msg });
    }
}

} // verus!
