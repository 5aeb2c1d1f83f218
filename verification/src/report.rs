//! Reporting the messages that were collected.

use vstd::prelude::*;
use vstd::string::*;
use crate::diagnostics::{
    count_of, message_texts, messages_view, DiagType, Diagnostics, MessageView,
};
use crate::text::{decimal, decimal_text, texts};

verus! {

/// The messages as they are shown, one by one.
pub fn message_lines(diags: &Diagnostics) -> (lines: Vec<String>)
    ensures
        texts(lines@) == message_texts(diags@),
{
    let messages = diags.messages();
    let mut lines: Vec<String> = Vec::new();
    for i in 0..messages.len()
        invariant
            messages_view(messages@) == diags@,
            texts(lines@) == message_texts(diags@.take(i as int)),
    {
        let ghost before = lines@;
        lines.push(messages[i].text());
        proof {
            assert(diags@.take(i + 1) == diags@.take(i as int).push(diags@[i as int]));
            assert(texts(lines@) =~= texts(before).push(lines@.last()@));
            assert(texts(lines@) =~= message_texts(diags@.take(i + 1)));
        }
    }
    assert(diags@.take(messages@.len() as int) == diags@);
    lines
}

/// What is reported at the end: lines to show, and whether there were errors.
#[derive(Debug)]
pub struct Report {
    pub lines: Vec<String>,
    pub outcome: Result<(), String>,
}

/// The line about warnings, for when there are no errors.
pub open spec fn warnings_text(warnings: nat) -> Seq<char> {
    "Warning: "@ + decimal(warnings) + " warnings detected."@
}

/// The message about errors.
pub open spec fn errors_text(errors: nat, warnings: nat) -> Seq<char> {
    decimal(errors) + " errors and "@ + decimal(warnings) + " warnings detected."@
}

/// The lines that are shown: the messages, and the number of warnings if there are some and no
/// errors.
pub open spec fn report_lines(messages: Seq<MessageView>) -> Seq<Seq<char>> {
    let errors = count_of(messages, DiagType::Error);
    let warnings = count_of(messages, DiagType::Warning);
    if errors == 0 && warnings > 0 {
        message_texts(messages).push(warnings_text(warnings))
    } else {
        message_texts(messages)
    }
}

/// What is said in the end if there are errors.
pub open spec fn report_failure(messages: Seq<MessageView>) -> Option<Seq<char>> {
    let errors = count_of(messages, DiagType::Error);
    if errors == 0 {
        None
    } else {
        Some(errors_text(errors, count_of(messages, DiagType::Warning)))
    }
}

/// Reports the messages.
///
/// The lines are to be shown in any case; the outcome is a failure if there are errors.
pub fn output_messages(diags: &Diagnostics) -> (report: Report)
    ensures
        texts(report.lines@) == report_lines(diags@),
        match report.outcome {
            Ok(_) => report_failure(diags@) is None,
            Err(text) => report_failure(diags@) == Some(text@),
        },
{
    let mut lines = message_lines(diags);
    let warnings = decimal_text(diags.warnings());
    if diags.errors() == 0 {
        if diags.warnings() > 0 {
            let ghost before = lines@;
            let mut text = "Warning: ".to_owned();
            text.append(warnings.as_str());
            text.append(" warnings detected.");
            lines.push(text);
            assert(texts(lines@) =~= texts(before).push(lines@.last()@));
        }
        Report { lines, outcome: Ok(()) }
    } else {
        let mut text = decimal_text(diags.errors());
        text.append(" errors and ");
        text.append(warnings.as_str());
        text.append(" warnings detected.");
        Report { lines, outcome: Err(text) }
    }
}

/// The report is a failure exactly when an error was collected.
pub proof fn failure_means_an_error(messages: Seq<MessageView>)
    ensures
        report_failure(messages) is Some <==> exists|i: int|
            0 <= i < messages.len() && (#[trigger] messages[i]).diag_type == DiagType::Error,
    decreases messages.len(),
{
    reveal(Seq::filter);
    if messages.len() > 0 {
        failure_means_an_error(messages.drop_last());
        let is_error = |message: MessageView| message.diag_type == DiagType::Error;
        if is_error(messages.last()) {
            assert(messages[messages.len() - 1].diag_type == DiagType::Error);
        } else {
            assert(messages.filter(is_error) == messages.drop_last().filter(is_error));
            if report_failure(messages.drop_last()) is Some {
                let i = choose|i: int|
                    0 <= i < messages.len() - 1 && (#[trigger] messages.drop_last()[i]).diag_type
                        == DiagType::Error;
                assert(messages[i].diag_type == DiagType::Error);
            }
            if exists|i: int|
                0 <= i < messages.len() && (#[trigger] messages[i]).diag_type == DiagType::Error {
                let i = choose|i: int|
                    0 <= i < messages.len() && (#[trigger] messages[i]).diag_type
                        == DiagType::Error;
                assert(messages.drop_last()[i].diag_type == DiagType::Error);
            }
        }
    }
}

} // verus!
