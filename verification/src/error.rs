//! Failures of the bridge, and what the build engine reports back.

use vstd::prelude::*;

verus! {

/// The stage at which a failure arose.
#[derive(Clone, Copy, Debug, PartialEq, Eq)]
pub enum ErrorPhase {
    /// The script text is malformed.
    Parsing,
    /// A load is outside the supported convention.
    Loading,
    /// The engine refused an import.
    Importing,
    /// The script itself failed while it ran.
    Evaluating,
    /// An attribute has a shape that has no statement form, or the name is missing.
    Translating,
    /// The engine refused a declaration.
    Executing,
    /// The bridge was used against its own discipline.
    Usage,
}

/// A failure that ends the evaluation of the current script.
#[derive(Clone, Debug, PartialEq, Eq)]
pub struct TranslationError {
    pub phase: ErrorPhase,
    pub message: String,
}

/// The mathematical value of a [`TranslationError`].
pub struct ErrorModel {
    pub phase: ErrorPhase,
    pub message: Seq<char>,
}

impl View for TranslationError {
    type V = ErrorModel;

    open spec fn view(&self) -> ErrorModel {
        ErrorModel { phase: self.phase, message: self.message@ }
    }
}

/// What the engine hands back after a call: a flag, and a message that counts only
/// when the flag is set.
#[derive(Clone, Debug, PartialEq, Eq)]
pub struct EngineError {
    pub has_error: bool,
    pub message: String,
}

/// The failure for an attribute value of a shape that cannot be translated.
pub open spec fn unhandled_attribute(rendered: Seq<char>) -> ErrorModel {
    ErrorModel {
        phase: ErrorPhase::Translating,
        message: "don't know how to handle "@ + rendered + " in target attrs"@,
    }
}

/// The failure for a list element that is not a string.
pub open spec fn unhandled_element(rendered: Seq<char>) -> ErrorModel {
    ErrorModel {
        phase: ErrorPhase::Translating,
        message: "don't know how to handle "@ + rendered + " in list"@,
    }
}

/// The failure for a `name` attribute whose value is not a string.
pub open spec fn name_not_string() -> ErrorModel {
    ErrorModel { phase: ErrorPhase::Translating, message: "name is not a string"@ }
}

/// The failure for a declaration without a `name` attribute.
pub open spec fn missing_name() -> ErrorModel {
    ErrorModel { phase: ErrorPhase::Translating, message: "target has no name"@ }
}

/// The failure for a declaration that the engine refused: the engine's message,
/// with the function name in front of it.
pub open spec fn declaration_refused(function_name: Seq<char>, message: Seq<char>) -> ErrorModel {
    ErrorModel {
        phase: ErrorPhase::Executing,
        message: "ERROR EXECUTING "@ + function_name + "! "@ + message,
    }
}

/// The failure for an import that the engine refused.
pub open spec fn import_refused(message: Seq<char>) -> ErrorModel {
    ErrorModel { phase: ErrorPhase::Importing, message: "ERROR! "@ + message }
}

/// The failure for a load outside the supported convention.
pub open spec fn unsupported_load() -> ErrorModel {
    ErrorModel { phase: ErrorPhase::Loading, message: "Only .gni loads are supported"@ }
}

/// The failure for a script that the evaluator gave up on.
pub open spec fn script_failed(message: Seq<char>) -> ErrorModel {
    ErrorModel { phase: ErrorPhase::Evaluating, message: "failed with error "@ + message }
}

/// The failure for a call that does not fit the state the evaluation is in.
pub open spec fn out_of_phase() -> ErrorModel {
    ErrorModel { phase: ErrorPhase::Usage, message: "call does not fit the evaluation's state"@ }
}

/// The failure for a declaration through a function that was never registered.
pub open spec fn unknown_function(function_name: Seq<char>) -> ErrorModel {
    ErrorModel {
        phase: ErrorPhase::Usage,
        message: "no declaration function is named "@ + function_name,
    }
}

/// The failure for script text that does not parse.
pub open spec fn parse_failed(message: Seq<char>) -> ErrorModel {
    ErrorModel { phase: ErrorPhase::Parsing, message }
}

/// Joins three pieces of text.
pub(crate) fn join3(first: &str, second: &str, third: &str) -> (out: String)
    ensures
        out@ == first@ + second@ + third@,
{
    let mut out = String::from_str(first);
    out.append(second);
    out.append(third);
    out
}

impl TranslationError {
    /// Makes a second error of the same phase and message.
    pub fn duplicate(&self) -> (copy: TranslationError)
        ensures
            copy@ == self@,
    {
        TranslationError { phase: self.phase, message: self.message.clone() }
    }

    /// Makes the failure for a call that does not fit the state the evaluation is in.
    pub fn for_out_of_phase() -> (error: TranslationError)
        ensures
            error@ == out_of_phase(),
    {
        TranslationError {
            phase: ErrorPhase::Usage,
            message: String::from_str("call does not fit the evaluation's state"),
        }
    }

    /// Makes the failure for a declaration through a function that was never registered.
    pub fn for_unknown_function(function_name: &str) -> (error: TranslationError)
        ensures
            error@ == unknown_function(function_name@),
    {
        let mut text = String::from_str("no declaration function is named ");
        text.append(function_name);
        TranslationError { phase: ErrorPhase::Usage, message: text }
    }

    /// Makes the failure for an attribute value of a shape that cannot be translated.
    pub fn for_unhandled_attribute(rendered: &str) -> (error: TranslationError)
        ensures
            error@ == unhandled_attribute(rendered@),
    {
        TranslationError {
            phase: ErrorPhase::Translating,
            message: join3("don't know how to handle ", rendered, " in target attrs"),
        }
    }

    /// Makes the failure for a list element that is not a string.
    pub fn for_unhandled_element(rendered: &str) -> (error: TranslationError)
        ensures
            error@ == unhandled_element(rendered@),
    {
        TranslationError {
            phase: ErrorPhase::Translating,
            message: join3("don't know how to handle ", rendered, " in list"),
        }
    }

    /// Makes the failure for a `name` attribute whose value is not a string.
    pub fn for_name_not_string() -> (error: TranslationError)
        ensures
            error@ == name_not_string(),
    {
        TranslationError {
            phase: ErrorPhase::Translating,
            message: String::from_str("name is not a string"),
        }
    }

    /// Makes the failure for a declaration without a `name` attribute.
    pub fn for_missing_name() -> (error: TranslationError)
        ensures
            error@ == missing_name(),
    {
        TranslationError {
            phase: ErrorPhase::Translating,
            message: String::from_str("target has no name"),
        }
    }

    /// Makes the failure for a declaration that the engine refused.
    pub fn for_declaration_refused(function_name: &str, message: &str) -> (error: TranslationError)
        ensures
            error@ == declaration_refused(function_name@, message@),
    {
        let mut text = join3("ERROR EXECUTING ", function_name, "! ");
        text.append(message);
        TranslationError { phase: ErrorPhase::Executing, message: text }
    }

    /// Makes the failure for an import that the engine refused.
    pub fn for_import_refused(message: &str) -> (error: TranslationError)
        ensures
            error@ == import_refused(message@),
    {
        let mut text = String::from_str("ERROR! ");
        text.append(message);
        TranslationError { phase: ErrorPhase::Importing, message: text }
    }

    /// Makes the failure for a load outside the supported convention.
    pub fn for_unsupported_load() -> (error: TranslationError)
        ensures
            error@ == unsupported_load(),
    {
        TranslationError {
            phase: ErrorPhase::Loading,
            message: String::from_str("Only .gni loads are supported"),
        }
    }

    /// Makes the failure for a script that the evaluator gave up on.
    pub fn for_script_failed(message: &str) -> (error: TranslationError)
        ensures
            error@ == script_failed(message@),
    {
        let mut text = String::from_str("failed with error ");
        text.append(message);
        TranslationError { phase: ErrorPhase::Evaluating, message: text }
    }

    /// Makes the failure for script text that does not parse.
    pub fn for_parse_failed(message: String) -> (error: TranslationError)
        ensures
            error@ == parse_failed(message@),
    {
        TranslationError { phase: ErrorPhase::Parsing, message }
    }
}

} // verus!
