//! Loading a script: from raw text to a parsed script and the modules it loads.

use vstd::prelude::*;
use crate::error::ErrorPhase;
use crate::error::TranslationError;
use crate::value::texts;

verus! {

/// The scripting library's syntax tree of one module. The bridge carries it
/// from the parser to the evaluator and never looks inside.
#[verifier::external_type_specification]
#[verifier::external_body]
pub struct ExAstModule(starlark::syntax::AstModule);

/// The error type in which the scripting library reports a parse failure.
#[verifier::external_type_specification]
#[verifier::external_body]
pub struct ExParseError(anyhow::Error);

/// Whether `content` is a well-formed module of the standard dialect, as
/// `starlark::syntax::AstModule::parse` decides it.
pub uninterp spec fn module_parses(filename: Seq<char>, content: Seq<char>) -> bool;

/// The length of `text` in bytes.
pub open spec fn byte_length(text: Seq<char>) -> nat {
    vstd::utf8::encode_utf8(text).len()
}

/// The parser keeps positions in 32 bits, so it takes no text longer than that.
pub open spec fn fits_parser(text: Seq<char>) -> bool {
    byte_length(text) <= u32::MAX
}

/// The identifiers of the modules that `content` loads, in the order of its load
/// statements: what `starlark::syntax::AstModule::loads` gives for the module that
/// `starlark::syntax::AstModule::parse` makes of `content`.
pub uninterp spec fn module_load_ids(filename: Seq<char>, content: Seq<char>) -> Seq<Seq<char>>;

/// Calls `starlark::syntax::AstModule::parse` with the standard dialect and, on the
/// module it gives, `starlark::syntax::AstModule::loads`, of which it copies out
/// the identifier of each loaded module. Both are functions of the text: the
/// parser answers `Ok` exactly on the texts that `module_parses` names, and the
/// identifiers are those that `module_load_ids` names. The text must fit the
/// parser's 32-bit positions.
#[verifier::external_body]
fn parse_module(filename: &str, content: String) -> (outcome: Result<
    (starlark::syntax::AstModule, Vec<String>),
    anyhow::Error,
>)
    requires
        fits_parser(content@),
    ensures
        outcome is Ok == module_parses(filename@, content@),
        outcome matches Ok(parsed) ==> texts(parsed.1@) == module_load_ids(filename@, content@),
{
    let dialect = starlark::syntax::Dialect::Standard;
    let module = starlark::syntax::AstModule::parse(filename, content, &dialect)?;
    let loads = module.loads().into_iter().map(|load| load.module_id.to_owned()).collect();
    Ok((module, loads))
}

/// Renders a parse failure as text, through the `Display` of `anyhow::Error`.
/// Nothing is claimed of the text.
#[verifier::external_body]
fn parse_error_text(error: &anyhow::Error) -> (text: String) {
    format!("{}", error)
}

/// A script that parsed: its syntax tree, for the evaluator, and the identifiers
/// of the modules it loads, in the order of its load statements.
pub struct ParsedScript {
    module: starlark::syntax::AstModule,
    loads: Vec<String>,
}

impl ParsedScript {
    /// The identifiers of the modules that the script loads.
    pub closed spec fn load_ids(&self) -> Seq<String> {
        self.loads@
    }

    /// The syntax tree of the script.
    pub closed spec fn syntax_tree(&self) -> starlark::syntax::AstModule {
        self.module
    }

    /// Parses script text and lists the modules it loads. `filename` only names the
    /// script in messages. Fails, in the parsing phase, on text that is malformed or
    /// too long for the parser.
    pub fn parse(filename: &str, content: String) -> (outcome: Result<
        ParsedScript,
        TranslationError,
    >)
        ensures
            outcome is Ok <==> fits_parser(content@) && module_parses(filename@, content@),
            outcome matches Ok(script) ==> texts(script.load_ids()) == module_load_ids(
                filename@,
                content@,
            ),
            outcome matches Err(error) ==> error.phase == ErrorPhase::Parsing,
            outcome matches Err(error) ==> !fits_parser(content@) ==> error.message@
                == "script text is too long"@,
    {
        if content.as_str().as_bytes().len() > u32::MAX as usize {
            return Err(
                TranslationError::for_parse_failed(String::from_str("script text is too long")),
            );
        }
        match parse_module(filename, content) {
            Ok(parsed) => {
                let (module, loads) = parsed;
                Ok(ParsedScript { module, loads })
            },
            Err(error) => Err(TranslationError::for_parse_failed(parse_error_text(&error))),
        }
    }

    /// The identifiers of the modules that the script loads, in the order of its
    /// load statements.
    pub fn loads(&self) -> (loads: &Vec<String>)
        ensures
            loads@ == self.load_ids(),
    {
        &self.loads
    }

    /// Gives up the syntax tree, for the evaluator to run.
    pub fn into_module(self) -> (module: starlark::syntax::AstModule)
        ensures
            module == self.syntax_tree(),
    {
        self.module
    }
}

} // verus!
