use std::collections::HashMap;
use std::sync::Arc;
use std::sync::Mutex;

use stargn::assembler::Keyword;
use stargn::driver::Driver;
use stargn::driver::ImportStep;
use stargn::driver::Phase;
use stargn::error::EngineError;
use stargn::error::ErrorPhase;
use stargn::error::TranslationError;
use stargn::import::import_call;
use stargn::import::TemplateNamespace;
use stargn::node::SyntheticNode;
use stargn::script::ParsedScript;
use stargn::token::Token;
use stargn::token::TokenKind;
use stargn::value::ScriptElement;
use stargn::value::ScriptValue;
use starlark::environment::FrozenModule;
use starlark::environment::Globals;
use starlark::environment::GlobalsBuilder;
use starlark::environment::Module;
use starlark::eval::Arguments;
use starlark::eval::Evaluator;
use starlark::eval::ReturnFileLoader;
use starlark::values::dict::Dict;
use starlark::values::function::NativeFunction;
use starlark::values::list::ListRef;
use starlark::values::AllocValue;
use starlark::values::Value;

/// Stands for the engine's execution context: it records what was executed.
#[derive(Debug, Default)]
struct Recorder {
    imports: Vec<SyntheticNode>,
    declarations: Vec<SyntheticNode>,
}

struct Bridge {
    driver: Driver<Recorder>,
    templates: HashMap<String, Vec<String>>,
    refuse_declarations_of: Option<String>,
}

type Shared = Arc<Mutex<Bridge>>;

fn script_value(value: Value) -> ScriptValue {
    if let Some(flag) = value.unpack_bool() {
        ScriptValue::Boolean(flag)
    } else if let Some(content) = value.unpack_str() {
        ScriptValue::Str(content.to_owned())
    } else if let Some(list) = ListRef::from_value(value) {
        ScriptValue::List(
            list.iter()
                .map(|item| match item.unpack_str() {
                    Some(content) => ScriptElement::Str(content.to_owned()),
                    None => ScriptElement::Other { rendered: item.to_string() },
                })
                .collect(),
        )
    } else {
        ScriptValue::Other { rendered: value.to_string() }
    }
}

fn keywords_of(arguments: &Dict) -> Vec<Keyword> {
    arguments
        .iter()
        .map(|(key, value)| Keyword {
            key: key.unpack_str().unwrap().to_owned(),
            value: script_value(value),
        })
        .collect()
}

fn declare(shared: &Shared, function_name: &str, arguments: &Dict) -> anyhow::Result<()> {
    let keywords = keywords_of(arguments);
    let mut bridge = shared.lock().unwrap();
    if bridge.driver.is_lent() {
        panic!("already borrowed");
    }
    let (tree, mut recorder) = bridge
        .driver
        .declare(function_name, &keywords)
        .map_err(|error| anyhow::Error::msg(error.message))?;
    let report = if bridge.refuse_declarations_of.as_deref() == Some(function_name) {
        EngineError { has_error: true, message: "refused by the engine".to_string() }
    } else {
        recorder.declarations.push(tree);
        EngineError { has_error: false, message: String::new() }
    };
    bridge
        .driver
        .declaration_done(recorder, &report)
        .map_err(|error| anyhow::Error::msg(error.message))
}

fn declaration_function(shared: &Shared, function_name: &str) -> NativeFunction {
    let shared = shared.clone();
    let owned_name = function_name.to_owned();
    NativeFunction::new_direct(
        move |_eval: &mut Evaluator, args: &Arguments| {
            let names = args.names()?;
            declare(&shared, owned_name.as_str(), &names)?;
            Ok(Value::new_none())
        },
        function_name.to_owned(),
    )
}

fn template_module(shared: &Shared, namespace: &TemplateNamespace) -> FrozenModule {
    let module = Module::new();
    for function in namespace.functions() {
        let stand_in = declaration_function(shared, function.name());
        module.set(function.name(), stand_in.alloc_value(module.heap()));
    }
    module.freeze().unwrap()
}

fn globals_of(shared: &Shared) -> Globals {
    let mut builder = GlobalsBuilder::standard();
    builder.set("executable", declaration_function(shared, "executable"));
    builder.set("group", declaration_function(shared, "group"));
    builder.build()
}

/// Runs a script as the program does, against an engine that knows the given
/// templates per module. Gives back what the evaluation ended with and what the
/// engine saw.
fn run(
    text: &str,
    templates: &[(&str, &[&str])],
    refuse_declarations_of: Option<&str>,
) -> (Result<(), TranslationError>, Phase, Recorder) {
    let script = match ParsedScript::parse("BUILD.star", text.to_string()) {
        Ok(script) => script,
        Err(error) => panic!("test script does not parse: {}", error.message),
    };
    let shared: Shared = Arc::new(Mutex::new(Bridge {
        driver: Driver::new(Recorder::default(), script.loads().clone()),
        templates: templates
            .iter()
            .map(|(module_id, names)| {
                (module_id.to_string(), names.iter().map(|name| name.to_string()).collect())
            })
            .collect(),
        refuse_declarations_of: refuse_declarations_of.map(|name| name.to_string()),
    }));

    let mut failure = shared.lock().unwrap().driver.begin().err();
    while failure.is_none() {
        let mut bridge = shared.lock().unwrap();
        if bridge.driver.is_lent() {
            panic!("already borrowed");
        }
        match bridge.driver.next_import() {
            ImportStep::Execute { tree, context: mut recorder } => {
                let module_id =
                    bridge.driver.loads()[bridge.driver.namespaces().len()].clone();
                recorder.imports.push(tree);
                let (report, names) = match bridge.templates.get(&module_id) {
                    Some(names) => {
                        (EngineError { has_error: false, message: String::new() }, names.clone())
                    }
                    None => (
                        EngineError {
                            has_error: true,
                            message: format!("cannot import {}", module_id),
                        },
                        vec![],
                    ),
                };
                if let Err(error) = bridge.driver.import_done(recorder, &report, &names) {
                    failure = Some(error);
                    break;
                }
            }
            ImportStep::Ready => break,
            ImportStep::Halt(error) => {
                failure = Some(error);
                break;
            }
        }
    }

    let outcome = match failure {
        Some(error) => Err(error),
        None => {
            let loaded: Vec<(String, FrozenModule)> = {
                let bridge = shared.lock().unwrap();
                bridge
                    .driver
                    .loads()
                    .iter()
                    .zip(bridge.driver.namespaces().iter())
                    .map(|(module_id, namespace)| {
                        (module_id.clone(), template_module(&shared, namespace))
                    })
                    .collect()
            };
            let modules: HashMap<&str, &FrozenModule> =
                loaded.iter().map(|(module_id, module)| (module_id.as_str(), module)).collect();
            let mut loader = ReturnFileLoader { modules: &modules };
            let globals = globals_of(&shared);
            let module = Module::new();
            let script_outcome = {
                let mut evaluator = Evaluator::new(&module);
                evaluator.set_loader(&mut loader);
                match evaluator.eval_module(script.into_module(), &globals) {
                    Ok(_) => Ok(()),
                    Err(error) => Err(error.to_string()),
                }
            };
            shared.lock().unwrap().driver.finish(script_outcome)
        }
    };

    let bridge = match Arc::try_unwrap(shared) {
        Ok(mutex) => mutex.into_inner().unwrap(),
        Err(_) => {
            panic!("the declaration functions still hold the bridge")
        }
    };
    let phase = match bridge.driver.phase() {
        Phase::Idle => Phase::Idle,
        Phase::Loading => Phase::Loading,
        Phase::Evaluating => Phase::Evaluating,
        Phase::Completed => Phase::Completed,
        Phase::Failed(error) => Phase::Failed(error.duplicate()),
    };
    let recorder = bridge.driver.into_context().unwrap();
    (outcome, phase, recorder)
}

fn synthetic(kind: TokenKind, text: &str) -> Token {
    Token { kind, text: text.to_string(), line: 42, column: 42 }
}

fn quoted_literal(content: &str) -> SyntheticNode {
    SyntheticNode::Literal(synthetic(TokenKind::StringLiteral, &format!("\"{}\"", content)))
}

fn assignment(key: &str, right: SyntheticNode) -> SyntheticNode {
    SyntheticNode::BinaryAssign {
        op: synthetic(TokenKind::Equal, "="),
        left: Box::new(SyntheticNode::Identifier(synthetic(TokenKind::Identifier, key))),
        right: Box::new(right),
    }
}

fn declaration(function: &str, name: &str, statements: Vec<SyntheticNode>) -> SyntheticNode {
    SyntheticNode::FunctionCall {
        function: synthetic(TokenKind::Identifier, function),
        args: Box::new(SyntheticNode::List(vec![quoted_literal(name)])),
        block: Some(Box::new(SyntheticNode::Block {
            begin: synthetic(TokenKind::LeftBrace, "{"),
            statements,
            end: Box::new(SyntheticNode::End(synthetic(TokenKind::RightBrace, "}"))),
        })),
    }
}

#[test]
fn script_declaration_with_flag_and_tags_reaches_the_engine() {
    let (outcome, phase, recorder) =
        run("executable(name = \"a\", flag = True, tags = [\"x\", \"y\"])\n", &[], None);
    assert_eq!(outcome, Ok(()));
    assert_eq!(phase, Phase::Completed);
    assert!(recorder.imports.is_empty());
    assert_eq!(
        recorder.declarations,
        vec![declaration(
            "executable",
            "a",
            vec![
                assignment("flag", SyntheticNode::Literal(synthetic(TokenKind::TrueToken, "true"))),
                assignment(
                    "tags",
                    SyntheticNode::List(vec![quoted_literal("x"), quoted_literal("y")])
                ),
            ]
        )]
    );
}

#[test]
fn script_with_loaded_template_declares_it_once() {
    let (outcome, phase, recorder) = run(
        "load(\"//build/widgets.gni\", \"widget\")\nwidget(name = \"w1\")\n",
        &[("//build/widgets.gni", &["widget"])],
        None,
    );
    assert_eq!(outcome, Ok(()));
    assert_eq!(phase, Phase::Completed);
    assert_eq!(recorder.imports, vec![import_call("//build/widgets.gni")]);
    assert_eq!(recorder.declarations, vec![declaration("widget", "w1", vec![])]);
}

#[test]
fn script_with_unsupported_load_runs_no_statement() {
    let (outcome, phase, recorder) = run(
        "load(\"//build/rules.bzl\", \"rule\")\nexecutable(name = \"a\")\n",
        &[("//build/rules.bzl", &["rule"])],
        None,
    );
    let error = outcome.unwrap_err();
    assert_eq!(error.phase, ErrorPhase::Loading);
    assert_eq!(error.message, "Only .gni loads are supported");
    assert!(matches!(phase, Phase::Failed(_)));
    assert!(recorder.imports.is_empty());
    assert!(recorder.declarations.is_empty());
}

#[test]
fn script_statements_run_in_source_order() {
    let (outcome, _, recorder) = run(
        "group(name = \"first\")\nexecutable(name = \"second\", deps = [\":first\"])\ngroup(name = \"third\")\n",
        &[],
        None,
    );
    assert_eq!(outcome, Ok(()));
    assert_eq!(
        recorder.declarations,
        vec![
            declaration("group", "first", vec![]),
            declaration(
                "executable",
                "second",
                vec![assignment("deps", SyntheticNode::List(vec![quoted_literal(":first")]))]
            ),
            declaration("group", "third", vec![]),
        ]
    );
}

#[test]
fn script_keyword_order_is_kept() {
    let (outcome, _, recorder) =
        run("executable(zeta = \"z\", name = \"n\", alpha = \"a\")\n", &[], None);
    assert_eq!(outcome, Ok(()));
    assert_eq!(
        recorder.declarations,
        vec![declaration(
            "executable",
            "n",
            vec![assignment("zeta", quoted_literal("z")), assignment("alpha", quoted_literal("a"))]
        )]
    );
}

#[test]
fn script_number_attribute_halts_the_evaluation() {
    let (outcome, phase, recorder) = run(
        "group(name = \"ok\")\nexecutable(name = \"a\", count = 3)\ngroup(name = \"never\")\n",
        &[],
        None,
    );
    let error = outcome.unwrap_err();
    assert_eq!(error.phase, ErrorPhase::Translating);
    assert_eq!(error.message, "don't know how to handle 3 in target attrs");
    assert!(matches!(phase, Phase::Failed(_)));
    assert_eq!(recorder.declarations, vec![declaration("group", "ok", vec![])]);
}

#[test]
fn script_mixed_list_names_the_element() {
    let (outcome, _, recorder) =
        run("executable(name = \"a\", deps = [\"x\", 1, \"y\"])\n", &[], None);
    assert_eq!(outcome.unwrap_err().message, "don't know how to handle 1 in list");
    assert!(recorder.declarations.is_empty());
}

#[test]
fn script_without_name_fails() {
    let (outcome, _, recorder) = run("executable(flag = True)\n", &[], None);
    assert_eq!(outcome.unwrap_err().message, "target has no name");
    assert!(recorder.declarations.is_empty());
}

#[test]
fn script_engine_refusal_halts_the_evaluation() {
    let (outcome, _, recorder) = run(
        "group(name = \"g\")\nexecutable(name = \"a\")\ngroup(name = \"never\")\n",
        &[],
        Some("executable"),
    );
    let error = outcome.unwrap_err();
    assert_eq!(error.phase, ErrorPhase::Executing);
    assert_eq!(error.message, "ERROR EXECUTING executable! refused by the engine");
    assert_eq!(recorder.declarations, vec![declaration("group", "g", vec![])]);
}

#[test]
fn script_import_refused_by_engine_runs_no_statement() {
    let (outcome, _, recorder) =
        run("load(\"//missing.gni\", \"widget\")\nwidget(name = \"w\")\n", &[], None);
    let error = outcome.unwrap_err();
    assert_eq!(error.phase, ErrorPhase::Importing);
    assert_eq!(error.message, "ERROR! cannot import //missing.gni");
    assert_eq!(recorder.imports, vec![import_call("//missing.gni")]);
    assert!(recorder.declarations.is_empty());
}

#[test]
fn script_error_of_its_own_is_reported() {
    let (outcome, phase, recorder) = run("group(name = \"g\")\nundefined_thing\n", &[], None);
    let error = outcome.unwrap_err();
    assert_eq!(error.phase, ErrorPhase::Evaluating);
    assert!(error.message.starts_with("failed with error "));
    assert!(matches!(phase, Phase::Failed(_)));
    assert!(recorder.declarations.len() <= 1);
}

#[test]
fn script_with_two_templates_uses_each_on_its_own() {
    let (outcome, _, recorder) = run(
        "load(\"//t.gni\", \"widget\", \"gadget\")\ngadget(name = \"g\", shiny = False)\nwidget(name = \"w\")\n",
        &[("//t.gni", &["widget", "gadget"])],
        None,
    );
    assert_eq!(outcome, Ok(()));
    assert_eq!(
        recorder.declarations,
        vec![
            declaration(
                "gadget",
                "g",
                vec![assignment(
                    "shiny",
                    SyntheticNode::Literal(synthetic(TokenKind::FalseToken, "false"))
                )]
            ),
            declaration("widget", "w", vec![]),
        ]
    );
}
