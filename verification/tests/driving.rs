use stargn::assembler::assemble;
use stargn::assembler::Keyword;
use stargn::driver::is_builtin_function;
use stargn::driver::Driver;
use stargn::driver::ImportStep;
use stargn::driver::Phase;
use stargn::error::EngineError;
use stargn::error::ErrorPhase;
use stargn::error::TranslationError;
use stargn::import::import_call;
use stargn::value::ScriptValue;

#[derive(Debug, PartialEq, Eq)]
struct Handle(u32);

fn accepted() -> EngineError {
    EngineError { has_error: false, message: String::new() }
}

fn refused(message: &str) -> EngineError {
    EngineError { has_error: true, message: message.to_string() }
}

fn named(name: &str) -> Vec<Keyword> {
    vec![Keyword { key: "name".to_string(), value: ScriptValue::Str(name.to_string()) }]
}

fn modules(ids: &[&str]) -> Vec<String> {
    ids.iter().map(|id| id.to_string()).collect()
}

fn usage(message: &str) -> TranslationError {
    TranslationError { phase: ErrorPhase::Usage, message: message.to_string() }
}

fn evaluating_driver() -> Driver<Handle> {
    let mut driver = Driver::new(Handle(1), vec![]);
    assert_eq!(driver.begin(), Ok(()));
    assert_eq!(driver.next_import(), ImportStep::Ready);
    driver
}

fn loading_driver(ids: &[&str]) -> Driver<Handle> {
    let mut driver = Driver::new(Handle(1), modules(ids));
    assert_eq!(driver.begin(), Ok(()));
    driver
}

#[test]
fn new_driver_is_idle_with_the_handle() {
    let driver = Driver::new(Handle(7), modules(&["a.gni"]));
    assert_eq!(driver.phase(), &Phase::Idle);
    assert!(!driver.is_lent());
    assert_eq!(driver.loads(), &modules(&["a.gni"]));
    assert!(driver.namespaces().is_empty());
    assert_eq!(driver.into_context(), Some(Handle(7)));
}

#[test]
fn phases_follow_in_order() {
    let mut driver = Driver::new(Handle(1), vec![]);
    assert_eq!(driver.phase(), &Phase::Idle);
    assert_eq!(driver.begin(), Ok(()));
    assert_eq!(driver.phase(), &Phase::Loading);
    assert_eq!(driver.next_import(), ImportStep::Ready);
    assert_eq!(driver.phase(), &Phase::Evaluating);
    assert!(!driver.is_lent());
    assert_eq!(driver.finish(Ok(())), Ok(()));
    assert_eq!(driver.phase(), &Phase::Completed);
}

#[test]
fn begin_twice_is_out_of_phase() {
    let mut driver = Driver::new(Handle(1), vec![]);
    assert_eq!(driver.begin(), Ok(()));
    assert_eq!(driver.begin(), Err(usage("call does not fit the evaluation's state")));
    assert!(matches!(driver.phase(), Phase::Failed(_)));
}

#[test]
fn next_import_before_begin_is_out_of_phase() {
    let mut driver = Driver::new(Handle(1), modules(&["a.gni"]));
    assert_eq!(
        driver.next_import(),
        ImportStep::Halt(usage("call does not fit the evaluation's state"))
    );
    assert!(matches!(driver.phase(), Phase::Failed(_)));
    assert!(!driver.is_lent());
}

#[test]
fn loaded_template_is_declared_once() {
    let mut driver = loading_driver(&["//build/widgets.gni"]);
    let context = match driver.next_import() {
        ImportStep::Execute { tree, context } => {
            assert_eq!(tree, import_call("//build/widgets.gni"));
            context
        }
        other => panic!("unexpected step {:?}", other),
    };
    assert_eq!(driver.phase(), &Phase::Loading);
    assert!(driver.is_lent());
    assert_eq!(driver.import_done(context, &accepted(), &modules(&["widget"])), Ok(()));
    assert_eq!(driver.namespaces().len(), 1);
    assert_eq!(driver.namespaces()[0].len(), 1);
    assert_eq!(driver.next_import(), ImportStep::Ready);
    assert_eq!(driver.phase(), &Phase::Evaluating);

    let (tree, context) = driver.declare("widget", &named("w1")).unwrap();
    assert_eq!(tree, assemble("widget", &named("w1")).unwrap());
    match &tree {
        stargn::node::SyntheticNode::FunctionCall { function, args, block } => {
            assert_eq!(function.text, "widget");
            match &**args {
                stargn::node::SyntheticNode::List(items) => {
                    assert_eq!(items.len(), 1);
                    match &items[0] {
                        stargn::node::SyntheticNode::Literal(token) => {
                            assert_eq!(token.text, "\"w1\"")
                        }
                        other => panic!("unexpected argument {:?}", other),
                    }
                }
                other => panic!("unexpected arguments {:?}", other),
            }
            match block {
                Some(body) => match &**body {
                    stargn::node::SyntheticNode::Block { statements, .. } => {
                        assert!(statements.is_empty())
                    }
                    other => panic!("unexpected body {:?}", other),
                },
                None => panic!("a declaration has a body"),
            }
        }
        other => panic!("unexpected tree {:?}", other),
    }
    assert!(driver.is_lent());
    assert_eq!(driver.declaration_done(context, &accepted()), Ok(()));
    assert!(!driver.is_lent());
    assert_eq!(driver.finish(Ok(())), Ok(()));
    assert_eq!(driver.phase(), &Phase::Completed);
    assert_eq!(driver.into_context(), Some(Handle(1)));
}

#[test]
fn unsupported_load_fails_before_any_statement() {
    let mut driver = loading_driver(&["//build/rules.bzl"]);
    match driver.next_import() {
        ImportStep::Halt(error) => {
            assert_eq!(error.phase, ErrorPhase::Loading);
            assert_eq!(error.message, "Only .gni loads are supported");
        }
        other => panic!("unexpected step {:?}", other),
    }
    assert!(matches!(driver.phase(), Phase::Failed(_)));
    let error = driver.declare("executable", &named("a")).unwrap_err();
    assert_eq!(error.message, "Only .gni loads are supported");
    let error = driver.finish(Ok(())).unwrap_err();
    assert_eq!(error.message, "Only .gni loads are supported");
    assert!(matches!(driver.phase(), Phase::Failed(_)));
}

#[test]
fn loads_resolve_in_order_until_one_is_unsupported() {
    let mut driver = loading_driver(&["a.gni", "b.star", "c.gni"]);
    let context = match driver.next_import() {
        ImportStep::Execute { tree, context } => {
            assert_eq!(tree, import_call("a.gni"));
            context
        }
        other => panic!("unexpected step {:?}", other),
    };
    assert_eq!(driver.import_done(context, &accepted(), &modules(&["t"])), Ok(()));
    assert!(matches!(driver.next_import(), ImportStep::Halt(_)));
    assert!(matches!(driver.phase(), Phase::Failed(_)));
    assert_eq!(driver.namespaces().len(), 1);
    assert!(!driver.is_lent());
}

#[test]
fn two_loads_give_two_namespaces_in_order() {
    let mut driver = loading_driver(&["a.gni", "b.gni"]);
    let context = match driver.next_import() {
        ImportStep::Execute { tree, context } => {
            assert_eq!(tree, import_call("a.gni"));
            context
        }
        other => panic!("unexpected step {:?}", other),
    };
    assert_eq!(driver.import_done(context, &accepted(), &modules(&["one"])), Ok(()));
    let context = match driver.next_import() {
        ImportStep::Execute { tree, context } => {
            assert_eq!(tree, import_call("b.gni"));
            context
        }
        other => panic!("unexpected step {:?}", other),
    };
    assert_eq!(driver.import_done(context, &accepted(), &modules(&["two", "three"])), Ok(()));
    assert_eq!(driver.next_import(), ImportStep::Ready);
    assert_eq!(driver.namespaces().len(), 2);
    assert!(driver.namespaces()[0].get("one").is_some());
    assert!(driver.namespaces()[1].get("two").is_some());
    assert!(driver.namespaces()[1].get("three").is_some());
    assert!(driver.is_registered("one"));
    assert!(driver.is_registered("three"));
    assert!(driver.is_registered("executable"));
    assert!(driver.is_registered("group"));
    assert!(!driver.is_registered("four"));
}

#[test]
fn import_refused_by_engine_fails_the_evaluation() {
    let mut driver = loading_driver(&["a.gni"]);
    let context = match driver.next_import() {
        ImportStep::Execute { context, .. } => context,
        other => panic!("unexpected step {:?}", other),
    };
    let error = driver.import_done(context, &refused("no such file"), &vec![]).unwrap_err();
    assert_eq!(error.phase, ErrorPhase::Importing);
    assert_eq!(error.message, "ERROR! no such file");
    assert_eq!(
        driver.phase(),
        &Phase::Failed(TranslationError {
            phase: ErrorPhase::Importing,
            message: "ERROR! no such file".to_string()
        })
    );
    assert!(!driver.is_lent());
    assert!(matches!(driver.next_import(), ImportStep::Halt(_)));
}

#[test]
fn builtins_are_executable_and_group() {
    assert!(is_builtin_function("executable"));
    assert!(is_builtin_function("group"));
    assert!(!is_builtin_function("library"));
    assert!(!is_builtin_function(""));
}

#[test]
fn builtin_declaration_round_trip() {
    let mut driver = evaluating_driver();
    let (tree, context) = driver.declare("executable", &named("hello")).unwrap();
    assert_eq!(tree, assemble("executable", &named("hello")).unwrap());
    assert_eq!(context, Handle(1));
    assert_eq!(driver.declaration_done(context, &accepted()), Ok(()));
    let (_, context) = driver.declare("group", &named("all")).unwrap();
    assert_eq!(driver.declaration_done(context, &accepted()), Ok(()));
    assert_eq!(driver.finish(Ok(())), Ok(()));
}

#[test]
fn handle_is_lent_from_declaration_to_report() {
    let mut driver = evaluating_driver();
    assert!(!driver.is_lent());
    let (_, context) = driver.declare("executable", &named("outer")).unwrap();
    assert_eq!(context, Handle(1));
    assert!(driver.is_lent());
    assert_eq!(driver.phase(), &Phase::Evaluating);
    assert_eq!(driver.declaration_done(context, &accepted()), Ok(()));
    assert!(!driver.is_lent());
    let (_, context) = driver.declare("executable", &named("next")).unwrap();
    assert!(driver.is_lent());
    assert_eq!(driver.declaration_done(context, &accepted()), Ok(()));
    assert_eq!(driver.into_context(), Some(Handle(1)));
}

#[test]
fn handle_is_lent_from_import_to_report() {
    let mut driver = loading_driver(&["a.gni"]);
    assert!(!driver.is_lent());
    let context = match driver.next_import() {
        ImportStep::Execute { context, .. } => context,
        other => panic!("unexpected step {:?}", other),
    };
    assert!(driver.is_lent());
    assert_eq!(driver.phase(), &Phase::Loading);
    assert_eq!(driver.import_done(context, &accepted(), &vec![]), Ok(()));
    assert!(!driver.is_lent());
    assert_eq!(driver.next_import(), ImportStep::Ready);
    assert!(!driver.is_lent());
}

#[test]
fn failed_requests_leave_the_handle_here() {
    let mut driver = evaluating_driver();
    assert!(driver.declare("executable", &vec![]).is_err());
    assert!(!driver.is_lent());
    assert_eq!(driver.into_context(), Some(Handle(1)));

    let mut driver = loading_driver(&["rules.bzl"]);
    assert!(matches!(driver.next_import(), ImportStep::Halt(_)));
    assert!(!driver.is_lent());
    assert_eq!(driver.into_context(), Some(Handle(1)));
}

#[test]
fn lent_handle_does_not_leave_with_the_driver() {
    let mut driver = evaluating_driver();
    let (_, context) = driver.declare("group", &named("g")).unwrap();
    assert_eq!(context, Handle(1));
    assert_eq!(driver.into_context(), None);
}

#[test]
fn report_of_the_other_call_does_not_end_the_loan() {
    let mut driver = evaluating_driver();
    let (_, _context) = driver.declare("group", &named("g")).unwrap();
    let error = driver.import_done(Handle(5), &accepted(), &vec![]).unwrap_err();
    assert_eq!(error, usage("call does not fit the evaluation's state"));
    assert!(driver.is_lent());
}

#[test]
fn declaration_before_evaluating_is_out_of_phase() {
    let mut driver = Driver::new(Handle(1), vec![]);
    let error = driver.declare("executable", &named("early")).unwrap_err();
    assert_eq!(error, usage("call does not fit the evaluation's state"));
    assert!(matches!(driver.phase(), Phase::Failed(_)));
}

#[test]
fn unregistered_function_is_refused() {
    let mut driver = evaluating_driver();
    let error = driver.declare("widget", &named("w")).unwrap_err();
    assert_eq!(error, usage("no declaration function is named widget"));
    assert!(!driver.is_lent());
    assert!(matches!(driver.phase(), Phase::Failed(_)));
}

#[test]
fn translation_failure_fails_the_evaluation_and_keeps_the_handle() {
    let mut driver = evaluating_driver();
    let error = driver.declare("executable", &vec![]).unwrap_err();
    assert_eq!(error.phase, ErrorPhase::Translating);
    assert_eq!(error.message, "target has no name");
    assert!(!driver.is_lent());
    let later = driver.finish(Err("evaluator gave up".to_string())).unwrap_err();
    assert_eq!(later.message, "target has no name");
}

#[test]
fn declaration_refused_by_engine_fails_with_function_name() {
    let mut driver = evaluating_driver();
    let (_, context) = driver.declare("executable", &named("dup")).unwrap();
    let error = driver.declaration_done(context, &refused("duplicate target")).unwrap_err();
    assert_eq!(error.phase, ErrorPhase::Executing);
    assert_eq!(error.message, "ERROR EXECUTING executable! duplicate target");
    assert!(!driver.is_lent());
    let error = driver.declare("executable", &named("next")).unwrap_err();
    assert_eq!(error.message, "ERROR EXECUTING executable! duplicate target");
}

#[test]
fn script_failure_is_reported() {
    let mut driver = evaluating_driver();
    let error = driver.finish(Err("Variable `x` not found".to_string())).unwrap_err();
    assert_eq!(error.phase, ErrorPhase::Evaluating);
    assert_eq!(error.message, "failed with error Variable `x` not found");
    assert!(matches!(driver.phase(), Phase::Failed(_)));
}

#[test]
fn completed_is_final() {
    let mut driver = evaluating_driver();
    assert_eq!(driver.finish(Ok(())), Ok(()));
    assert_eq!(driver.phase(), &Phase::Completed);
    assert!(driver.declare("executable", &named("late")).is_err());
    assert_eq!(driver.phase(), &Phase::Completed);
    assert!(matches!(driver.next_import(), ImportStep::Halt(_)));
    assert_eq!(driver.phase(), &Phase::Completed);
    assert!(driver.finish(Ok(())).is_err());
    assert_eq!(driver.phase(), &Phase::Completed);
    assert!(driver.declaration_done(Handle(2), &accepted()).is_err());
    assert_eq!(driver.phase(), &Phase::Completed);
    assert_eq!(driver.into_context(), Some(Handle(1)));
}

#[test]
fn finish_while_lent_is_out_of_phase() {
    let mut driver = evaluating_driver();
    let (_, _context) = driver.declare("executable", &named("a")).unwrap();
    let error = driver.finish(Ok(())).unwrap_err();
    assert_eq!(error, usage("call does not fit the evaluation's state"));
    assert_eq!(driver.into_context(), None);
}

#[test]
fn report_without_a_pending_call_is_out_of_phase() {
    let mut driver = evaluating_driver();
    let error = driver.declaration_done(Handle(9), &accepted()).unwrap_err();
    assert_eq!(error, usage("call does not fit the evaluation's state"));
    assert_eq!(driver.into_context(), Some(Handle(1)));
}
