//! A bridge between a scripting front end and a build engine.
//!
//! A script describes build targets by calling declaration functions with keyword
//! arguments. The bridge turns every such call into the statement tree that the
//! engine executes, resolves the modules that a script loads into namespaces of
//! template functions, and keeps the order of one evaluation: loads first, then
//! statements, with the handle to the engine's execution context lent to one
//! engine call at a time.
//!
//! - [`token`] and [`node`]: the statement trees, made of synthetic tokens.
//! - [`value`]: scripting values and their translation into nodes.
//! - [`assembler`]: one declaration call, from keywords to a tree.
//! - [`import`]: the import statement, the load convention, template namespaces.
//! - [`script`]: parsing script text.
//! - [`driver`]: the evaluation of one script as a state machine.
//! - [`error`]: the failures, and the engine's reports.
//! - [`text`]: comparisons on text.

pub mod assembler;
pub mod driver;
pub mod error;
pub mod import;
pub mod node;
pub mod script;
pub mod text;
pub mod token;
pub mod value;
