//! Resolves which build artifacts a filtered run of an integration-test suite
//! needs, from the test listing and the tests' own artifact manifest.
//!
//! [`invocation`] plans the command that has the tests print their manifest.
//! [`listing`] reads which tests the filter matched, [`manifest`] reads what
//! each test needs, and [`resolver`] joins the two into the
//! [`selections::BuildSelections`] to build. [`json`] holds the interface to
//! the JSON parser and [`invocation`] the one to target triples: what is
//! believed of the two is stated there, and all else is proved.

pub mod artifact;
pub mod error;
pub mod identifier;
pub mod invocation;
pub mod json;
pub mod listing;
pub mod manifest;
pub mod names;
pub mod resolver;
pub mod selections;
pub mod text;
