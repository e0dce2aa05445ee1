//! The ways in which a resolution fails.

use vstd::prelude::*;

verus! {

/// What a well-formed JSON document must hold, and did not.
#[derive(Clone, Copy, Debug, PartialEq, Eq, Structural)]
pub enum SchemaRule {
    /// The listing holds an object under the key `rust-suites`.
    SuitesObject,
    /// A manifest line is an array.
    RecordArray,
    /// Each element of a manifest line is an object.
    RecordObject,
    /// A record holds a string under the key `name`.
    RecordName,
    /// A record holds an array of strings under the key `required`.
    RecordRequired,
    /// A record holds an array of strings under the key `optional`.
    RecordOptional,
}

/// Malformed JSON: the text that did not parse, and the parser's message.
#[derive(Clone, Debug)]
pub struct ParseError {
    pub content: String,
    pub cause: String,
}

/// Well-formed JSON of the wrong shape: the text, and the rule it breaks.
#[derive(Clone, Debug)]
pub struct SchemaError {
    pub content: String,
    pub rule: SchemaRule,
}

/// An invocation that did not start or did not exit with success: its exit
/// status, where it has one, and what it printed.
#[derive(Clone, Debug)]
pub struct ProcessError {
    pub status: Option<i32>,
    pub output: String,
}

/// Why no build plan was produced. Every failure is final: nothing is
/// retried, and no partial plan is returned.
#[derive(Clone, Debug)]
pub enum ResolveError {
    Parse(ParseError),
    Schema(SchemaError),
    Process(ProcessError),
}

/// The mathematical content of a [`ResolveError`].
pub enum Failure {
    Parse { content: Seq<char>, cause: Seq<char> },
    Schema { content: Seq<char>, rule: SchemaRule },
    Process { status: Option<i32>, output: Seq<char> },
}

impl View for ResolveError {
    type V = Failure;

    open spec fn view(&self) -> Failure {
        match self {
            ResolveError::Parse(e) => Failure::Parse { content: e.content@, cause: e.cause@ },
            ResolveError::Schema(e) => Failure::Schema { content: e.content@, rule: e.rule },
            ResolveError::Process(e) => Failure::Process { status: e.status, output: e.output@ },
        }
    }
}

/// The key or shape that `rule` asks for, in words.
pub open spec fn rule_text(rule: SchemaRule) -> Seq<char> {
    match rule {
        SchemaRule::SuitesObject => "missing rust-suites"@,
        SchemaRule::RecordArray => "expected an array of test records"@,
        SchemaRule::RecordObject => "expected a test record"@,
        SchemaRule::RecordName => "missing name"@,
        SchemaRule::RecordRequired => "missing required"@,
        SchemaRule::RecordOptional => "missing optional"@,
    }
}

/// The message that a failure shows to the user.
pub open spec fn failure_text(f: Failure) -> Seq<char> {
    match f {
        Failure::Parse { content, cause } => "failed to parse: "@ + content + "\nerror: "@ + cause,
        Failure::Schema { content, rule } => rule_text(rule) + " in: "@ + content,
        Failure::Process { status, output } => "process failed: "@ + output,
    }
}

impl SchemaRule {
    /// The key or shape that the rule asks for, in words.
    pub fn describe(&self) -> (r: String)
        ensures
            r@ == rule_text(*self),
    {
        match self {
            SchemaRule::SuitesObject => String::from_str("missing rust-suites"),
            SchemaRule::RecordArray => String::from_str("expected an array of test records"),
            SchemaRule::RecordObject => String::from_str("expected a test record"),
            SchemaRule::RecordName => String::from_str("missing name"),
            SchemaRule::RecordRequired => String::from_str("missing required"),
            SchemaRule::RecordOptional => String::from_str("missing optional"),
        }
    }
}

impl ResolveError {
    /// The message that this failure shows to the user.
    pub fn message(&self) -> (r: String)
        ensures
            r@ == failure_text(self@),
    {
        match self {
            ResolveError::Parse(e) => {
                let mut m = String::from_str("failed to parse: ");
                m.append(e.content.as_str());
                m.append("\nerror: ");
                m.append(e.cause.as_str());
                m
            },
            ResolveError::Schema(e) => {
                let mut m = e.rule.describe();
                m.append(" in: ");
                m.append(e.content.as_str());
                m
            },
            ResolveError::Process(e) => {
                let mut m = String::from_str("process failed: ");
                m.append(e.output.as_str());
                m
            },
        }
    }
}

} // verus!
