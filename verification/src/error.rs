//! Fatal-error categories. Every detected error aborts the whole run: the
//! interpreter never recovers, so an `Error` travels up unchanged to the
//! caller of `run`.

use vstd::prelude::*;
use vstd::string::StringExecFns;

verus! {

/// The category of a fatal error, per the language's error taxonomy.
#[derive(Clone, Copy, Debug, PartialEq, Eq, Structural)]
pub enum ErrorKind {
    /// Scanning failed: illegal character, malformed `!`, a newline inside a
    /// string literal, or an integer literal too large for 64 bits.
    Lexical,
    /// Parsing failed: unexpected token for the construct being read.
    Syntax,
    /// A value's runtime tag did not fit where it was used: a declaration
    /// initializer against its declared type, an operator against its
    /// operands, or a non-boolean loop or branch condition.
    Type,
    /// A name could not be resolved: an undefined variable read, an
    /// assignment to an undeclared variable, or an unknown function.
    Name,
    /// Execution failed: division by zero, arithmetic overflow, a negative
    /// range or for-each bound, an empty-list head or tail, or an
    /// argument-count mismatch.
    Runtime,
    /// The step budget handed to the run was exhausted before the program
    /// finished. This stands in for the host call stack's depth limit: loop
    /// iterations and function calls each consume one unit of the budget.
    Resource,
}

/// A fatal error: its category plus a human-readable cause.
#[derive(Debug)]
pub struct Error {
    /// Which part of the taxonomy the error falls under.
    pub kind: ErrorKind,
    /// Diagnostic text for the person running the program. Contracts
    /// constrain only the category, never this text.
    pub msg: String,
}

impl Error {
    /// Builds an error of the given category.
    pub fn new(kind: ErrorKind, msg: &str) -> (e: Error)
        ensures
            e.kind == kind,
    {
        Error { kind, msg: String::from_str(msg) }
    }

    /// Builds an error of the given category whose text names its subject:
    /// the offending name, token or value.
    pub fn with_subject(kind: ErrorKind, msg: &str, subject: &str) -> (e: Error)
        ensures
            e.kind == kind,
    {
        let mut m = String::from_str(msg);
        m.append(": '");
        m.append(subject);
        m.append("'");
        Error { kind, msg: m }
    }
}

} // verus!
