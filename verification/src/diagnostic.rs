//! Structured diagnostics. Every fallible operation of the front end returns
//! either its value or one of these; rendering (coloring, printing) is
//! entirely the caller's concern.

use vstd::prelude::*;

use crate::token::{Pos, Token, TokenType};

verus! {

/// Severity classification of a diagnostic.
#[derive(Clone, Copy, Debug, PartialEq, Eq, Structural)]
pub enum Severity {
    Warning,
    Wrong,
}

/// Where a diagnostic points: at a whole offending token, or at a span.
#[derive(Debug, PartialEq)]
pub enum TokenElement {
    Ref(Token),
    Pos(Pos),
}

/// What went wrong, with the offending lexemes or categories carried as
/// plain values.
#[derive(Debug, PartialEq)]
pub enum DiagnosticKind {
    /// An operator that opens no grammar production here.
    UnexpectedSymbol(String),
    /// A keyword that opens no grammar production here.
    UnexpectedKeyword(String),
    /// A token category that opens no grammar production here.
    UnexpectedToken(TokenType),
    /// A specific lexeme was required; carries (expected, found).
    Expected(String, String),
    /// A specific token category was required; carries (expected, found).
    ExpectedTokenType(TokenType, TokenType),
    /// A statement must end in a newline; carries the lexeme found instead.
    ExpectedNewLine(String),
    /// A type expression was required; carries the lexeme found instead.
    ExpectedTypeExpression(String),
    /// This symbol cannot stand in a type expression.
    UnexpectedSymbolInType(String),
    /// The length expression of an array type did not fold to an integer.
    ArrayLengthNotInt,
    /// An operator was left dangling at the end of the input.
    EofInOperation,
    /// The token cursor was pushed past the end of the stream.
    OutsideTokenStack,
}

/// A diagnostic: severity, structured message, originating source file, and
/// an optional position.
#[derive(Debug, PartialEq)]
pub struct Diagnostic {
    pub severity: Severity,
    pub kind: DiagnosticKind,
    pub file: String,
    pub position: Option<TokenElement>,
}

impl Diagnostic {
    /// A diagnostic of the `Wrong` severity.
    pub fn wrong(kind: DiagnosticKind, file: String, position: Option<TokenElement>) -> (r:
        Diagnostic)
        ensures
            r.severity == Severity::Wrong,
            r.kind == kind,
            r.file == file,
            r.position == position,
    {
        Diagnostic { severity: Severity::Wrong, kind, file, position }
    }
}

} // verus!
