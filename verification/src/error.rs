//! Runtime errors.

use vstd::prelude::*;
use vstd::string::StringExecFns;
use crate::token::Token;
use crate::text::{decimal, write_decimal, write_text};

verus! {

/// What went wrong at run time.
#[derive(PartialEq, Eq, Structural, Clone, Copy, Debug)]
pub enum RuntimeMessage {
    OperandMustBeANumber,
    OperandsMustBeNumbers,
    OperandsMustBeTwoNumbersOrTwoStrings,
    UndefinedVariable,
    UndefinedProperty,
    OnlyInstancesHaveProperties,
    CanOnlyCallFunctionsAndClasses,
    WrongArity { expected: usize, got: usize },
    SuperclassMustBeAClass,
    UnknownOperator,
}

/// A runtime error: what went wrong, and the token at which it did. For an
/// undefined variable or property the token is its name.
#[derive(Debug)]
pub struct RuntimeError {
    pub message: RuntimeMessage,
    pub token: Token,
}

impl Clone for RuntimeError {
    fn clone(&self) -> (r: Self)
        ensures
            r == *self,
    {
        RuntimeError { message: self.message, token: self.token.clone() }
    }
}

/// The text of a runtime error.
pub open spec fn error_text(error: RuntimeError) -> Seq<char> {
    match error.message {
        RuntimeMessage::OperandMustBeANumber => "Operand must be a number."@,
        RuntimeMessage::OperandsMustBeNumbers => "Operands must be numbers."@,
        RuntimeMessage::OperandsMustBeTwoNumbersOrTwoStrings =>
            "Operands must be two numbers or two strings."@,
        RuntimeMessage::UndefinedVariable => "Undefined variable "@ + error.token.token_value@
            + "."@,
        RuntimeMessage::UndefinedProperty => "Undefined property '"@ + error.token.token_value@
            + "'."@,
        RuntimeMessage::OnlyInstancesHaveProperties => "Only instances have properties."@,
        RuntimeMessage::CanOnlyCallFunctionsAndClasses => "Can only call functions and classes."@,
        RuntimeMessage::WrongArity { expected, got } => "Expected "@ + decimal(expected as nat)
            + " arguments but got "@ + decimal(got as nat) + "."@,
        RuntimeMessage::SuperclassMustBeAClass => "Superclass must be a class."@,
        RuntimeMessage::UnknownOperator => "Expression operator not right"@,
    }
}

/// The two lines that report a runtime error: the text, and the line of
/// the token.
pub open spec fn runtime_report(error: RuntimeError) -> Seq<char> {
    error_text(error) + "\n[line "@ + decimal(error.token.line as nat) + "]"@
}

impl RuntimeError {
    /// The text of the error.
    pub fn text(&self) -> (r: String)
        ensures
            r@ == error_text(*self),
    {
        match self.message {
            RuntimeMessage::OperandMustBeANumber => String::from_str("Operand must be a number."),
            RuntimeMessage::OperandsMustBeNumbers => String::from_str("Operands must be numbers."),
            RuntimeMessage::OperandsMustBeTwoNumbersOrTwoStrings => String::from_str(
                "Operands must be two numbers or two strings.",
            ),
            RuntimeMessage::UndefinedVariable => {
                let mut text = String::from_str("Undefined variable ");
                write_text(&mut text, self.token.token_value.as_str());
                write_text(&mut text, ".");
                text
            },
            RuntimeMessage::UndefinedProperty => {
                let mut text = String::from_str("Undefined property '");
                write_text(&mut text, self.token.token_value.as_str());
                write_text(&mut text, "'.");
                text
            },
            RuntimeMessage::OnlyInstancesHaveProperties => String::from_str(
                "Only instances have properties.",
            ),
            RuntimeMessage::CanOnlyCallFunctionsAndClasses => String::from_str(
                "Can only call functions and classes.",
            ),
            RuntimeMessage::WrongArity { expected, got } => {
                let mut text = String::from_str("Expected ");
                write_decimal(&mut text, expected as u64);
                write_text(&mut text, " arguments but got ");
                write_decimal(&mut text, got as u64);
                write_text(&mut text, ".");
                text
            },
            RuntimeMessage::SuperclassMustBeAClass => String::from_str(
                "Superclass must be a class.",
            ),
            RuntimeMessage::UnknownOperator => String::from_str("Expression operator not right"),
        }
    }

    /// The two lines that report the error.
    pub fn report(&self) -> (r: String)
        ensures
            r@ == runtime_report(*self),
    {
        let mut text = self.text();
        write_text(&mut text, "\n[line ");
        write_decimal(&mut text, self.token.line as u64);
        write_text(&mut text, "]");
        assert(text@ =~= runtime_report(*self));
        text
    }
}

} // verus!
