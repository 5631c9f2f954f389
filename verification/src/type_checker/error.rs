//! Errors reported by the type checker.
use vstd::prelude::*;

use crate::text::{push_decimal, decimal};
use crate::token::Span;

verus! {

#[derive(Debug, Clone)]
pub enum TypeError {
    CannotFindName(String, Span),
    NotAssignable { target: String, value: String, span: Span },
    DuplicateIdentifier(String, Span),
    ImplicitAny { name: String, span: Span },
    ArgumentCountMismatch { expected: usize, found: usize, span: Span },
    NotAFunction { name: String, span: Span },
    IndexError { target: String, span: Span },
}

impl TypeError {
    pub open spec fn spec_span(self) -> Span {
        match self {
            TypeError::CannotFindName(_, span) => span,
            TypeError::NotAssignable { span, .. } => span,
            TypeError::DuplicateIdentifier(_, span) => span,
            TypeError::ImplicitAny { span, .. } => span,
            TypeError::ArgumentCountMismatch { span, .. } => span,
            TypeError::NotAFunction { span, .. } => span,
            TypeError::IndexError { span, .. } => span,
        }
    }

    /// The span the error points at.
    pub fn span(&self) -> (s: Span)
        ensures
            s == self.spec_span(),
    {
        match self {
            TypeError::CannotFindName(_, span) => *span,
            TypeError::NotAssignable { span, .. } => *span,
            TypeError::DuplicateIdentifier(_, span) => *span,
            TypeError::ImplicitAny { span, .. } => *span,
            TypeError::ArgumentCountMismatch { span, .. } => *span,
            TypeError::NotAFunction { span, .. } => *span,
            TypeError::IndexError { span, .. } => *span,
        }
    }

    pub open spec fn spec_message(self) -> Seq<char> {
        match self {
            TypeError::CannotFindName(name, _) => "Cannot find name '"@ + name@ + "'"@,
            TypeError::NotAssignable { target, value, .. } => "Type '"@ + value@
                + "' is not assignable to type '"@ + target@ + "'"@,
            TypeError::DuplicateIdentifier(name, _) => "Duplicate identifier '"@ + name@ + "'"@,
            TypeError::ImplicitAny { name, .. } => "Parameter '"@ + name@
                + "' implicitly has an 'any' type"@,
            TypeError::ArgumentCountMismatch { expected, found, .. } => "Expected "@ + decimal(
                expected as nat,
            ) + " arguments, but got "@ + decimal(found as nat),
            TypeError::NotAFunction { name, .. } => "'"@ + name@ + "' is not callable"@,
            TypeError::IndexError { target, .. } => "Cannot index into type '"@ + target@ + "'"@,
        }
    }

    /// The message of the error, as it is displayed.
    pub fn message(&self) -> (s: String)
        ensures
            s@ == self.spec_message(),
    {
        let mut s = String::new();
        match self {
            TypeError::CannotFindName(name, _) => {
                s.push_str("Cannot find name '");
                s.push_str(name.as_str());
                s.push_str("'");
            },
            TypeError::NotAssignable { target, value, .. } => {
                s.push_str("Type '");
                s.push_str(value.as_str());
                s.push_str("' is not assignable to type '");
                s.push_str(target.as_str());
                s.push_str("'");
            },
            TypeError::DuplicateIdentifier(name, _) => {
                s.push_str("Duplicate identifier '");
                s.push_str(name.as_str());
                s.push_str("'");
            },
            TypeError::ImplicitAny { name, .. } => {
                s.push_str("Parameter '");
                s.push_str(name.as_str());
                s.push_str("' implicitly has an 'any' type");
            },
            TypeError::ArgumentCountMismatch { expected, found, .. } => {
                s.push_str("Expected ");
                push_decimal(&mut s, *expected);
                s.push_str(" arguments, but got ");
                push_decimal(&mut s, *found);
            },
            TypeError::NotAFunction { name, .. } => {
                s.push_str("'");
                s.push_str(name.as_str());
                s.push_str("' is not callable");
            },
            TypeError::IndexError { target, .. } => {
                s.push_str("Cannot index into type '");
                s.push_str(target.as_str());
                s.push_str("'");
            },
        }
        s
    }
}

} // verus!
