//! Operator tables used when printing expressions.
use vstd::prelude::*;

use crate::ast::{AssignmentOp, BinaryOp, UnaryOp};

verus! {

/// Binding strength of a binary operator (higher binds tighter).
pub open spec fn spec_binary_precedence(op: BinaryOp) -> u8 {
    match op {
        BinaryOp::NullishCoalescing => 1,
        BinaryOp::LogicalOr => 2,
        BinaryOp::LogicalAnd => 3,
        BinaryOp::BitwiseOr => 4,
        BinaryOp::BitwiseXor => 5,
        BinaryOp::BitwiseAnd => 6,
        BinaryOp::Eq => 7,
        BinaryOp::NotEq => 7,
        BinaryOp::StrictEq => 7,
        BinaryOp::StrictNotEq => 7,
        BinaryOp::Lt => 8,
        BinaryOp::Gt => 8,
        BinaryOp::LtEq => 8,
        BinaryOp::GtEq => 8,
        BinaryOp::Lsh => 9,
        BinaryOp::Rsh => 9,
        BinaryOp::ZeroFillRsh => 9,
        BinaryOp::Add => 10,
        BinaryOp::Sub => 10,
        BinaryOp::Mul => 11,
        BinaryOp::Div => 11,
        BinaryOp::Rem => 11,
        BinaryOp::Exp => 12,
        BinaryOp::Instanceof => 7,
    }
}

pub fn binary_precedence(op: BinaryOp) -> (p: u8)
    ensures
        p == spec_binary_precedence(op),
{
    match op {
        BinaryOp::NullishCoalescing => 1,
        BinaryOp::LogicalOr => 2,
        BinaryOp::LogicalAnd => 3,
        BinaryOp::BitwiseOr => 4,
        BinaryOp::BitwiseXor => 5,
        BinaryOp::BitwiseAnd => 6,
        BinaryOp::Eq => 7,
        BinaryOp::NotEq => 7,
        BinaryOp::StrictEq => 7,
        BinaryOp::StrictNotEq => 7,
        BinaryOp::Lt => 8,
        BinaryOp::Gt => 8,
        BinaryOp::LtEq => 8,
        BinaryOp::GtEq => 8,
        BinaryOp::Lsh => 9,
        BinaryOp::Rsh => 9,
        BinaryOp::ZeroFillRsh => 9,
        BinaryOp::Add => 10,
        BinaryOp::Sub => 10,
        BinaryOp::Mul => 11,
        BinaryOp::Div => 11,
        BinaryOp::Rem => 11,
        BinaryOp::Exp => 12,
        BinaryOp::Instanceof => 7,
    }
}

/// How a binary operator is written.
pub open spec fn spec_op_str(op: BinaryOp) -> Seq<char> {
    match op {
        BinaryOp::NullishCoalescing => "??"@,
        BinaryOp::LogicalOr => "||"@,
        BinaryOp::LogicalAnd => "&&"@,
        BinaryOp::BitwiseOr => "|"@,
        BinaryOp::BitwiseXor => "^"@,
        BinaryOp::BitwiseAnd => "&"@,
        BinaryOp::Eq => "=="@,
        BinaryOp::NotEq => "!="@,
        BinaryOp::StrictEq => "==="@,
        BinaryOp::StrictNotEq => "!=="@,
        BinaryOp::Lt => "<"@,
        BinaryOp::Gt => ">"@,
        BinaryOp::LtEq => "<="@,
        BinaryOp::GtEq => ">="@,
        BinaryOp::Lsh => "<<"@,
        BinaryOp::Rsh => ">>"@,
        BinaryOp::ZeroFillRsh => ">>>"@,
        BinaryOp::Add => "+"@,
        BinaryOp::Sub => "-"@,
        BinaryOp::Mul => "*"@,
        BinaryOp::Div => "/"@,
        BinaryOp::Rem => "%"@,
        BinaryOp::Exp => "**"@,
        BinaryOp::Instanceof => "instanceof"@,
    }
}

pub fn op_str(op: BinaryOp) -> (s: &'static str)
    ensures
        s@ == spec_op_str(op),
{
    match op {
        BinaryOp::NullishCoalescing => "??",
        BinaryOp::LogicalOr => "||",
        BinaryOp::LogicalAnd => "&&",
        BinaryOp::BitwiseOr => "|",
        BinaryOp::BitwiseXor => "^",
        BinaryOp::BitwiseAnd => "&",
        BinaryOp::Eq => "==",
        BinaryOp::NotEq => "!=",
        BinaryOp::StrictEq => "===",
        BinaryOp::StrictNotEq => "!==",
        BinaryOp::Lt => "<",
        BinaryOp::Gt => ">",
        BinaryOp::LtEq => "<=",
        BinaryOp::GtEq => ">=",
        BinaryOp::Lsh => "<<",
        BinaryOp::Rsh => ">>",
        BinaryOp::ZeroFillRsh => ">>>",
        BinaryOp::Add => "+",
        BinaryOp::Sub => "-",
        BinaryOp::Mul => "*",
        BinaryOp::Div => "/",
        BinaryOp::Rem => "%",
        BinaryOp::Exp => "**",
        BinaryOp::Instanceof => "instanceof",
    }
}

/// How a unary operator is written (word operators carry a trailing space).
pub open spec fn spec_unary_op_str(op: UnaryOp) -> Seq<char> {
    match op {
        UnaryOp::Plus => "+"@,
        UnaryOp::Minus => "-"@,
        UnaryOp::Not => "!"@,
        UnaryOp::BitwiseNot => "~"@,
        UnaryOp::PlusPlus => "++"@,
        UnaryOp::MinusMinus => "--"@,
        UnaryOp::TypeOf => "typeof "@,
        UnaryOp::Void => "void "@,
        UnaryOp::Delete => "delete "@,
    }
}

pub fn unary_op_str(op: UnaryOp) -> (s: &'static str)
    ensures
        s@ == spec_unary_op_str(op),
{
    match op {
        UnaryOp::Plus => "+",
        UnaryOp::Minus => "-",
        UnaryOp::Not => "!",
        UnaryOp::BitwiseNot => "~",
        UnaryOp::PlusPlus => "++",
        UnaryOp::MinusMinus => "--",
        UnaryOp::TypeOf => "typeof ",
        UnaryOp::Void => "void ",
        UnaryOp::Delete => "delete ",
    }
}

/// How an assignment operator is written.
pub open spec fn spec_assign_op_str(op: AssignmentOp) -> Seq<char> {
    match op {
        AssignmentOp::Assign => "="@,
        AssignmentOp::AddAssign => "+="@,
        AssignmentOp::SubAssign => "-="@,
        AssignmentOp::MulAssign => "*="@,
        AssignmentOp::DivAssign => "/="@,
        AssignmentOp::ModAssign => "%="@,
        AssignmentOp::BitAndAssign => "&="@,
        AssignmentOp::BitOrAssign => "|="@,
    }
}

pub fn assign_op_str(op: AssignmentOp) -> (s: &'static str)
    ensures
        s@ == spec_assign_op_str(op),
{
    match op {
        AssignmentOp::Assign => "=",
        AssignmentOp::AddAssign => "+=",
        AssignmentOp::SubAssign => "-=",
        AssignmentOp::MulAssign => "*=",
        AssignmentOp::DivAssign => "/=",
        AssignmentOp::ModAssign => "%=",
        AssignmentOp::BitAndAssign => "&=",
        AssignmentOp::BitOrAssign => "|=",
    }
}

} // verus!
