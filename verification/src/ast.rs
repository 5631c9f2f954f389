//! The syntax tree of a TypeScript program. Number literals hold their
//! numeral in canonical decimal form.
use vstd::prelude::*;

use crate::token::Span;

verus! {

#[derive(Debug, PartialEq)]
pub struct Program {
    pub body: Vec<Statement>,
}

#[derive(Debug, PartialEq)]
pub struct Parameter {
    pub name: String,
    pub type_ann: Option<TypeAnn>,
    pub default_value: Option<Box<Expression>>,
    pub is_rest: bool,
    pub span: Span,
}

#[derive(Debug, PartialEq)]
pub struct ImportSpecifier {
    pub local: String,
    pub imported: Option<String>,
    pub span: Span,
    pub is_default: bool,
}

#[derive(Debug, PartialEq)]
pub enum ArrowFunctionBody {
    Expression(Box<Expression>),
    Block(Vec<Statement>),
}

#[allow(inconsistent_fields)]
#[derive(Debug, PartialEq)]
pub enum Statement {
    ExpressionStatement {
        expression: Box<Expression>,
        span: Span,
    },
    VariableDeclaration {
        kind: VariableKind,
        declarations: Vec<VariableDeclarator>,
        span: Span,
    },
    BlockStatement {
        body: Vec<Statement>,
        span: Span,
    },
    IfStatement {
        test: Box<Expression>,
        consequent: Box<Statement>,
        alternate: Option<Box<Statement>>,
        span: Span,
    },
    WhileStatement {
        test: Box<Expression>,
        body: Box<Statement>,
        span: Span,
    },
    ForStatement {
        init: Option<ForInit>,
        test: Option<Box<Expression>>,
        update: Option<Box<Expression>>,
        body: Box<Statement>,
        span: Span,
    },
    ForInOfStatement {
        kind: VariableKind,
        left: String,
        right: Box<Expression>,
        body: Box<Statement>,
        is_of: bool,
        span: Span,
    },
    ReturnStatement {
        value: Option<Box<Expression>>,
        span: Span,
    },
    FunctionDeclaration {
        name: String,
        params: Vec<Parameter>,
        return_type: Option<TypeAnn>,
        body: Box<Statement>,
        is_async: bool,
        type_params: Vec<(String, Option<TypeAnn>)>,
        span: Span,
    },
    ImportDeclaration {
        specifiers: Vec<ImportSpecifier>,
        source: String,
        is_type: bool,
        span: Span,
    },
    TypeAliasDeclaration {
        name: String,
        type_params: Vec<(String, Option<TypeAnn>)>,
        type_annotation: TypeAnn,
        span: Span,
    },
    InterfaceDeclaration {
        name: String,
        span: Span,
    },
    ExportDeclaration {
        declaration: Box<Statement>,
        span: Span,
    },
    SwitchStatement {
        discriminant: Box<Expression>,
        cases: Vec<SwitchCase>,
        span: Span,
    },
    ThrowStatement {
        argument: Box<Expression>,
        span: Span,
    },
    TryStatement {
        body: Box<Statement>,
        handler: Option<CatchClause>,
        finalizer: Option<Vec<Statement>>,
        span: Span,
    },
    BreakStatement {
        label: Option<String>,
        span: Span,
    },
    ContinueStatement {
        label: Option<String>,
        span: Span,
    },
    LabeledStatement {
        label: String,
        body: Box<Statement>,
        span: Span,
    },
    DoWhileStatement {
        test: Box<Expression>,
        body: Box<Statement>,
        span: Span,
    },
    ClassDeclaration {
        name: String,
        superclass: Option<Box<Expression>>,
        body: ClassBody,
        span: Span,
    },
    EnumDeclaration {
        name: String,
        members: Vec<EnumMember>,
        span: Span,
    },
}

#[derive(Debug, PartialEq)]
pub enum ForInit {
    Expression(Box<Expression>),
    VariableDeclaration { kind: VariableKind, declarations: Vec<VariableDeclarator> },
}

#[derive(Debug, PartialEq)]
pub struct SwitchCase {
    pub test: Option<Box<Expression>>,
    pub body: Vec<Statement>,
    pub span: Span,
}

#[derive(Debug, PartialEq)]
pub struct CatchClause {
    pub param: String,
    pub type_ann: Option<TypeAnn>,
    pub body: Vec<Statement>,
    pub span: Span,
}

#[derive(Debug, PartialEq)]
pub struct ClassBody {
    pub methods: Vec<MethodDefinition>,
    pub fields: Vec<ClassField>,
    pub span: Span,
}

#[derive(Debug, Clone, Copy, PartialEq, Eq, Structural)]
pub enum Visibility {
    Public,
    Private,
    Protected,
}

#[derive(Debug, PartialEq)]
pub struct ClassField {
    pub key: PropertyKey,
    pub type_ann: Option<TypeAnn>,
    pub init: Option<Box<Expression>>,
    pub is_static: bool,
    pub visibility: Option<Visibility>,
    pub span: Span,
}

#[derive(Debug, PartialEq)]
pub struct MethodDefinition {
    pub key: PropertyKey,
    pub kind: MethodKind,
    pub params: Vec<Parameter>,
    pub return_type: Option<TypeAnn>,
    pub body: Box<Statement>,
    pub is_static: bool,
    pub visibility: Option<Visibility>,
    pub span: Span,
}

#[derive(Debug, Clone, Copy, PartialEq, Eq, Structural)]
pub enum MethodKind {
    Constructor,
    Method,
}

#[derive(Debug, PartialEq)]
pub struct EnumMember {
    pub name: String,
    pub value: Option<String>,
    pub span: Span,
}


#[derive(Debug, PartialEq)]
pub enum VariableKind {
    Let,
    Const,
    Var,
}

#[derive(Debug, Clone, PartialEq)]
pub enum LiteralValue {
    String(String),
    Number(String),
    Boolean(bool),
}

#[derive(Debug, PartialEq)]
pub enum TypeAnn {
    Number,
    String,
    Boolean,
    Null,
    Undefined,
    Void,
    Any,
    Unknown,
    Never,
    Literal {
        value: LiteralValue,
    },
    Union {
        types: Vec<TypeAnn>,
    },
    Array {
        element: Box<TypeAnn>,
    },
    TypeRef {
        name: String,
        type_args: Vec<TypeAnn>,
    },
    Typeof {
        argument: Box<Expression>,
    },
    Function {
        params: Vec<TypeAnn>,
        return_type: Box<TypeAnn>,
    },
    Object {
        properties: Vec<ObjectTypeProperty>,
    },
    Intersection {
        types: Vec<TypeAnn>,
    },
    TemplateLiteral {
        quasis: Vec<String>,
        types: Vec<TypeAnn>,
    },
    KeyOf {
        type_ann: Box<TypeAnn>,
    },
    Conditional {
        check: Box<TypeAnn>,
        extends: Box<TypeAnn>,
        true_type: Box<TypeAnn>,
        false_type: Box<TypeAnn>,
    },
    Infer {
        name: String,
    },
    Mapped {
        key: String,
        target: Box<TypeAnn>,
        value: Box<TypeAnn>,
    },
    IndexedAccess {
        target: Box<TypeAnn>,
        index: Box<TypeAnn>,
    },
}

#[derive(Debug, PartialEq)]
pub struct ObjectTypeProperty {
    pub name: String,
    pub type_ann: TypeAnn,
    pub span: Span,
}

#[derive(Debug, PartialEq)]
pub struct VariableDeclarator {
    pub id: Box<Expression>,
    pub type_ann: Option<TypeAnn>,
    pub init: Option<Box<Expression>>,
    pub span: Span,
}

#[allow(inconsistent_fields)]
#[derive(Debug, PartialEq)]
pub enum Expression {
    NumberLiteral {
        value: String,
        span: Span,
    },
    StringLiteral {
        value: String,
        span: Span,
    },
    BooleanLiteral {
        value: bool,
        span: Span,
    },
    NullLiteral {
        span: Span,
    },
    UndefinedLiteral {
        span: Span,
    },
    Identifier {
        name: String,
        span: Span,
    },
    ArrayExpression {
        elements: Vec<Option<Box<Expression>>>,
        span: Span,
    },
    ObjectExpression {
        properties: Vec<Property>,
        span: Span,
    },
    BinaryExpression {
        left: Box<Expression>,
        operator: BinaryOp,
        right: Box<Expression>,
        span: Span,
    },
    UnaryExpression {
        operator: UnaryOp,
        operand: Box<Expression>,
        span: Span,
    },
    ConditionalExpression {
        test: Box<Expression>,
        consequent: Box<Expression>,
        alternate: Box<Expression>,
        span: Span,
    },
    CallExpression {
        callee: Box<Expression>,
        arguments: Vec<Box<Expression>>,
        optional: bool,
        span: Span,
    },
    MemberExpression {
        object: Box<Expression>,
        property: Box<Expression>,
        computed: bool,
        optional: bool,
        span: Span,
    },
    AssignmentExpression {
        left: Box<Expression>,
        operator: AssignmentOp,
        right: Box<Expression>,
        span: Span,
    },
    ParenthesizedExpression {
        expression: Box<Expression>,
        span: Span,
    },
    Placeholder {
        span: Span,
    },
    ArrowFunction {
        params: Vec<Parameter>,
        return_type: Option<TypeAnn>,
        body: ArrowFunctionBody,
        is_async: bool,
        span: Span,
    },
    TemplateLiteral {
        quasis: Vec<String>,
        expressions: Vec<Box<Expression>>,
        span: Span,
    },
    NewExpression {
        callee: Box<Expression>,
        arguments: Vec<Box<Expression>>,
        span: Span,
    },
    SpreadElement {
        argument: Box<Expression>,
        span: Span,
    },
    ThisExpression {
        span: Span,
    },
    SuperExpression {
        span: Span,
    },
    ObjectPattern {
        properties: Vec<ObjectPatternProperty>,
        span: Span,
    },
    ArrayPattern {
        elements: Vec<Option<Box<Expression>>>,
        span: Span,
    },
    AwaitExpression {
        argument: Box<Expression>,
        span: Span,
    },
    AsExpression {
        expression: Box<Expression>,
        type_ann: TypeAnn,
        span: Span,
    },
}


#[derive(Debug, Clone, Copy, PartialEq, Eq, Structural)]
pub enum BinaryOp {
    NullishCoalescing,
    LogicalOr,
    LogicalAnd,
    BitwiseOr,
    BitwiseXor,
    BitwiseAnd,
    Eq,
    NotEq,
    StrictEq,
    StrictNotEq,
    Lt,
    Gt,
    LtEq,
    GtEq,
    Lsh,
    Rsh,
    ZeroFillRsh,
    Add,
    Sub,
    Mul,
    Div,
    Rem,
    Exp,
    Instanceof,
}

#[derive(Debug, Clone, Copy, PartialEq, Eq, Structural)]
pub enum UnaryOp {
    Minus,
    Plus,
    Not,
    BitwiseNot,
    PlusPlus,
    MinusMinus,
    TypeOf,
    Void,
    Delete,
}

#[derive(Debug, Clone, Copy, PartialEq, Eq, Structural)]
pub enum AssignmentOp {
    Assign,
    AddAssign,
    SubAssign,
    MulAssign,
    DivAssign,
    ModAssign,
    BitAndAssign,
    BitOrAssign,
}

#[derive(Debug, PartialEq)]
pub struct Property {
    pub key: PropertyKey,
    pub value: Box<Expression>,
    pub shorthand: bool,
    pub is_spread: bool,
    pub span: Span,
}

#[derive(Debug, PartialEq)]
pub struct ObjectPatternProperty {
    pub key: PropertyKey,
    pub value: Box<Expression>,
    pub shorthand: bool,
    pub span: Span,
}

#[derive(Debug, PartialEq)]
pub enum PropertyKey {
    Identifier(String),
    String(String),
    Expression(Box<Expression>),
}

impl Statement {
    pub open spec fn spec_span(self) -> Span {
        match self {
            Statement::ExpressionStatement { span, .. } => span,
            Statement::VariableDeclaration { span, .. } => span,
            Statement::BlockStatement { span, .. } => span,
            Statement::IfStatement { span, .. } => span,
            Statement::WhileStatement { span, .. } => span,
            Statement::ForStatement { span, .. } => span,
            Statement::ForInOfStatement { span, .. } => span,
            Statement::ReturnStatement { span, .. } => span,
            Statement::FunctionDeclaration { span, .. } => span,
            Statement::ImportDeclaration { span, .. } => span,
            Statement::TypeAliasDeclaration { span, .. } => span,
            Statement::InterfaceDeclaration { span, .. } => span,
            Statement::ExportDeclaration { span, .. } => span,
            Statement::SwitchStatement { span, .. } => span,
            Statement::ThrowStatement { span, .. } => span,
            Statement::TryStatement { span, .. } => span,
            Statement::BreakStatement { span, .. } => span,
            Statement::ContinueStatement { span, .. } => span,
            Statement::LabeledStatement { span, .. } => span,
            Statement::DoWhileStatement { span, .. } => span,
            Statement::ClassDeclaration { span, .. } => span,
            Statement::EnumDeclaration { span, .. } => span,
        }
    }

    pub fn span(&self) -> (s: Span)
        ensures
            s == self.spec_span(),
    {
        match self {
            Statement::ExpressionStatement { span, .. } => *span,
            Statement::VariableDeclaration { span, .. } => *span,
            Statement::BlockStatement { span, .. } => *span,
            Statement::IfStatement { span, .. } => *span,
            Statement::WhileStatement { span, .. } => *span,
            Statement::ForStatement { span, .. } => *span,
            Statement::ForInOfStatement { span, .. } => *span,
            Statement::ReturnStatement { span, .. } => *span,
            Statement::FunctionDeclaration { span, .. } => *span,
            Statement::ImportDeclaration { span, .. } => *span,
            Statement::TypeAliasDeclaration { span, .. } => *span,
            Statement::InterfaceDeclaration { span, .. } => *span,
            Statement::ExportDeclaration { span, .. } => *span,
            Statement::SwitchStatement { span, .. } => *span,
            Statement::ThrowStatement { span, .. } => *span,
            Statement::TryStatement { span, .. } => *span,
            Statement::BreakStatement { span, .. } => *span,
            Statement::ContinueStatement { span, .. } => *span,
            Statement::LabeledStatement { span, .. } => *span,
            Statement::DoWhileStatement { span, .. } => *span,
            Statement::ClassDeclaration { span, .. } => *span,
            Statement::EnumDeclaration { span, .. } => *span,
        }
    }
}

impl Expression {
    pub open spec fn spec_span(self) -> Span {
        match self {
            Expression::NumberLiteral { span, .. } => span,
            Expression::StringLiteral { span, .. } => span,
            Expression::BooleanLiteral { span, .. } => span,
            Expression::NullLiteral { span, .. } => span,
            Expression::UndefinedLiteral { span, .. } => span,
            Expression::Identifier { span, .. } => span,
            Expression::ArrayExpression { span, .. } => span,
            Expression::ObjectExpression { span, .. } => span,
            Expression::BinaryExpression { span, .. } => span,
            Expression::UnaryExpression { span, .. } => span,
            Expression::ConditionalExpression { span, .. } => span,
            Expression::CallExpression { span, .. } => span,
            Expression::MemberExpression { span, .. } => span,
            Expression::AssignmentExpression { span, .. } => span,
            Expression::ParenthesizedExpression { span, .. } => span,
            Expression::Placeholder { span, .. } => span,
            Expression::ArrowFunction { span, .. } => span,
            Expression::TemplateLiteral { span, .. } => span,
            Expression::NewExpression { span, .. } => span,
            Expression::SpreadElement { span, .. } => span,
            Expression::ThisExpression { span, .. } => span,
            Expression::SuperExpression { span, .. } => span,
            Expression::ObjectPattern { span, .. } => span,
            Expression::ArrayPattern { span, .. } => span,
            Expression::AwaitExpression { span, .. } => span,
            Expression::AsExpression { span, .. } => span,
        }
    }

    pub fn span(&self) -> (s: Span)
        ensures
            s == self.spec_span(),
    {
        match self {
            Expression::NumberLiteral { span, .. } => *span,
            Expression::StringLiteral { span, .. } => *span,
            Expression::BooleanLiteral { span, .. } => *span,
            Expression::NullLiteral { span, .. } => *span,
            Expression::UndefinedLiteral { span, .. } => *span,
            Expression::Identifier { span, .. } => *span,
            Expression::ArrayExpression { span, .. } => *span,
            Expression::ObjectExpression { span, .. } => *span,
            Expression::BinaryExpression { span, .. } => *span,
            Expression::UnaryExpression { span, .. } => *span,
            Expression::ConditionalExpression { span, .. } => *span,
            Expression::CallExpression { span, .. } => *span,
            Expression::MemberExpression { span, .. } => *span,
            Expression::AssignmentExpression { span, .. } => *span,
            Expression::ParenthesizedExpression { span, .. } => *span,
            Expression::Placeholder { span, .. } => *span,
            Expression::ArrowFunction { span, .. } => *span,
            Expression::TemplateLiteral { span, .. } => *span,
            Expression::NewExpression { span, .. } => *span,
            Expression::SpreadElement { span, .. } => *span,
            Expression::ThisExpression { span, .. } => *span,
            Expression::SuperExpression { span, .. } => *span,
            Expression::ObjectPattern { span, .. } => *span,
            Expression::ArrayPattern { span, .. } => *span,
            Expression::AwaitExpression { span, .. } => *span,
            Expression::AsExpression { span, .. } => *span,
        }
    }
}

} // verus!
