//! The syntax tree that the parser hands to the analysis.
use vstd::prelude::*;
use crate::commons::float::Float;

verus! {

/// The operators of the language.
#[derive(Clone, Copy, Debug, PartialEq, Eq, Structural)]
pub enum Operator {
    Plus,
    Minus,
    Multiply,
    Divide,
    Mod,
    BitShiftLeft,
    BitShiftRight,
    Not,
    Equals,
    NotEquals,
    Or,
    And,
    Xor,
    Greater,
    GreaterEquals,
    Less,
    LessEquals,
}

/// A type as written in the source.
#[derive(Debug, PartialEq, Eq)]
pub enum ASTType {
    Simple(String),
    Generic(String, Vec<ASTType>),
}

/// A name with the type written beside it.
#[derive(Debug, PartialEq, Eq)]
pub struct TypeBoundName {
    pub name: String,
    pub name_type: ASTType,
}

/// An expression.
#[derive(Debug, PartialEq, Eq)]
pub enum Expr {
    IntegerValue(i128),
    FloatValue(Float),
    StringValue(String),
    BooleanValue(bool),
    NoneValue,
    Variable(String),
    FunctionCall(Box<Expr>, Vec<Expr>),
    IndexAccess(Box<Expr>, Box<Expr>),
    BinaryOperation(Box<Expr>, Operator, Box<Expr>),
    Parenthesized(Box<Expr>),
    UnaryExpression(Operator, Box<Expr>),
    MemberAccess(Box<Expr>, String),
    Array(Vec<Expr>),
}

/// A statement or declaration.
#[allow(inconsistent_fields)]
#[derive(Debug, PartialEq, Eq)]
pub enum AST {
    StandaloneExpr(Expr),
    Assign { path: Vec<String>, expression: Expr },
    Declare { var: TypeBoundName, expression: Expr },
    If(Expr, Vec<AST>, Vec<AST>),
    DeclareFunction {
        function_name: String,
        parameters: Vec<TypeBoundName>,
        body: Vec<AST>,
        return_type: Option<ASTType>,
    },
    StructDeclaration { struct_name: String, body: Vec<TypeBoundName> },
    Return(Option<Expr>),
    Root(Vec<AST>),
}

/// Mathematical model of an `ASTType`.
pub enum ASTTypeView {
    Simple(Seq<char>),
    Generic(Seq<char>, Seq<ASTTypeView>),
}

/// Mathematical model of a `TypeBoundName`.
pub struct TypeBoundNameView {
    pub name: Seq<char>,
    pub name_type: ASTTypeView,
}

/// Mathematical model of an `Expr`.
pub enum ExprView {
    IntegerValue(i128),
    FloatValue(Float),
    StringValue(Seq<char>),
    BooleanValue(bool),
    NoneValue,
    Variable(Seq<char>),
    FunctionCall(Box<ExprView>, Seq<ExprView>),
    IndexAccess(Box<ExprView>, Box<ExprView>),
    BinaryOperation(Box<ExprView>, Operator, Box<ExprView>),
    Parenthesized(Box<ExprView>),
    UnaryExpression(Operator, Box<ExprView>),
    MemberAccess(Box<ExprView>, Seq<char>),
    Array(Seq<ExprView>),
}

/// Mathematical model of an `AST`.
#[allow(inconsistent_fields)]
pub enum ASTView {
    StandaloneExpr(ExprView),
    Assign { path: Seq<Seq<char>>, expression: ExprView },
    Declare { var: TypeBoundNameView, expression: ExprView },
    If(ExprView, Seq<ASTView>, Seq<ASTView>),
    DeclareFunction {
        function_name: Seq<char>,
        parameters: Seq<TypeBoundNameView>,
        body: Seq<ASTView>,
        return_type: Option<ASTTypeView>,
    },
    StructDeclaration { struct_name: Seq<char>, body: Seq<TypeBoundNameView> },
    Return(Option<ExprView>),
    Root(Seq<ASTView>),
}

/// The texts of a list of names.
pub open spec fn name_views(names: Seq<String>) -> Seq<Seq<char>> {
    Seq::new(names.len(), |i: int| names[i]@)
}

impl ASTType {
    /// The model of the type, built from its parts.
    pub open spec fn model(&self) -> ASTTypeView
        decreases self,
    {
        match self {
            ASTType::Simple(name) => ASTTypeView::Simple(name@),
            ASTType::Generic(name, args) => ASTTypeView::Generic(
                name@,
                Seq::new(
                    args.len() as nat,
                    |i: int|
                        if 0 <= i < args.len() {
                            args[i].model()
                        } else {
                            arbitrary()
                        },
                ),
            ),
        }
    }
}

impl View for ASTType {
    type V = ASTTypeView;

    open spec fn view(&self) -> ASTTypeView {
        self.model()
    }
}

impl View for TypeBoundName {
    type V = TypeBoundNameView;

    open spec fn view(&self) -> TypeBoundNameView {
        TypeBoundNameView { name: self.name@, name_type: self.name_type@ }
    }
}

/// The models of a list of typed names.
pub open spec fn bound_name_views(names: Seq<TypeBoundName>) -> Seq<TypeBoundNameView> {
    Seq::new(names.len(), |i: int| names[i]@)
}

impl Expr {
    /// The model of the expression, built from its parts.
    pub open spec fn model(&self) -> ExprView
        decreases self,
    {
        match self {
            Expr::IntegerValue(i) => ExprView::IntegerValue(*i),
            Expr::FloatValue(f) => ExprView::FloatValue(*f),
            Expr::StringValue(s) => ExprView::StringValue(s@),
            Expr::BooleanValue(b) => ExprView::BooleanValue(*b),
            Expr::NoneValue => ExprView::NoneValue,
            Expr::Variable(v) => ExprView::Variable(v@),
            Expr::FunctionCall(function, args) => ExprView::FunctionCall(
                Box::new(function.model()),
                Seq::new(
                    args.len() as nat,
                    |i: int|
                        if 0 <= i < args.len() {
                            args[i].model()
                        } else {
                            arbitrary()
                        },
                ),
            ),
            Expr::IndexAccess(object, index) => ExprView::IndexAccess(
                Box::new(object.model()),
                Box::new(index.model()),
            ),
            Expr::BinaryOperation(lhs, op, rhs) => ExprView::BinaryOperation(
                Box::new(lhs.model()),
                *op,
                Box::new(rhs.model()),
            ),
            Expr::Parenthesized(inner) => ExprView::Parenthesized(Box::new(inner.model())),
            Expr::UnaryExpression(op, operand) => ExprView::UnaryExpression(
                *op,
                Box::new(operand.model()),
            ),
            Expr::MemberAccess(object, member) => ExprView::MemberAccess(
                Box::new(object.model()),
                member@,
            ),
            Expr::Array(items) => ExprView::Array(
                Seq::new(
                    items.len() as nat,
                    |i: int|
                        if 0 <= i < items.len() {
                            items[i].model()
                        } else {
                            arbitrary()
                        },
                ),
            ),
        }
    }
}

impl View for Expr {
    type V = ExprView;

    open spec fn view(&self) -> ExprView {
        self.model()
    }
}

/// The models of a list of expressions.
pub open spec fn expr_views(exprs: Seq<Expr>) -> Seq<ExprView> {
    Seq::new(exprs.len(), |i: int| exprs[i]@)
}

impl AST {
    /// The model of the tree, built from its parts.
    pub open spec fn model(&self) -> ASTView
        decreases self,
    {
        match self {
            AST::StandaloneExpr(e) => ASTView::StandaloneExpr(e@),
            AST::Assign { path, expression } => ASTView::Assign {
                path: name_views(path@),
                expression: expression@,
            },
            AST::Declare { var, expression } => ASTView::Declare {
                var: var@,
                expression: expression@,
            },
            AST::If(condition, true_branch, false_branch) => ASTView::If(
                condition@,
                Seq::new(
                    true_branch.len() as nat,
                    |i: int|
                        if 0 <= i < true_branch.len() {
                            true_branch[i].model()
                        } else {
                            arbitrary()
                        },
                ),
                Seq::new(
                    false_branch.len() as nat,
                    |i: int|
                        if 0 <= i < false_branch.len() {
                            false_branch[i].model()
                        } else {
                            arbitrary()
                        },
                ),
            ),
            AST::DeclareFunction { function_name, parameters, body, return_type } => {
                ASTView::DeclareFunction {
                    function_name: function_name@,
                    parameters: bound_name_views(parameters@),
                    body: Seq::new(
                        body.len() as nat,
                        |i: int|
                            if 0 <= i < body.len() {
                                body[i].model()
                            } else {
                                arbitrary()
                            },
                    ),
                    return_type: match return_type {
                        Some(t) => Some(t@),
                        None => None,
                    },
                }
            },
            AST::StructDeclaration { struct_name, body } => ASTView::StructDeclaration {
                struct_name: struct_name@,
                body: bound_name_views(body@),
            },
            AST::Return(e) => ASTView::Return(
                match e {
                    Some(e) => Some(e@),
                    None => None,
                },
            ),
            AST::Root(nodes) => ASTView::Root(
                Seq::new(
                    nodes.len() as nat,
                    |i: int|
                        if 0 <= i < nodes.len() {
                            nodes[i].model()
                        } else {
                            arbitrary()
                        },
                ),
            ),
        }
    }
}

impl View for AST {
    type V = ASTView;

    open spec fn view(&self) -> ASTView {
        self.model()
    }
}

/// The models of a list of statements.
pub open spec fn ast_views(nodes: Seq<AST>) -> Seq<ASTView> {
    Seq::new(nodes.len(), |i: int| nodes[i]@)
}

} // verus!
