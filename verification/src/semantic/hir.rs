//! The high-level intermediate representation: statements whose
//! expressions have only trivial operands, each with a slot for its type.
use vstd::prelude::*;
use crate::ast::Operator;
use crate::commons::float::Float;

verus! {

/// Identity of a type in the type database.
pub type TypeId = usize;

/// A leaf of an expression: a literal or a variable.
#[derive(Debug, PartialEq, Eq)]
pub enum TrivialHIRExpr {
    IntegerValue(i128),
    FloatValue(Float),
    StringValue(String),
    BooleanValue(bool),
    Variable(String),
    NoneValue,
}

/// A type as written in the source, or the type of a function made from
/// such types.
#[derive(Debug, PartialEq, Eq)]
pub enum HIRType {
    Simple(String),
    Generic(String, Vec<HIRType>),
    Function(Vec<HIRType>, Box<HIRType>),
}

/// A fully resolved type: no generic parameter is left open.
#[derive(Debug, PartialEq, Eq)]
pub enum TypeInstance {
    Simple(TypeId),
    Generic(TypeId, Vec<TypeInstance>),
    Function(Vec<TypeInstance>, Box<TypeInstance>),
}

/// A type slot: nothing yet, the type as written, or the resolved type.
#[derive(Debug, PartialEq, Eq)]
pub enum HIRTypeDef {
    Pending,
    Unresolved(HIRType),
    Resolved(TypeInstance),
}

/// A leaf with its type slot.
#[derive(Debug, PartialEq, Eq)]
pub struct TypedTrivialHIRExpr(pub TrivialHIRExpr, pub HIRTypeDef);

/// A name with its type slot.
#[derive(Debug, PartialEq, Eq)]
pub struct HIRTypedBoundName {
    pub name: String,
    pub typename: HIRTypeDef,
}

/// An expression. Every operand is a leaf; the last field of a composite
/// is the type slot of the whole expression.
#[derive(Debug, PartialEq, Eq)]
pub enum HIRExpr {
    Trivial(TypedTrivialHIRExpr),
    Cast(HIRTypeDef, TypedTrivialHIRExpr),
    BinaryOperation(TypedTrivialHIRExpr, Operator, TypedTrivialHIRExpr, HIRTypeDef),
    FunctionCall(TypedTrivialHIRExpr, Vec<TypedTrivialHIRExpr>, HIRTypeDef),
    UnaryExpression(Operator, TypedTrivialHIRExpr, HIRTypeDef),
    MemberAccess(TypedTrivialHIRExpr, String, HIRTypeDef),
    Array(Vec<TypedTrivialHIRExpr>, HIRTypeDef),
}

/// A statement.
#[allow(inconsistent_fields)]
#[derive(Debug, PartialEq, Eq)]
pub enum HIR {
    Assign { path: Vec<String>, expression: HIRExpr },
    Declare { var: String, typename: HIRTypeDef, expression: HIRExpr },
    DeclareFunction {
        function_name: String,
        parameters: Vec<HIRTypedBoundName>,
        body: Vec<HIR>,
        return_type: HIRTypeDef,
    },
    StructDeclaration { struct_name: String, body: Vec<HIRTypedBoundName> },
    FunctionCall { function: TypedTrivialHIRExpr, args: Vec<TypedTrivialHIRExpr> },
    If(TypedTrivialHIRExpr, Vec<HIR>, Vec<HIR>),
    Return(HIRExpr),
    EmptyReturn,
}

/// Mathematical model of a `TrivialHIRExpr`.
pub enum TrivialHIRExprView {
    IntegerValue(i128),
    FloatValue(Float),
    StringValue(Seq<char>),
    BooleanValue(bool),
    Variable(Seq<char>),
    NoneValue,
}

/// Mathematical model of a `HIRType`.
pub enum HIRTypeView {
    Simple(Seq<char>),
    Generic(Seq<char>, Seq<HIRTypeView>),
    Function(Seq<HIRTypeView>, Box<HIRTypeView>),
}

/// Mathematical model of a `TypeInstance`.
pub enum TypeInstanceView {
    Simple(TypeId),
    Generic(TypeId, Seq<TypeInstanceView>),
    Function(Seq<TypeInstanceView>, Box<TypeInstanceView>),
}

/// Mathematical model of a `HIRTypeDef`.
pub enum HIRTypeDefView {
    Pending,
    Unresolved(HIRTypeView),
    Resolved(TypeInstanceView),
}

/// Mathematical model of a `TypedTrivialHIRExpr`.
pub struct TypedTrivialHIRExprView(pub TrivialHIRExprView, pub HIRTypeDefView);

/// Mathematical model of a `HIRTypedBoundName`.
pub struct HIRTypedBoundNameView {
    pub name: Seq<char>,
    pub typename: HIRTypeDefView,
}

/// Mathematical model of a `HIRExpr`.
pub enum HIRExprView {
    Trivial(TypedTrivialHIRExprView),
    Cast(HIRTypeDefView, TypedTrivialHIRExprView),
    BinaryOperation(TypedTrivialHIRExprView, Operator, TypedTrivialHIRExprView, HIRTypeDefView),
    FunctionCall(TypedTrivialHIRExprView, Seq<TypedTrivialHIRExprView>, HIRTypeDefView),
    UnaryExpression(Operator, TypedTrivialHIRExprView, HIRTypeDefView),
    MemberAccess(TypedTrivialHIRExprView, Seq<char>, HIRTypeDefView),
    Array(Seq<TypedTrivialHIRExprView>, HIRTypeDefView),
}

/// Mathematical model of a `HIR`.
#[allow(inconsistent_fields)]
pub enum HIRView {
    Assign { path: Seq<Seq<char>>, expression: HIRExprView },
    Declare { var: Seq<char>, typename: HIRTypeDefView, expression: HIRExprView },
    DeclareFunction {
        function_name: Seq<char>,
        parameters: Seq<HIRTypedBoundNameView>,
        body: Seq<HIRView>,
        return_type: HIRTypeDefView,
    },
    StructDeclaration { struct_name: Seq<char>, body: Seq<HIRTypedBoundNameView> },
    FunctionCall { function: TypedTrivialHIRExprView, args: Seq<TypedTrivialHIRExprView> },
    If(TypedTrivialHIRExprView, Seq<HIRView>, Seq<HIRView>),
    Return(HIRExprView),
    EmptyReturn,
}

impl View for TrivialHIRExpr {
    type V = TrivialHIRExprView;

    open spec fn view(&self) -> TrivialHIRExprView {
        match self {
            TrivialHIRExpr::IntegerValue(i) => TrivialHIRExprView::IntegerValue(*i),
            TrivialHIRExpr::FloatValue(f) => TrivialHIRExprView::FloatValue(*f),
            TrivialHIRExpr::StringValue(s) => TrivialHIRExprView::StringValue(s@),
            TrivialHIRExpr::BooleanValue(b) => TrivialHIRExprView::BooleanValue(*b),
            TrivialHIRExpr::Variable(v) => TrivialHIRExprView::Variable(v@),
            TrivialHIRExpr::NoneValue => TrivialHIRExprView::NoneValue,
        }
    }
}

impl HIRType {
    /// The model of the type, built from its parts.
    pub open spec fn model(&self) -> HIRTypeView
        decreases self,
    {
        match self {
            HIRType::Simple(name) => HIRTypeView::Simple(name@),
            HIRType::Generic(name, args) => HIRTypeView::Generic(
                name@,
                Seq::new(
                    args.len() as nat,
                    |i: int|
                        if 0 <= i < args.len() {
                            args[i].model()
                        } else {
                            arbitrary()
                        },
                ),
            ),
            HIRType::Function(args, return_type) => HIRTypeView::Function(
                Seq::new(
                    args.len() as nat,
                    |i: int|
                        if 0 <= i < args.len() {
                            args[i].model()
                        } else {
                            arbitrary()
                        },
                ),
                Box::new(return_type.model()),
            ),
        }
    }
}

impl View for HIRType {
    type V = HIRTypeView;

    open spec fn view(&self) -> HIRTypeView {
        self.model()
    }
}

/// The models of a list of written types.
pub open spec fn hir_type_views(types: Seq<HIRType>) -> Seq<HIRTypeView> {
    Seq::new(types.len(), |i: int| types[i]@)
}

impl TypeInstance {
    /// The model of the type, built from its parts.
    pub open spec fn model(&self) -> TypeInstanceView
        decreases self,
    {
        match self {
            TypeInstance::Simple(id) => TypeInstanceView::Simple(*id),
            TypeInstance::Generic(id, args) => TypeInstanceView::Generic(
                *id,
                Seq::new(
                    args.len() as nat,
                    |i: int|
                        if 0 <= i < args.len() {
                            args[i].model()
                        } else {
                            arbitrary()
                        },
                ),
            ),
            TypeInstance::Function(args, return_type) => TypeInstanceView::Function(
                Seq::new(
                    args.len() as nat,
                    |i: int|
                        if 0 <= i < args.len() {
                            args[i].model()
                        } else {
                            arbitrary()
                        },
                ),
                Box::new(return_type.model()),
            ),
        }
    }
}

impl View for TypeInstance {
    type V = TypeInstanceView;

    open spec fn view(&self) -> TypeInstanceView {
        self.model()
    }
}

/// The models of a list of resolved types.
pub open spec fn type_instance_views(types: Seq<TypeInstance>) -> Seq<TypeInstanceView> {
    Seq::new(types.len(), |i: int| types[i]@)
}

impl View for HIRTypeDef {
    type V = HIRTypeDefView;

    open spec fn view(&self) -> HIRTypeDefView {
        match self {
            HIRTypeDef::Pending => HIRTypeDefView::Pending,
            HIRTypeDef::Unresolved(t) => HIRTypeDefView::Unresolved(t@),
            HIRTypeDef::Resolved(t) => HIRTypeDefView::Resolved(t@),
        }
    }
}

impl View for TypedTrivialHIRExpr {
    type V = TypedTrivialHIRExprView;

    open spec fn view(&self) -> TypedTrivialHIRExprView {
        TypedTrivialHIRExprView(self.0@, self.1@)
    }
}

/// The models of a list of leaves.
pub open spec fn trivial_views(leaves: Seq<TypedTrivialHIRExpr>) -> Seq<TypedTrivialHIRExprView> {
    Seq::new(leaves.len(), |i: int| leaves[i]@)
}

impl View for HIRTypedBoundName {
    type V = HIRTypedBoundNameView;

    open spec fn view(&self) -> HIRTypedBoundNameView {
        HIRTypedBoundNameView { name: self.name@, typename: self.typename@ }
    }
}

/// The models of a list of typed names.
pub open spec fn hir_bound_name_views(names: Seq<HIRTypedBoundName>) -> Seq<HIRTypedBoundNameView> {
    Seq::new(names.len(), |i: int| names[i]@)
}

impl View for HIRExpr {
    type V = HIRExprView;

    open spec fn view(&self) -> HIRExprView {
        match self {
            HIRExpr::Trivial(e) => HIRExprView::Trivial(e@),
            HIRExpr::Cast(t, e) => HIRExprView::Cast(t@, e@),
            HIRExpr::BinaryOperation(lhs, op, rhs, t) => HIRExprView::BinaryOperation(
                lhs@,
                *op,
                rhs@,
                t@,
            ),
            HIRExpr::FunctionCall(function, args, t) => HIRExprView::FunctionCall(
                function@,
                trivial_views(args@),
                t@,
            ),
            HIRExpr::UnaryExpression(op, operand, t) => HIRExprView::UnaryExpression(
                *op,
                operand@,
                t@,
            ),
            HIRExpr::MemberAccess(object, member, t) => HIRExprView::MemberAccess(
                object@,
                member@,
                t@,
            ),
            HIRExpr::Array(items, t) => HIRExprView::Array(trivial_views(items@), t@),
        }
    }
}

impl HIR {
    /// The model of the statement, built from its parts.
    pub open spec fn model(&self) -> HIRView
        decreases self,
    {
        match self {
            HIR::Assign { path, expression } => HIRView::Assign {
                path: crate::ast::name_views(path@),
                expression: expression@,
            },
            HIR::Declare { var, typename, expression } => HIRView::Declare {
                var: var@,
                typename: typename@,
                expression: expression@,
            },
            HIR::DeclareFunction { function_name, parameters, body, return_type } => {
                HIRView::DeclareFunction {
                    function_name: function_name@,
                    parameters: hir_bound_name_views(parameters@),
                    body: Seq::new(
                        body.len() as nat,
                        |i: int|
                            if 0 <= i < body.len() {
                                body[i].model()
                            } else {
                                arbitrary()
                            },
                    ),
                    return_type: return_type@,
                }
            },
            HIR::StructDeclaration { struct_name, body } => HIRView::StructDeclaration {
                struct_name: struct_name@,
                body: hir_bound_name_views(body@),
            },
            HIR::FunctionCall { function, args } => HIRView::FunctionCall {
                function: function@,
                args: trivial_views(args@),
            },
            HIR::If(condition, true_branch, false_branch) => HIRView::If(
                condition@,
                Seq::new(
                    true_branch.len() as nat,
                    |i: int|
                        if 0 <= i < true_branch.len() {
                            true_branch[i].model()
                        } else {
                            arbitrary()
                        },
                ),
                Seq::new(
                    false_branch.len() as nat,
                    |i: int|
                        if 0 <= i < false_branch.len() {
                            false_branch[i].model()
                        } else {
                            arbitrary()
                        },
                ),
            ),
            HIR::Return(e) => HIRView::Return(e@),
            HIR::EmptyReturn => HIRView::EmptyReturn,
        }
    }
}

impl View for HIR {
    type V = HIRView;

    open spec fn view(&self) -> HIRView {
        self.model()
    }
}

/// The models of a list of statements.
pub open spec fn hir_views(statements: Seq<HIR>) -> Seq<HIRView> {
    Seq::new(statements.len(), |i: int| statements[i]@)
}

/// Copies a list of names.
pub fn clone_names(names: &Vec<String>) -> (copy: Vec<String>)
    ensures
        crate::ast::name_views(copy@) == crate::ast::name_views(names@),
{
    let mut copy: Vec<String> = Vec::new();
    let mut i: usize = 0;
    while i < names.len()
        invariant
            0 <= i <= names.len(),
            copy@.len() == i,
            forall|k: int| 0 <= k < i ==> (#[trigger] copy@[k])@ == names@[k]@,
        decreases names.len() - i,
    {
        copy.push(names[i].clone());
        i += 1;
    }
    assert(crate::ast::name_views(copy@) =~= crate::ast::name_views(names@));
    copy
}

impl Clone for TrivialHIRExpr {
    fn clone(&self) -> (copy: Self)
        ensures
            copy@ == self@,
    {
        match self {
            TrivialHIRExpr::IntegerValue(i) => TrivialHIRExpr::IntegerValue(*i),
            TrivialHIRExpr::FloatValue(f) => TrivialHIRExpr::FloatValue(*f),
            TrivialHIRExpr::StringValue(s) => TrivialHIRExpr::StringValue(s.clone()),
            TrivialHIRExpr::BooleanValue(b) => TrivialHIRExpr::BooleanValue(*b),
            TrivialHIRExpr::Variable(v) => TrivialHIRExpr::Variable(v.clone()),
            TrivialHIRExpr::NoneValue => TrivialHIRExpr::NoneValue,
        }
    }
}

/// Copies a list of written types.
pub fn clone_hir_types(types: &Vec<HIRType>) -> (copy: Vec<HIRType>)
    ensures
        hir_type_views(copy@) == hir_type_views(types@),
    decreases types,
{
    let mut copy: Vec<HIRType> = Vec::new();
    let mut i: usize = 0;
    while i < types.len()
        invariant
            0 <= i <= types.len(),
            copy@.len() == i,
            forall|k: int| 0 <= k < i ==> (#[trigger] copy@[k])@ == types@[k]@,
        decreases types.len() - i,
    {
        copy.push(types[i].clone());
        i += 1;
    }
    assert(hir_type_views(copy@) =~= hir_type_views(types@));
    copy
}

impl Clone for HIRType {
    fn clone(&self) -> (copy: Self)
        ensures
            copy@ == self@,
        decreases self,
    {
        match self {
            HIRType::Simple(name) => HIRType::Simple(name.clone()),
            HIRType::Generic(name, args) => {
                let copy = HIRType::Generic(name.clone(), clone_hir_types(args));
                proof {
                    lemma_hir_type_model(&copy);
                    lemma_hir_type_model(self);
                }
                copy
            },
            HIRType::Function(args, return_type) => {
                let copy = HIRType::Function(
                    clone_hir_types(args),
                    Box::new((**return_type).clone()),
                );
                proof {
                    lemma_hir_type_model(&copy);
                    lemma_hir_type_model(self);
                }
                copy
            },
        }
    }
}

/// The model of a written type in terms of the models of its parts.
pub proof fn lemma_hir_type_model(t: &HIRType)
    ensures
        t@ == (match t {
            HIRType::Simple(name) => HIRTypeView::Simple(name@),
            HIRType::Generic(name, args) => HIRTypeView::Generic(name@, hir_type_views(args@)),
            HIRType::Function(args, return_type) => HIRTypeView::Function(
                hir_type_views(args@),
                Box::new(return_type@),
            ),
        }),
{
    match t {
        HIRType::Simple(name) => {},
        HIRType::Generic(name, args) => {
            assert(t@->Generic_1 =~= hir_type_views(args@));
        },
        HIRType::Function(args, return_type) => {
            assert(t@->Function_0 =~= hir_type_views(args@));
        },
    }
}

/// Copies a list of resolved types.
pub fn clone_type_instances(types: &Vec<TypeInstance>) -> (copy: Vec<TypeInstance>)
    ensures
        type_instance_views(copy@) == type_instance_views(types@),
    decreases types,
{
    let mut copy: Vec<TypeInstance> = Vec::new();
    let mut i: usize = 0;
    while i < types.len()
        invariant
            0 <= i <= types.len(),
            copy@.len() == i,
            forall|k: int| 0 <= k < i ==> (#[trigger] copy@[k])@ == types@[k]@,
        decreases types.len() - i,
    {
        copy.push(types[i].clone());
        i += 1;
    }
    assert(type_instance_views(copy@) =~= type_instance_views(types@));
    copy
}

impl Clone for TypeInstance {
    fn clone(&self) -> (copy: Self)
        ensures
            copy@ == self@,
        decreases self,
    {
        match self {
            TypeInstance::Simple(id) => TypeInstance::Simple(*id),
            TypeInstance::Generic(id, args) => {
                let copy = TypeInstance::Generic(*id, clone_type_instances(args));
                proof {
                    lemma_type_instance_model(&copy);
                    lemma_type_instance_model(self);
                }
                copy
            },
            TypeInstance::Function(args, return_type) => {
                let copy = TypeInstance::Function(
                    clone_type_instances(args),
                    Box::new((**return_type).clone()),
                );
                proof {
                    lemma_type_instance_model(&copy);
                    lemma_type_instance_model(self);
                }
                copy
            },
        }
    }
}

/// The model of a resolved type in terms of the models of its parts.
pub proof fn lemma_type_instance_model(t: &TypeInstance)
    ensures
        t@ == (match t {
            TypeInstance::Simple(id) => TypeInstanceView::Simple(*id),
            TypeInstance::Generic(id, args) => TypeInstanceView::Generic(
                *id,
                type_instance_views(args@),
            ),
            TypeInstance::Function(args, return_type) => TypeInstanceView::Function(
                type_instance_views(args@),
                Box::new(return_type@),
            ),
        }),
{
    match t {
        TypeInstance::Simple(id) => {},
        TypeInstance::Generic(id, args) => {
            assert(t@->Generic_1 =~= type_instance_views(args@));
        },
        TypeInstance::Function(args, return_type) => {
            assert(t@->Function_0 =~= type_instance_views(args@));
        },
    }
}

impl Clone for HIRTypeDef {
    fn clone(&self) -> (copy: Self)
        ensures
            copy@ == self@,
    {
        match self {
            HIRTypeDef::Pending => HIRTypeDef::Pending,
            HIRTypeDef::Unresolved(t) => HIRTypeDef::Unresolved(t.clone()),
            HIRTypeDef::Resolved(t) => HIRTypeDef::Resolved(t.clone()),
        }
    }
}

impl Clone for TypedTrivialHIRExpr {
    fn clone(&self) -> (copy: Self)
        ensures
            copy@ == self@,
    {
        TypedTrivialHIRExpr(self.0.clone(), self.1.clone())
    }
}

/// Copies a list of leaves.
pub fn clone_trivials(leaves: &Vec<TypedTrivialHIRExpr>) -> (copy: Vec<TypedTrivialHIRExpr>)
    ensures
        trivial_views(copy@) == trivial_views(leaves@),
{
    let mut copy: Vec<TypedTrivialHIRExpr> = Vec::new();
    let mut i: usize = 0;
    while i < leaves.len()
        invariant
            0 <= i <= leaves.len(),
            copy@.len() == i,
            forall|k: int| 0 <= k < i ==> (#[trigger] copy@[k])@ == leaves@[k]@,
        decreases leaves.len() - i,
    {
        copy.push(leaves[i].clone());
        i += 1;
    }
    assert(trivial_views(copy@) =~= trivial_views(leaves@));
    copy
}

impl Clone for HIRTypedBoundName {
    fn clone(&self) -> (copy: Self)
        ensures
            copy@ == self@,
    {
        HIRTypedBoundName { name: self.name.clone(), typename: self.typename.clone() }
    }
}

/// Copies a list of typed names.
pub fn clone_bound_names(names: &Vec<HIRTypedBoundName>) -> (copy: Vec<HIRTypedBoundName>)
    ensures
        hir_bound_name_views(copy@) == hir_bound_name_views(names@),
{
    let mut copy: Vec<HIRTypedBoundName> = Vec::new();
    let mut i: usize = 0;
    while i < names.len()
        invariant
            0 <= i <= names.len(),
            copy@.len() == i,
            forall|k: int| 0 <= k < i ==> (#[trigger] copy@[k])@ == names@[k]@,
        decreases names.len() - i,
    {
        copy.push(names[i].clone());
        i += 1;
    }
    assert(hir_bound_name_views(copy@) =~= hir_bound_name_views(names@));
    copy
}

impl Clone for HIRExpr {
    fn clone(&self) -> (copy: Self)
        ensures
            copy@ == self@,
    {
        match self {
            HIRExpr::Trivial(e) => HIRExpr::Trivial(e.clone()),
            HIRExpr::Cast(t, e) => HIRExpr::Cast(t.clone(), e.clone()),
            HIRExpr::BinaryOperation(lhs, op, rhs, t) => HIRExpr::BinaryOperation(
                lhs.clone(),
                *op,
                rhs.clone(),
                t.clone(),
            ),
            HIRExpr::FunctionCall(function, args, t) => HIRExpr::FunctionCall(
                function.clone(),
                clone_trivials(args),
                t.clone(),
            ),
            HIRExpr::UnaryExpression(op, operand, t) => HIRExpr::UnaryExpression(
                *op,
                operand.clone(),
                t.clone(),
            ),
            HIRExpr::MemberAccess(object, member, t) => HIRExpr::MemberAccess(
                object.clone(),
                member.clone(),
                t.clone(),
            ),
            HIRExpr::Array(items, t) => HIRExpr::Array(clone_trivials(items), t.clone()),
        }
    }
}

/// Copies a list of statements.
pub fn clone_statements(statements: &Vec<HIR>) -> (copy: Vec<HIR>)
    ensures
        hir_views(copy@) == hir_views(statements@),
    decreases statements,
{
    let mut copy: Vec<HIR> = Vec::new();
    let mut i: usize = 0;
    while i < statements.len()
        invariant
            0 <= i <= statements.len(),
            copy@.len() == i,
            forall|k: int| 0 <= k < i ==> (#[trigger] copy@[k])@ == statements@[k]@,
        decreases statements.len() - i,
    {
        copy.push(statements[i].clone());
        i += 1;
    }
    assert(hir_views(copy@) =~= hir_views(statements@));
    copy
}

impl Clone for HIR {
    fn clone(&self) -> (copy: Self)
        ensures
            copy@ == self@,
        decreases self,
    {
        let copy = match self {
            HIR::Assign { path, expression } => HIR::Assign {
                path: clone_names(path),
                expression: expression.clone(),
            },
            HIR::Declare { var, typename, expression } => HIR::Declare {
                var: var.clone(),
                typename: typename.clone(),
                expression: expression.clone(),
            },
            HIR::DeclareFunction { function_name, parameters, body, return_type } => {
                HIR::DeclareFunction {
                    function_name: function_name.clone(),
                    parameters: clone_bound_names(parameters),
                    body: clone_statements(body),
                    return_type: return_type.clone(),
                }
            },
            HIR::StructDeclaration { struct_name, body } => HIR::StructDeclaration {
                struct_name: struct_name.clone(),
                body: clone_bound_names(body),
            },
            HIR::FunctionCall { function, args } => HIR::FunctionCall {
                function: function.clone(),
                args: clone_trivials(args),
            },
            HIR::If(condition, true_branch, false_branch) => HIR::If(
                condition.clone(),
                clone_statements(true_branch),
                clone_statements(false_branch),
            ),
            HIR::Return(e) => HIR::Return(e.clone()),
            HIR::EmptyReturn => HIR::EmptyReturn,
        };
        proof {
            lemma_hir_model(&copy);
            lemma_hir_model(self);
        }
        copy
    }
}

/// The model of a statement in terms of the models of its parts.
pub proof fn lemma_hir_model(h: &HIR)
    ensures
        h@ == (match h {
            HIR::Assign { path, expression } => HIRView::Assign {
                path: crate::ast::name_views(path@),
                expression: expression@,
            },
            HIR::Declare { var, typename, expression } => HIRView::Declare {
                var: var@,
                typename: typename@,
                expression: expression@,
            },
            HIR::DeclareFunction { function_name, parameters, body, return_type } => {
                HIRView::DeclareFunction {
                    function_name: function_name@,
                    parameters: hir_bound_name_views(parameters@),
                    body: hir_views(body@),
                    return_type: return_type@,
                }
            },
            HIR::StructDeclaration { struct_name, body } => HIRView::StructDeclaration {
                struct_name: struct_name@,
                body: hir_bound_name_views(body@),
            },
            HIR::FunctionCall { function, args } => HIRView::FunctionCall {
                function: function@,
                args: trivial_views(args@),
            },
            HIR::If(condition, true_branch, false_branch) => HIRView::If(
                condition@,
                hir_views(true_branch@),
                hir_views(false_branch@),
            ),
            HIR::Return(e) => HIRView::Return(e@),
            HIR::EmptyReturn => HIRView::EmptyReturn,
        }),
{
    match h {
        HIR::DeclareFunction { function_name, parameters, body, return_type } => {
            assert(h@->DeclareFunction_body =~= hir_views(body@));
        },
        HIR::If(condition, true_branch, false_branch) => {
            assert(h@->If_1 =~= hir_views(true_branch@));
            assert(h@->If_2 =~= hir_views(false_branch@));
        },
        _ => {},
    }
}

/// Whether two lists of resolved types are the same.
pub fn same_types(a: &Vec<TypeInstance>, b: &Vec<TypeInstance>) -> (same: bool)
    ensures
        same == (type_instance_views(a@) == type_instance_views(b@)),
    decreases a,
{
    if a.len() != b.len() {
        assert(type_instance_views(a@).len() != type_instance_views(b@).len());
        return false;
    }
    let mut i: usize = 0;
    while i < a.len()
        invariant
            0 <= i <= a.len(),
            a.len() == b.len(),
            forall|k: int| 0 <= k < i ==> (#[trigger] a@[k])@ == b@[k]@,
        decreases a.len() - i,
    {
        if !a[i].same_as(&b[i]) {
            assert(type_instance_views(a@)[i as int] != type_instance_views(b@)[i as int]);
            return false;
        }
        i += 1;
    }
    assert(type_instance_views(a@) =~= type_instance_views(b@));
    true
}

impl TypeInstance {
    /// Whether this is the same type as `other`.
    pub fn same_as(&self, other: &TypeInstance) -> (same: bool)
        ensures
            same == (self@ == other@),
        decreases self,
    {
        proof {
            lemma_type_instance_model(self);
            lemma_type_instance_model(other);
        }
        match (self, other) {
            (TypeInstance::Simple(a), TypeInstance::Simple(b)) => *a == *b,
            (TypeInstance::Generic(a, a_args), TypeInstance::Generic(b, b_args)) => *a == *b
                && same_types(a_args, b_args),
            (
                TypeInstance::Function(a_args, a_return),
                TypeInstance::Function(b_args, b_return),
            ) => same_types(a_args, b_args) && (**a_return).same_as(&**b_return),
            _ => false,
        }
    }
}

} // verus!
