//! What holds of every program that type inference accepts: no type slot
//! is left open.
use vstd::prelude::*;
use crate::semantic::hir::{HIRExprView, HIRTypedBoundNameView, HIRView, TypedTrivialHIRExprView};
use crate::semantic::type_db::TypeDatabaseView;
use crate::semantic::type_inference_rules::{
    function_signature, infer_body, infer_expr, infer_leaves, infer_parameters, infer_program,
    infer_statement, lemma_infer_body, lemma_infer_program, Scope,
};

verus! {

/// The slot of the leaf holds a resolved type.
pub open spec fn leaf_resolved(leaf: TypedTrivialHIRExprView) -> bool {
    leaf.1 is Resolved
}

/// The slots of all leaves hold resolved types.
pub open spec fn leaves_resolved(leaves: Seq<TypedTrivialHIRExprView>) -> bool {
    forall|i: int| 0 <= i < leaves.len() ==> leaf_resolved(#[trigger] leaves[i])
}

/// Every type slot of the expression holds a resolved type.
pub open spec fn expr_resolved(expression: HIRExprView) -> bool {
    match expression {
        HIRExprView::Trivial(leaf) => leaf_resolved(leaf),
        HIRExprView::Cast(slot, leaf) => slot is Resolved && leaf_resolved(leaf),
        HIRExprView::BinaryOperation(lhs, _, rhs, slot) => leaf_resolved(lhs) && leaf_resolved(rhs)
            && slot is Resolved,
        HIRExprView::FunctionCall(function, args, slot) => leaf_resolved(function)
            && leaves_resolved(args) && slot is Resolved,
        HIRExprView::UnaryExpression(_, operand, slot) => leaf_resolved(operand)
            && slot is Resolved,
        HIRExprView::MemberAccess(object, _, slot) => leaf_resolved(object) && slot is Resolved,
        HIRExprView::Array(items, slot) => leaves_resolved(items) && slot is Resolved,
    }
}

/// The slots of all names hold resolved types.
pub open spec fn names_resolved(names: Seq<HIRTypedBoundNameView>) -> bool {
    forall|i: int| 0 <= i < names.len() ==> (#[trigger] names[i]).typename is Resolved
}

/// Every type slot of the statement, and of the statements inside it,
/// holds a resolved type.
pub open spec fn statement_resolved(statement: HIRView) -> bool
    decreases statement,
{
    match statement {
        HIRView::Assign { expression, .. } => expr_resolved(expression),
        HIRView::Declare { typename, expression, .. } => typename is Resolved && expr_resolved(
            expression,
        ),
        HIRView::DeclareFunction { parameters, body, return_type, .. } => names_resolved(
            parameters,
        ) && return_type is Resolved && forall|i: int|
            0 <= i < body.len() ==> statement_resolved(#[trigger] body[i]),
        HIRView::StructDeclaration { body, .. } => names_resolved(body),
        HIRView::FunctionCall { function, args } => leaf_resolved(function) && leaves_resolved(
            args,
        ),
        HIRView::If(condition, true_branch, false_branch) => leaf_resolved(condition) && (
        forall|i: int|
            0 <= i < true_branch.len() ==> statement_resolved(#[trigger] true_branch[i])) && (
        forall|i: int|
            0 <= i < false_branch.len() ==> statement_resolved(#[trigger] false_branch[i])),
        HIRView::Return(expression) => expr_resolved(expression),
        HIRView::EmptyReturn => true,
    }
}

/// Every type slot of the statements holds a resolved type.
pub open spec fn body_resolved(body: Seq<HIRView>) -> bool {
    forall|i: int| 0 <= i < body.len() ==> statement_resolved(#[trigger] body[i])
}

/// The statement is no declaration of a function or of a struct, and
/// holds none.
pub open spec fn plain_statement(statement: HIRView) -> bool
    decreases statement,
{
    match statement {
        HIRView::DeclareFunction { .. } => false,
        HIRView::StructDeclaration { .. } => false,
        HIRView::If(_, true_branch, false_branch) => (forall|i: int|
            0 <= i < true_branch.len() ==> plain_statement(#[trigger] true_branch[i])) && (
        forall|i: int|
            0 <= i < false_branch.len() ==> plain_statement(#[trigger] false_branch[i])),
        _ => true,
    }
}

/// The statements are no declarations of functions or of structs, and
/// hold none.
pub open spec fn plain_body(body: Seq<HIRView>) -> bool {
    forall|i: int| 0 <= i < body.len() ==> plain_statement(#[trigger] body[i])
}

/// The program consists of functions whose bodies declare no functions
/// and no structs.
pub open spec fn only_functions(mir: Seq<HIRView>) -> bool {
    forall|i: int|
        0 <= i < mir.len() ==> (#[trigger] mir[i]) is DeclareFunction && plain_body(
            mir[i]->DeclareFunction_body,
        )
}

/// Leaves that were inferred have resolved types.
pub proof fn lemma_leaves_resolved(
    type_db: TypeDatabaseView,
    scope: Scope,
    leaves: Seq<TypedTrivialHIRExprView>,
    on_function: Seq<char>,
    n: nat,
)
    requires
        n <= leaves.len(),
        infer_leaves(type_db, scope, leaves, on_function, n) is Ok,
    ensures
        leaves_resolved(infer_leaves(type_db, scope, leaves, on_function, n)->Ok_0),
    decreases n,
{
    if n > 0 {
        lemma_leaves_resolved(type_db, scope, leaves, on_function, (n - 1) as nat);
    }
}

/// An expression that was inferred has only resolved types.
pub proof fn lemma_expr_resolved(
    type_db: TypeDatabaseView,
    scope: Scope,
    expression: HIRExprView,
    type_hint: Option<crate::semantic::hir::TypeInstanceView>,
    on_function: Seq<char>,
)
    requires
        infer_expr(type_db, scope, expression, type_hint, on_function) is Ok,
    ensures
        expr_resolved(
            infer_expr(type_db, scope, expression, type_hint, on_function)->Ok_0.expression,
        ),
{
    match expression {
        HIRExprView::FunctionCall(function, args, _) => {
            if infer_leaves(type_db, scope, args, on_function, args.len()) is Ok {
                lemma_leaves_resolved(type_db, scope, args, on_function, args.len());
            }
        },
        HIRExprView::Array(items, _) => {
            if infer_leaves(type_db, scope, items, on_function, items.len()) is Ok {
                lemma_leaves_resolved(type_db, scope, items, on_function, items.len());
            }
        },
        _ => {},
    }
}

/// A statement that was inferred has only resolved types, if it neither
/// is nor holds a declaration of a function or of a struct.
pub proof fn lemma_statement_resolved(
    type_db: TypeDatabaseView,
    scope: Scope,
    statement: HIRView,
    on_function: Seq<char>,
)
    requires
        plain_statement(statement),
        infer_statement(type_db, scope, statement, on_function) is Ok,
    ensures
        statement_resolved(infer_statement(type_db, scope, statement, on_function)->Ok_0),
    decreases statement, 0nat,
{
    reveal(infer_statement);
    reveal(infer_body);
    match statement {
        HIRView::Declare { var, typename, expression } => {
            let hint = crate::semantic::type_inference_rules::slot_hint(
                type_db,
                typename,
                on_function,
            )->Ok_0;
            lemma_expr_resolved(type_db, scope, expression, hint, on_function);
        },
        HIRView::Assign { path, expression } => {
            lemma_expr_resolved(type_db, scope, expression, None, on_function);
        },
        HIRView::FunctionCall { function, args } => {
            lemma_leaves_resolved(type_db, scope, args, on_function, args.len());
        },
        HIRView::If(condition, true_branch, false_branch) => {
            assert(statement->If_1 == true_branch);
            assert(statement->If_2 == false_branch);
            lemma_body_resolved(type_db, scope, true_branch, on_function, true_branch.len());
            lemma_body_resolved(type_db, scope, false_branch, on_function, false_branch.len());
        },
        HIRView::Return(expression) => {
            lemma_expr_resolved(type_db, scope, expression, None, on_function);
        },
        _ => {},
    }
}

/// A body that was inferred has only resolved types, if it holds no
/// declaration of a function or of a struct.
pub proof fn lemma_body_resolved(
    type_db: TypeDatabaseView,
    scope: Scope,
    body: Seq<HIRView>,
    on_function: Seq<char>,
    n: nat,
)
    requires
        n <= body.len(),
        plain_body(body),
        infer_body(type_db, scope, body, on_function, n).failure is None,
    ensures
        infer_body(type_db, scope, body, on_function, n).statements.len() == n,
        body_resolved(infer_body(type_db, scope, body, on_function, n).statements),
    decreases body, n,
{
    lemma_infer_body(type_db, scope, body, on_function, n);
    if n > 0 {
        let before = infer_body(type_db, scope, body, on_function, (n - 1) as nat);
        lemma_body_resolved(type_db, scope, body, on_function, (n - 1) as nat);
        lemma_statement_resolved(type_db, before.scope, body[n - 1], on_function);
    }
}

/// Parameters that were inferred have resolved types.
pub proof fn lemma_parameters_resolved(
    type_db: TypeDatabaseView,
    parameters: Seq<HIRTypedBoundNameView>,
    on_function: Seq<char>,
    n: nat,
)
    requires
        n <= parameters.len(),
        infer_parameters(type_db, parameters, on_function, n) is Ok,
    ensures
        names_resolved(infer_parameters(type_db, parameters, on_function, n)->Ok_0),
    decreases n,
{
    if n > 0 {
        lemma_parameters_resolved(type_db, parameters, on_function, (n - 1) as nat);
    }
}

/// After inference no type slot is pending or unresolved: in a program of
/// functions whose bodies declare no functions and no structs, every type
/// slot of every statement that inference gives holds a resolved type.
pub proof fn lemma_inference_resolves(
    type_db: TypeDatabaseView,
    globals: Scope,
    mir: Seq<HIRView>,
    n: nat,
)
    requires
        n <= mir.len(),
        only_functions(mir),
        infer_program(type_db, globals, mir, n).failure is None,
    ensures
        infer_program(type_db, globals, mir, n).statements.len() == n,
        body_resolved(infer_program(type_db, globals, mir, n).statements),
    decreases n,
{
    lemma_infer_program(type_db, globals, mir, n);
    if n > 0 {
        let before = infer_program(type_db, globals, mir, (n - 1) as nat);
        lemma_inference_resolves(type_db, globals, mir, (n - 1) as nat);
        let statement = mir[n - 1];
        assert(statement is DeclareFunction);
        match statement {
            HIRView::DeclareFunction { function_name, parameters, body, return_type } => {
                assert(statement->DeclareFunction_body == body);
                let signature = function_signature(
                    type_db,
                    function_name,
                    parameters,
                    return_type,
                )->Ok_0;
                lemma_parameters_resolved(type_db, parameters, function_name, parameters.len());
                let globals_now = crate::semantic::type_inference_rules::published(
                    before.globals,
                    function_name,
                    signature.0,
                    signature.1,
                );
                let scope = crate::semantic::type_inference_rules::function_scope(
                    globals_now,
                    signature.0,
                    signature.0.len(),
                );
                lemma_body_resolved(type_db, scope, body, function_name, body.len());
            },
            _ => {},
        }
    }
}

} // verus!
