//! What lowering produces, stated over the models of the syntax tree and
//! of the intermediate representation.
use vstd::prelude::*;
use crate::ast::{ASTTypeView, ASTView, ExprView, TypeBoundNameView};
use crate::semantic::hir::{
    HIRExprView, HIRTypeDefView, HIRTypeView, HIRTypedBoundNameView, HIRView, TrivialHIRExprView,
    TypedTrivialHIRExprView,
};
use crate::text::decimal;

verus! {

/// Name of the synthetic variable with the number `n`: `$` and the number.
pub open spec fn intermediary_name(n: int) -> Seq<char> {
    seq!['$'] + decimal(n)
}

/// The leaf that an expression is, if it is a literal or a variable.
pub open spec fn trivial_of(e: ExprView) -> Option<TrivialHIRExprView> {
    match e {
        ExprView::IntegerValue(i) => Some(TrivialHIRExprView::IntegerValue(i)),
        ExprView::FloatValue(f) => Some(TrivialHIRExprView::FloatValue(f)),
        ExprView::StringValue(s) => Some(TrivialHIRExprView::StringValue(s)),
        ExprView::BooleanValue(b) => Some(TrivialHIRExprView::BooleanValue(b)),
        ExprView::NoneValue => Some(TrivialHIRExprView::NoneValue),
        ExprView::Variable(v) => Some(TrivialHIRExprView::Variable(v)),
        _ => None,
    }
}

/// The expression is a literal or a variable.
pub open spec fn is_trivial(e: ExprView) -> bool {
    trivial_of(e) is Some
}

/// A leaf with an empty type slot.
pub open spec fn untyped(leaf: TrivialHIRExprView) -> TypedTrivialHIRExprView {
    TypedTrivialHIRExprView(leaf, HIRTypeDefView::Pending)
}

/// The direct operands of an expression.
pub open spec fn operands(e: ExprView) -> Seq<ExprView> {
    match e {
        ExprView::FunctionCall(function, args) => seq![*function] + args,
        ExprView::IndexAccess(object, index) => seq![*object, *index],
        ExprView::BinaryOperation(lhs, _, rhs) => seq![*lhs, *rhs],
        ExprView::Parenthesized(inner) => seq![*inner],
        ExprView::UnaryExpression(_, operand) => seq![*operand],
        ExprView::MemberAccess(object, _) => seq![*object],
        ExprView::Array(items) => items,
        _ => Seq::empty(),
    }
}

/// An expression is reducible when it is not trivial and has an operand
/// that is not trivial; an index access always is, since it becomes a call.
pub open spec fn is_reducible(e: ExprView) -> bool {
    !is_trivial(e) && (e is IndexAccess || e is Parenthesized || exists|i: int|
        0 <= i < operands(e).len() && !is_trivial(#[trigger] operands(e)[i]))
}

/// Lowering handles the expression: no parenthesis is left in it.
pub open spec fn lowerable_expr(e: ExprView) -> bool
    decreases e,
{
    match e {
        ExprView::FunctionCall(function, args) => lowerable_expr(*function) && forall|i: int|
            0 <= i < args.len() ==> lowerable_expr(#[trigger] args[i]),
        ExprView::IndexAccess(object, index) => lowerable_expr(*object) && lowerable_expr(*index),
        ExprView::BinaryOperation(lhs, _, rhs) => lowerable_expr(*lhs) && lowerable_expr(*rhs),
        ExprView::Parenthesized(_) => false,
        ExprView::UnaryExpression(_, operand) => lowerable_expr(*operand),
        ExprView::MemberAccess(object, _) => lowerable_expr(*object),
        ExprView::Array(items) => forall|i: int|
            0 <= i < items.len() ==> lowerable_expr(#[trigger] items[i]),
        _ => true,
    }
}

/// One more synthetic variable if the expression itself is to become a
/// leaf.
pub open spec fn own_temporary(reducing: bool) -> nat {
    if reducing {
        1
    } else {
        0
    }
}

/// Number of synthetic variables that lowering `e` declares. With
/// `reducing` the expression itself is bound to one, unless it is trivial.
pub open spec fn temporaries(e: ExprView, reducing: bool) -> nat
    decreases e, 0nat,
{
    match e {
        ExprView::FunctionCall(function, args) => temporaries(*function, true) + temporaries_all(
            args,
            args.len(),
        ) + own_temporary(reducing),
        ExprView::IndexAccess(object, index) => temporaries(*object, true) + 1 + temporaries(
            *index,
            true,
        ) + own_temporary(reducing),
        ExprView::BinaryOperation(lhs, _, rhs) => temporaries(*lhs, true) + temporaries(
            *rhs,
            true,
        ) + own_temporary(reducing),
        ExprView::UnaryExpression(_, operand) => temporaries(*operand, true) + own_temporary(
            reducing,
        ),
        ExprView::MemberAccess(object, _) => temporaries(*object, true) + own_temporary(reducing),
        ExprView::Array(items) => temporaries_all(items, items.len()) + own_temporary(reducing),
        _ => 0,
    }
}

/// Number of synthetic variables that lowering the first `n` of `es` as
/// operands declares.
pub open spec fn temporaries_all(es: Seq<ExprView>, n: nat) -> nat
    decreases es, n,
{
    if n == 0 || n > es.len() {
        0
    } else {
        temporaries_all(es, (n - 1) as nat) + temporaries(es[n - 1], true)
    }
}

/// What an expression is lowered to: the declarations of the synthetic
/// variables, in the order in which they are made, and the expression that
/// is left.
pub struct Reduced {
    pub declarations: Seq<HIRView>,
    pub expression: HIRExprView,
}

/// What a list of operands is lowered to: the declarations, and the leaf
/// of every operand.
pub struct ReducedOperands {
    pub declarations: Seq<HIRView>,
    pub leaves: Seq<TypedTrivialHIRExprView>,
}

/// The leaf that an expression is; only a trivial expression has one.
pub open spec fn leaf_of(e: HIRExprView) -> TypedTrivialHIRExprView {
    match e {
        HIRExprView::Trivial(leaf) => leaf,
        _ => arbitrary(),
    }
}

/// The declaration of the synthetic variable `n`.
pub open spec fn declare_intermediary(n: int, expression: HIRExprView) -> HIRView {
    HIRView::Declare {
        var: intermediary_name(n),
        typename: HIRTypeDefView::Pending,
        expression,
    }
}

/// A use of the synthetic variable `n`.
pub open spec fn intermediary_leaf(n: int) -> TypedTrivialHIRExprView {
    untyped(TrivialHIRExprView::Variable(intermediary_name(n)))
}

/// The last step of lowering a composite expression whose operands are
/// leaves by now: with `reducing` it is bound to the synthetic variable
/// `counter`, otherwise it is left as it is.
pub open spec fn finish(
    declarations: Seq<HIRView>,
    composite: HIRExprView,
    counter: int,
    reducing: bool,
) -> Reduced {
    if reducing {
        Reduced {
            declarations: declarations.push(declare_intermediary(counter, composite)),
            expression: HIRExprView::Trivial(intermediary_leaf(counter)),
        }
    } else {
        Reduced { declarations, expression: composite }
    }
}

/// Lowering of the expression `e`, where `counter` is the number of the
/// next synthetic variable. The operands are lowered to leaves from left
/// to right, each operand that is not trivial being bound to a synthetic
/// variable; an index access `object[index]` is lowered as the call
/// `object.__index__(index)`.
#[verifier::opaque]
pub open spec fn reduce(e: ExprView, counter: int, reducing: bool) -> Reduced
    decreases e, 0nat,
{
    match e {
        ExprView::FunctionCall(function, args) => {
            let callee = reduce(*function, counter, true);
            let rest = reduce_all(args, counter + temporaries(*function, true), args.len());
            finish(
                callee.declarations + rest.declarations,
                HIRExprView::FunctionCall(
                    leaf_of(callee.expression),
                    rest.leaves,
                    HIRTypeDefView::Pending,
                ),
                counter + temporaries(*function, true) + temporaries_all(args, args.len()),
                reducing,
            )
        },
        ExprView::IndexAccess(object, index) => {
            let target = reduce(*object, counter, true);
            let method = counter + temporaries(*object, true);
            let position = reduce(*index, method + 1, true);
            finish(
                target.declarations.push(
                    declare_intermediary(
                        method,
                        HIRExprView::MemberAccess(
                            leaf_of(target.expression),
                            "__index__"@,
                            HIRTypeDefView::Pending,
                        ),
                    ),
                ) + position.declarations,
                HIRExprView::FunctionCall(
                    intermediary_leaf(method),
                    seq![leaf_of(position.expression)],
                    HIRTypeDefView::Pending,
                ),
                method + 1 + temporaries(*index, true),
                reducing,
            )
        },
        ExprView::BinaryOperation(lhs, op, rhs) => {
            let left = reduce(*lhs, counter, true);
            let right = reduce(*rhs, counter + temporaries(*lhs, true), true);
            finish(
                left.declarations + right.declarations,
                HIRExprView::BinaryOperation(
                    leaf_of(left.expression),
                    op,
                    leaf_of(right.expression),
                    HIRTypeDefView::Pending,
                ),
                counter + temporaries(*lhs, true) + temporaries(*rhs, true),
                reducing,
            )
        },
        ExprView::UnaryExpression(op, operand) => {
            let inner = reduce(*operand, counter, true);
            finish(
                inner.declarations,
                HIRExprView::UnaryExpression(
                    op,
                    leaf_of(inner.expression),
                    HIRTypeDefView::Pending,
                ),
                counter + temporaries(*operand, true),
                reducing,
            )
        },
        ExprView::MemberAccess(object, member) => {
            let target = reduce(*object, counter, true);
            finish(
                target.declarations,
                HIRExprView::MemberAccess(
                    leaf_of(target.expression),
                    member,
                    HIRTypeDefView::Pending,
                ),
                counter + temporaries(*object, true),
                reducing,
            )
        },
        ExprView::Array(items) => {
            let all = reduce_all(items, counter, items.len());
            finish(
                all.declarations,
                HIRExprView::Array(all.leaves, HIRTypeDefView::Pending),
                counter + temporaries_all(items, items.len()),
                reducing,
            )
        },
        ExprView::Parenthesized(_) => Reduced {
            declarations: Seq::empty(),
            expression: arbitrary(),
        },
        _ => Reduced {
            declarations: Seq::empty(),
            expression: HIRExprView::Trivial(untyped(trivial_of(e)->0)),
        },
    }
}

/// Lowering of the first `n` of `es` as operands, from left to right.
#[verifier::opaque]
pub open spec fn reduce_all(es: Seq<ExprView>, counter: int, n: nat) -> ReducedOperands
    decreases es, n,
{
    if n == 0 || n > es.len() {
        ReducedOperands { declarations: Seq::empty(), leaves: Seq::empty() }
    } else {
        let before = reduce_all(es, counter, (n - 1) as nat);
        let last = reduce(es[n - 1], counter + temporaries_all(es, (n - 1) as nat), true);
        ReducedOperands {
            declarations: before.declarations + last.declarations,
            leaves: before.leaves.push(leaf_of(last.expression)),
        }
    }
}

/// An operand is always lowered to a leaf.
pub proof fn lemma_reduce_leaf(e: ExprView, counter: int)
    requires
        lowerable_expr(e),
    ensures
        reduce(e, counter, true).expression is Trivial,
{
    reveal(reduce);
    reveal(reduce_all);
}

/// A trivial expression is lowered to itself.
pub proof fn lemma_reduce_trivial(e: ExprView, counter: int, reducing: bool)
    requires
        is_trivial(e),
    ensures
        reduce(e, counter, reducing) == (Reduced {
            declarations: Seq::empty(),
            expression: HIRExprView::Trivial(untyped(trivial_of(e)->0)),
        }),
{
    reveal(reduce);
    reveal(reduce_all);
}

/// Lowering of a call.
pub proof fn lemma_reduce_function_call(
    function: ExprView,
    args: Seq<ExprView>,
    counter: int,
    reducing: bool,
)
    ensures
        reduce(ExprView::FunctionCall(Box::new(function), args), counter, reducing) == finish(
            reduce(function, counter, true).declarations + reduce_all(
                args,
                counter + temporaries(function, true),
                args.len(),
            ).declarations,
            HIRExprView::FunctionCall(
                leaf_of(reduce(function, counter, true).expression),
                reduce_all(args, counter + temporaries(function, true), args.len()).leaves,
                HIRTypeDefView::Pending,
            ),
            counter + temporaries(function, true) + temporaries_all(args, args.len()),
            reducing,
        ),
{
    reveal(reduce);
    reveal(reduce_all);
}

/// Lowering of an index access.
pub proof fn lemma_reduce_index_access(
    object: ExprView,
    index: ExprView,
    counter: int,
    reducing: bool,
)
    ensures
        reduce(ExprView::IndexAccess(Box::new(object), Box::new(index)), counter, reducing)
            == finish(
            reduce(object, counter, true).declarations.push(
                declare_intermediary(
                    counter + temporaries(object, true),
                    HIRExprView::MemberAccess(
                        leaf_of(reduce(object, counter, true).expression),
                        "__index__"@,
                        HIRTypeDefView::Pending,
                    ),
                ),
            ) + reduce(index, counter + temporaries(object, true) + 1, true).declarations,
            HIRExprView::FunctionCall(
                intermediary_leaf(counter + temporaries(object, true)),
                seq![
                    leaf_of(
                        reduce(index, counter + temporaries(object, true) + 1, true).expression,
                    ),
                ],
                HIRTypeDefView::Pending,
            ),
            counter + temporaries(object, true) + 1 + temporaries(index, true),
            reducing,
        ),
{
    reveal(reduce);
    reveal(reduce_all);
}

/// Lowering of a binary operation.
pub proof fn lemma_reduce_binary_operation(
    lhs: ExprView,
    op: crate::ast::Operator,
    rhs: ExprView,
    counter: int,
    reducing: bool,
)
    ensures
        reduce(ExprView::BinaryOperation(Box::new(lhs), op, Box::new(rhs)), counter, reducing)
            == finish(
            reduce(lhs, counter, true).declarations + reduce(
                rhs,
                counter + temporaries(lhs, true),
                true,
            ).declarations,
            HIRExprView::BinaryOperation(
                leaf_of(reduce(lhs, counter, true).expression),
                op,
                leaf_of(reduce(rhs, counter + temporaries(lhs, true), true).expression),
                HIRTypeDefView::Pending,
            ),
            counter + temporaries(lhs, true) + temporaries(rhs, true),
            reducing,
        ),
{
    reveal(reduce);
    reveal(reduce_all);
}

/// Lowering of a unary operation.
pub proof fn lemma_reduce_unary_expression(
    op: crate::ast::Operator,
    operand: ExprView,
    counter: int,
    reducing: bool,
)
    ensures
        reduce(ExprView::UnaryExpression(op, Box::new(operand)), counter, reducing) == finish(
            reduce(operand, counter, true).declarations,
            HIRExprView::UnaryExpression(
                op,
                leaf_of(reduce(operand, counter, true).expression),
                HIRTypeDefView::Pending,
            ),
            counter + temporaries(operand, true),
            reducing,
        ),
{
    reveal(reduce);
    reveal(reduce_all);
}

/// Lowering of a member access.
pub proof fn lemma_reduce_member_access(
    object: ExprView,
    member: Seq<char>,
    counter: int,
    reducing: bool,
)
    ensures
        reduce(ExprView::MemberAccess(Box::new(object), member), counter, reducing) == finish(
            reduce(object, counter, true).declarations,
            HIRExprView::MemberAccess(
                leaf_of(reduce(object, counter, true).expression),
                member,
                HIRTypeDefView::Pending,
            ),
            counter + temporaries(object, true),
            reducing,
        ),
{
    reveal(reduce);
    reveal(reduce_all);
}

/// Lowering of an array literal.
pub proof fn lemma_reduce_array(items: Seq<ExprView>, counter: int, reducing: bool)
    ensures
        reduce(ExprView::Array(items), counter, reducing) == finish(
            reduce_all(items, counter, items.len()).declarations,
            HIRExprView::Array(
                reduce_all(items, counter, items.len()).leaves,
                HIRTypeDefView::Pending,
            ),
            counter + temporaries_all(items, items.len()),
            reducing,
        ),
{
    reveal(reduce);
    reveal(reduce_all);
}

/// Lowering of no operands, and of one operand more.
pub proof fn lemma_reduce_all(es: Seq<ExprView>, counter: int, n: nat)
    requires
        n <= es.len(),
    ensures
        n == 0 ==> reduce_all(es, counter, n) == (ReducedOperands {
            declarations: Seq::empty(),
            leaves: Seq::empty(),
        }),
        n > 0 ==> reduce_all(es, counter, n) == (ReducedOperands {
            declarations: reduce_all(es, counter, (n - 1) as nat).declarations + reduce(
                es[n - 1],
                counter + temporaries_all(es, (n - 1) as nat),
                true,
            ).declarations,
            leaves: reduce_all(es, counter, (n - 1) as nat).leaves.push(
                leaf_of(
                    reduce(
                        es[n - 1],
                        counter + temporaries_all(es, (n - 1) as nat),
                        true,
                    ).expression,
                ),
            ),
        }),
{
    reveal(reduce);
    reveal(reduce_all);
}

/// The type written in the syntax tree, as the intermediate
/// representation holds it.
pub open spec fn hir_type_of(t: ASTTypeView) -> HIRTypeView
    decreases t,
{
    match t {
        ASTTypeView::Simple(name) => HIRTypeView::Simple(name),
        ASTTypeView::Generic(name, args) => HIRTypeView::Generic(
            name,
            Seq::new(
                args.len(),
                |i: int|
                    if 0 <= i < args.len() {
                        hir_type_of(args[i])
                    } else {
                        arbitrary()
                    },
            ),
        ),
    }
}

/// A typed name of the syntax tree, with its type as written.
pub open spec fn bound_name_of(name: TypeBoundNameView) -> HIRTypedBoundNameView {
    HIRTypedBoundNameView {
        name: name.name,
        typename: HIRTypeDefView::Unresolved(hir_type_of(name.name_type)),
    }
}

/// Typed names of the syntax tree, with their types as written.
pub open spec fn bound_names_of(names: Seq<TypeBoundNameView>) -> Seq<HIRTypedBoundNameView> {
    Seq::new(names.len(), |i: int| bound_name_of(names[i]))
}

/// The return type of a function: the one written, or `Void`.
pub open spec fn return_type_of(t: Option<ASTTypeView>) -> HIRTypeDefView {
    match t {
        Some(t) => HIRTypeDefView::Unresolved(hir_type_of(t)),
        None => HIRTypeDefView::Unresolved(HIRTypeView::Simple("Void"@)),
    }
}

/// Lowering handles the statement: its expressions have no parenthesis
/// left, and an expression that stands alone is a call.
pub open spec fn lowerable(ast: ASTView) -> bool
    decreases ast,
{
    match ast {
        ASTView::StandaloneExpr(e) => e is FunctionCall && lowerable_expr(e),
        ASTView::Assign { expression, .. } => lowerable_expr(expression),
        ASTView::Declare { expression, .. } => lowerable_expr(expression),
        ASTView::If(condition, true_branch, false_branch) => lowerable_expr(condition) && (
        forall|i: int| 0 <= i < true_branch.len() ==> lowerable(#[trigger] true_branch[i])) && (
        forall|i: int| 0 <= i < false_branch.len() ==> lowerable(#[trigger] false_branch[i])),
        ASTView::DeclareFunction { body, .. } => forall|i: int|
            0 <= i < body.len() ==> lowerable(#[trigger] body[i]),
        ASTView::StructDeclaration { .. } => true,
        ASTView::Return(e) => e matches Some(e) ==> lowerable_expr(e),
        ASTView::Root(nodes) => forall|i: int|
            0 <= i < nodes.len() ==> lowerable(#[trigger] nodes[i]),
    }
}

/// Number of synthetic variables that a statement leaves declared in the
/// scope it stands in. A function keeps its own to itself.
pub open spec fn used(ast: ASTView) -> nat
    decreases ast, 0nat,
{
    match ast {
        ASTView::StandaloneExpr(e) => temporaries(e, false),
        ASTView::Assign { expression, .. } => temporaries(expression, false),
        ASTView::Declare { expression, .. } => temporaries(expression, false),
        ASTView::If(condition, true_branch, false_branch) => temporaries(condition, true)
            + used_all(true_branch, true_branch.len()) + used_all(
            false_branch,
            false_branch.len(),
        ),
        ASTView::DeclareFunction { .. } => 0,
        ASTView::StructDeclaration { .. } => 0,
        ASTView::Return(e) => match e {
            Some(e) => temporaries(e, false),
            None => 0,
        },
        ASTView::Root(nodes) => used_all(nodes, nodes.len()),
    }
}

/// Number of synthetic variables that the first `n` of `nodes` leave
/// declared.
pub open spec fn used_all(nodes: Seq<ASTView>, n: nat) -> nat
    decreases nodes, n,
{
    if n == 0 || n > nodes.len() {
        0
    } else {
        used_all(nodes, (n - 1) as nat) + used(nodes[n - 1])
    }
}

/// The larger of two numbers.
pub open spec fn larger(a: nat, b: nat) -> nat {
    if a >= b {
        a
    } else {
        b
    }
}

/// How far the number of the next synthetic variable moves while a
/// statement is lowered, the inside of functions included.
pub open spec fn extent(ast: ASTView) -> nat
    decreases ast, 0nat,
{
    match ast {
        ASTView::If(condition, true_branch, false_branch) => larger(
            temporaries(condition, true) + extent_all(true_branch, true_branch.len()),
            temporaries(condition, true) + used_all(true_branch, true_branch.len()) + extent_all(
                false_branch,
                false_branch.len(),
            ),
        ),
        ASTView::DeclareFunction { body, .. } => extent_all(body, body.len()),
        ASTView::Root(nodes) => extent_all(nodes, nodes.len()),
        _ => used(ast),
    }
}

/// How far the number of the next synthetic variable moves while the
/// first `n` of `nodes` are lowered one after the other.
pub open spec fn extent_all(nodes: Seq<ASTView>, n: nat) -> nat
    decreases nodes, n,
{
    if n == 0 || n > nodes.len() {
        0
    } else {
        larger(
            extent_all(nodes, (n - 1) as nat),
            used_all(nodes, (n - 1) as nat) + extent(nodes[n - 1]),
        )
    }
}

/// The statements that `ast` is lowered to, where `counter` is the number
/// of the next synthetic variable: the declarations of the synthetic
/// variables that its expression needs, then the statement itself.
#[verifier::opaque]
pub open spec fn lower(ast: ASTView, counter: int) -> Seq<HIRView>
    decreases ast, 0nat,
{
    match ast {
        ASTView::StandaloneExpr(e) => {
            let r = reduce(e, counter, false);
            match r.expression {
                HIRExprView::FunctionCall(function, args, _) => r.declarations.push(
                    HIRView::FunctionCall { function, args },
                ),
                _ => r.declarations,
            }
        },
        ASTView::Assign { path, expression } => {
            let r = reduce(expression, counter, false);
            r.declarations.push(HIRView::Assign { path, expression: r.expression })
        },
        ASTView::Declare { var, expression } => {
            let r = reduce(expression, counter, false);
            r.declarations.push(
                HIRView::Declare {
                    var: var.name,
                    typename: HIRTypeDefView::Unresolved(hir_type_of(var.name_type)),
                    expression: r.expression,
                },
            )
        },
        ASTView::If(condition, true_branch, false_branch) => {
            let r = reduce(condition, counter, true);
            let after_condition = counter + temporaries(condition, true);
            r.declarations.push(
                HIRView::If(
                    leaf_of(r.expression),
                    lower_all(true_branch, after_condition, true_branch.len()),
                    lower_all(
                        false_branch,
                        after_condition + used_all(true_branch, true_branch.len()),
                        false_branch.len(),
                    ),
                ),
            )
        },
        ASTView::DeclareFunction { function_name, parameters, body, return_type } => seq![
            HIRView::DeclareFunction {
                function_name,
                parameters: bound_names_of(parameters),
                body: lower_all(body, counter, body.len()),
                return_type: return_type_of(return_type),
            },
        ],
        ASTView::StructDeclaration { struct_name, body } => seq![
            HIRView::StructDeclaration { struct_name, body: bound_names_of(body) },
        ],
        ASTView::Return(e) => match e {
            Some(e) => {
                let r = reduce(e, counter, false);
                r.declarations.push(HIRView::Return(r.expression))
            },
            None => seq![HIRView::EmptyReturn],
        },
        ASTView::Root(nodes) => lower_all(nodes, counter, nodes.len()),
    }
}

/// The statements that the first `n` of `nodes` are lowered to, one after
/// the other.
#[verifier::opaque]
pub open spec fn lower_all(nodes: Seq<ASTView>, counter: int, n: nat) -> Seq<HIRView>
    decreases nodes, n,
{
    if n == 0 || n > nodes.len() {
        Seq::empty()
    } else {
        lower_all(nodes, counter, (n - 1) as nat) + lower(
            nodes[n - 1],
            counter + used_all(nodes, (n - 1) as nat),
        )
    }
}

/// Lowering of a statement that holds one expression.
pub proof fn lemma_lower_expression_statement(ast: ASTView, counter: int)
    ensures
        ast matches ASTView::StandaloneExpr(e) ==> lower(ast, counter) == (match reduce(
            e,
            counter,
            false,
        ).expression {
            HIRExprView::FunctionCall(function, args, _) => reduce(
                e,
                counter,
                false,
            ).declarations.push(HIRView::FunctionCall { function, args }),
            _ => reduce(e, counter, false).declarations,
        }),
        ast matches ASTView::Assign { path, expression } ==> lower(ast, counter) == reduce(
            expression,
            counter,
            false,
        ).declarations.push(
            HIRView::Assign { path, expression: reduce(expression, counter, false).expression },
        ),
        ast matches ASTView::Declare { var, expression } ==> lower(ast, counter) == reduce(
            expression,
            counter,
            false,
        ).declarations.push(
            HIRView::Declare {
                var: var.name,
                typename: HIRTypeDefView::Unresolved(hir_type_of(var.name_type)),
                expression: reduce(expression, counter, false).expression,
            },
        ),
        ast matches ASTView::Return(Some(e)) ==> lower(ast, counter) == reduce(
            e,
            counter,
            false,
        ).declarations.push(HIRView::Return(reduce(e, counter, false).expression)),
        ast matches ASTView::Return(None) ==> lower(ast, counter) == seq![HIRView::EmptyReturn],
{
    reveal(lower);
    reveal(lower_all);
}

/// Lowering of a conditional.
pub proof fn lemma_lower_if(
    condition: ExprView,
    true_branch: Seq<ASTView>,
    false_branch: Seq<ASTView>,
    counter: int,
)
    ensures
        lower(ASTView::If(condition, true_branch, false_branch), counter) == reduce(
            condition,
            counter,
            true,
        ).declarations.push(
            HIRView::If(
                leaf_of(reduce(condition, counter, true).expression),
                lower_all(
                    true_branch,
                    counter + temporaries(condition, true),
                    true_branch.len(),
                ),
                lower_all(
                    false_branch,
                    counter + temporaries(condition, true) + used_all(
                        true_branch,
                        true_branch.len(),
                    ),
                    false_branch.len(),
                ),
            ),
        ),
{
    reveal(lower);
    reveal(lower_all);
}

/// Lowering of a declaration of a function or of a struct, and of a root.
pub proof fn lemma_lower_declaration(ast: ASTView, counter: int)
    ensures
        ast matches ASTView::DeclareFunction { function_name, parameters, body, return_type }
            ==> lower(ast, counter) == seq![
            HIRView::DeclareFunction {
                function_name,
                parameters: bound_names_of(parameters),
                body: lower_all(body, counter, body.len()),
                return_type: return_type_of(return_type),
            },
        ],
        ast matches ASTView::StructDeclaration { struct_name, body } ==> lower(ast, counter)
            == seq![HIRView::StructDeclaration { struct_name, body: bound_names_of(body) }],
        ast matches ASTView::Root(nodes) ==> lower(ast, counter) == lower_all(
            nodes,
            counter,
            nodes.len(),
        ),
{
    reveal(lower);
    reveal(lower_all);
}

/// Lowering of no statements, and of one statement more.
pub proof fn lemma_lower_all(nodes: Seq<ASTView>, counter: int, n: nat)
    requires
        n <= nodes.len(),
    ensures
        n == 0 ==> lower_all(nodes, counter, n) == Seq::<HIRView>::empty(),
        n > 0 ==> lower_all(nodes, counter, n) == lower_all(nodes, counter, (n - 1) as nat)
            + lower(nodes[n - 1], counter + used_all(nodes, (n - 1) as nat)),
{
    reveal(lower);
    reveal(lower_all);
}

/// A statement moves the number of the next synthetic variable at least
/// as far as what it leaves declared.
pub proof fn lemma_used_within_extent(ast: ASTView)
    ensures
        used(ast) <= extent(ast),
    decreases ast, 0nat,
{
    match ast {
        ASTView::If(condition, true_branch, false_branch) => {
            lemma_used_all_within_extent(false_branch, false_branch.len());
        },
        ASTView::Root(nodes) => {
            lemma_used_all_within_extent(nodes, nodes.len());
        },
        _ => {},
    }
}

/// Statements move the number of the next synthetic variable at least as
/// far as what they leave declared.
pub proof fn lemma_used_all_within_extent(nodes: Seq<ASTView>, n: nat)
    requires
        n <= nodes.len(),
    ensures
        used_all(nodes, n) <= extent_all(nodes, n),
    decreases nodes, n,
{
    if n > 0 {
        lemma_used_within_extent(nodes[n - 1]);
    }
}

/// Every statement of a list stays within the extent of the list.
pub proof fn lemma_extent_all_covers(nodes: Seq<ASTView>, i: nat, n: nat)
    requires
        i < n <= nodes.len(),
    ensures
        used_all(nodes, i) + extent(nodes[i as int]) <= extent_all(nodes, n),
        used_all(nodes, i) + used(nodes[i as int]) <= extent_all(nodes, n),
    decreases n,
{
    lemma_used_within_extent(nodes[i as int]);
    if i + 1 < n {
        lemma_extent_all_covers(nodes, i, (n - 1) as nat);
    }
}

} // verus!
