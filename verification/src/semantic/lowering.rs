//! Lowering of the syntax tree to the intermediate representation:
//! expressions are taken apart until every operand is a literal or a
//! variable, each part that is taken out being bound to a synthetic
//! variable `$0`, `$1`, ...
use vstd::prelude::*;
use crate::ast::{
    ast_views, bound_name_views, expr_views, name_views, ASTType, ASTTypeView, ASTView, Expr,
    ExprView, TypeBoundName, AST,
};
use crate::semantic::hir::{
    clone_names, hir_bound_name_views, hir_type_views, hir_views, lemma_hir_model,
    lemma_hir_type_model, trivial_views, HIRExpr, HIRExprView, HIRType, HIRTypeDef,
    HIRTypeDefView, HIRTypedBoundName, HIRView, TrivialHIRExpr, TypedTrivialHIRExpr, HIR,
};
use crate::semantic::lowering_rules::{
    bound_name_of, bound_names_of, declare_intermediary, extent, extent_all, finish, hir_type_of,
    intermediary_name, is_reducible, is_trivial, leaf_of, lemma_reduce_all, lemma_reduce_array,
    lemma_reduce_binary_operation, lemma_reduce_function_call, lemma_reduce_index_access,
    lemma_reduce_leaf, lemma_reduce_member_access, lemma_extent_all_covers, lemma_lower_all,
    lemma_lower_declaration, lemma_lower_expression_statement, lemma_lower_if,
    lemma_reduce_trivial, lemma_reduce_unary_expression, lemma_used_all_within_extent, lower,
    lower_all, lowerable, lowerable_expr, operands, own_temporary, reduce, reduce_all, temporaries,
    temporaries_all, trivial_of, used, used_all,
};
use crate::text::append_decimal;

verus! {

/// The model of an expression in terms of the models of its parts.
pub proof fn lemma_expr_model(e: &Expr)
    ensures
        e@ == (match e {
            Expr::IntegerValue(i) => ExprView::IntegerValue(*i),
            Expr::FloatValue(f) => ExprView::FloatValue(*f),
            Expr::StringValue(s) => ExprView::StringValue(s@),
            Expr::BooleanValue(b) => ExprView::BooleanValue(*b),
            Expr::NoneValue => ExprView::NoneValue,
            Expr::Variable(v) => ExprView::Variable(v@),
            Expr::FunctionCall(function, args) => ExprView::FunctionCall(
                Box::new(function@),
                expr_views(args@),
            ),
            Expr::IndexAccess(object, index) => ExprView::IndexAccess(
                Box::new(object@),
                Box::new(index@),
            ),
            Expr::BinaryOperation(lhs, op, rhs) => ExprView::BinaryOperation(
                Box::new(lhs@),
                *op,
                Box::new(rhs@),
            ),
            Expr::Parenthesized(inner) => ExprView::Parenthesized(Box::new(inner@)),
            Expr::UnaryExpression(op, operand) => ExprView::UnaryExpression(
                *op,
                Box::new(operand@),
            ),
            Expr::MemberAccess(object, member) => ExprView::MemberAccess(
                Box::new(object@),
                member@,
            ),
            Expr::Array(items) => ExprView::Array(expr_views(items@)),
        }),
{
    match e {
        Expr::FunctionCall(function, args) => {
            assert(e@->FunctionCall_1 =~= expr_views(args@));
        },
        Expr::Array(items) => {
            assert(e@->Array_0 =~= expr_views(items@));
        },
        _ => {},
    }
}

/// The model of a statement of the syntax tree in terms of the models of
/// its parts.
pub proof fn lemma_ast_model(ast: &AST)
    ensures
        ast@ == (match ast {
            AST::StandaloneExpr(e) => ASTView::StandaloneExpr(e@),
            AST::Assign { path, expression } => ASTView::Assign {
                path: name_views(path@),
                expression: expression@,
            },
            AST::Declare { var, expression } => ASTView::Declare {
                var: var@,
                expression: expression@,
            },
            AST::If(condition, true_branch, false_branch) => ASTView::If(
                condition@,
                ast_views(true_branch@),
                ast_views(false_branch@),
            ),
            AST::DeclareFunction { function_name, parameters, body, return_type } => {
                ASTView::DeclareFunction {
                    function_name: function_name@,
                    parameters: bound_name_views(parameters@),
                    body: ast_views(body@),
                    return_type: match return_type {
                        Some(t) => Some(t@),
                        None => None,
                    },
                }
            },
            AST::StructDeclaration { struct_name, body } => ASTView::StructDeclaration {
                struct_name: struct_name@,
                body: bound_name_views(body@),
            },
            AST::Return(e) => ASTView::Return(
                match e {
                    Some(e) => Some(e@),
                    None => None,
                },
            ),
            AST::Root(nodes) => ASTView::Root(ast_views(nodes@)),
        }),
{
    match ast {
        AST::If(condition, true_branch, false_branch) => {
            assert(ast@->If_1 =~= ast_views(true_branch@));
            assert(ast@->If_2 =~= ast_views(false_branch@));
        },
        AST::DeclareFunction { function_name, parameters, body, return_type } => {
            assert(ast@->DeclareFunction_body =~= ast_views(body@));
        },
        AST::Root(nodes) => {
            assert(ast@->Root_0 =~= ast_views(nodes@));
        },
        _ => {},
    }
}

/// Appends a statement to the statements lowered so far.
fn emit(accum: &mut Vec<HIR>, statement: HIR)
    ensures
        hir_views(final(accum)@) == hir_views(old(accum)@).push(statement@),
{
    accum.push(statement);
    assert(hir_views(accum@) =~= hir_views(old(accum)@).push(statement@));
}

/// The name of the synthetic variable with the number `intermediary`.
pub fn make_intermediary(intermediary: i32) -> (name: String)
    ensures
        name@ == intermediary_name(intermediary as int),
{
    proof {
        reveal_strlit("$");
    }
    let mut name = "$".to_owned();
    append_decimal(&mut name, intermediary as i64);
    assert(name@ =~= intermediary_name(intermediary as int));
    name
}

/// The leaf that an expression is, if it is a literal or a variable.
pub fn get_trivial_hir_expr(expr: &Expr) -> (leaf: Option<TrivialHIRExpr>)
    requires
        !(expr@ is Parenthesized),
    ensures
        leaf is Some == is_trivial(expr@),
        leaf matches Some(t) ==> Some(t@) == trivial_of(expr@),
{
    match expr {
        Expr::IntegerValue(i) => Some(TrivialHIRExpr::IntegerValue(*i)),
        Expr::FloatValue(f) => Some(TrivialHIRExpr::FloatValue(*f)),
        Expr::StringValue(s) => Some(TrivialHIRExpr::StringValue(s.clone())),
        Expr::BooleanValue(b) => Some(TrivialHIRExpr::BooleanValue(*b)),
        Expr::NoneValue => Some(TrivialHIRExpr::NoneValue),
        Expr::Variable(v) => Some(TrivialHIRExpr::Variable(v.clone())),
        _ => None,
    }
}

/// Whether an expression is a literal or a variable.
fn is_trivial_expr(expr: &Expr) -> (trivial: bool)
    ensures
        trivial == is_trivial(expr@),
{
    match expr {
        Expr::IntegerValue(_) => true,
        Expr::FloatValue(_) => true,
        Expr::StringValue(_) => true,
        Expr::BooleanValue(_) => true,
        Expr::NoneValue => true,
        Expr::Variable(_) => true,
        _ => false,
    }
}

/// Whether some expression of a list is not trivial.
fn any_not_trivial(exprs: &Vec<Expr>) -> (found: bool)
    ensures
        found == exists|i: int|
            0 <= i < exprs@.len() && !is_trivial(#[trigger] expr_views(exprs@)[i]),
{
    let mut i: usize = 0;
    while i < exprs.len()
        invariant
            0 <= i <= exprs.len(),
            forall|k: int| 0 <= k < i ==> is_trivial(#[trigger] expr_views(exprs@)[k]),
        decreases exprs.len() - i,
    {
        if !is_trivial_expr(&exprs[i]) {
            assert(!is_trivial(expr_views(exprs@)[i as int]));
            return true;
        }
        i += 1;
    }
    false
}

/// Whether an expression has to be reduced before it can stand as an
/// operand list of leaves: it is not trivial, and one of its operands is
/// not trivial either. An index access always has to, since it is lowered
/// as a call.
pub fn check_if_reducible(expr: &Expr) -> (reducible: bool)
    ensures
        reducible == is_reducible(expr@),
{
    proof {
        lemma_expr_model(expr);
    }
    match expr {
        Expr::FunctionCall(function, args) => {
            let callee = !is_trivial_expr(function);
            let rest = any_not_trivial(args);
            proof {
                let ops = operands(expr@);
                assert(ops =~= seq![function@] + expr_views(args@));
                if callee {
                    assert(!is_trivial(ops[0]));
                }
                if rest {
                    let i = choose|i: int|
                        0 <= i < args@.len() && !is_trivial(#[trigger] expr_views(args@)[i]);
                    assert(!is_trivial(ops[i + 1]));
                }
                if !callee && !rest {
                    assert forall|i: int| 0 <= i < ops.len() implies is_trivial(
                        #[trigger] ops[i],
                    ) by {
                        if i > 0 {
                            assert(ops[i] == expr_views(args@)[i - 1]);
                        }
                    }
                }
            }
            callee || rest
        },
        Expr::BinaryOperation(lhs, _, rhs) => {
            let left = !is_trivial_expr(lhs);
            let right = !is_trivial_expr(rhs);
            proof {
                let ops = operands(expr@);
                if left {
                    assert(!is_trivial(ops[0]));
                }
                if right {
                    assert(!is_trivial(ops[1]));
                }
            }
            left || right
        },
        Expr::Array(items) => any_not_trivial(items),
        Expr::IndexAccess(_, _) => true,
        Expr::Parenthesized(_) => true,
        Expr::MemberAccess(object, _) => {
            let inner = !is_trivial_expr(object);
            proof {
                if inner {
                    assert(!is_trivial(operands(expr@)[0]));
                }
            }
            inner
        },
        Expr::UnaryExpression(_, operand) => {
            let inner = !is_trivial_expr(operand);
            proof {
                if inner {
                    assert(!is_trivial(operands(expr@)[0]));
                }
            }
            inner
        },
        _ => false,
    }
}

impl HIRExpr {
    /// The leaf that a trivial expression is.
    pub fn expect_trivial(&self) -> (leaf: &TypedTrivialHIRExpr)
        requires
            self@ is Trivial,
        ensures
            leaf@ == leaf_of(self@),
    {
        match self {
            HIRExpr::Trivial(e) => e,
            _ => unreached(),
        }
    }
}

impl HIRTypeDef {
    /// The type as written, of a slot that holds one.
    pub fn expect_unresolved(&self) -> (written: HIRType)
        requires
            self@ is Unresolved,
        ensures
            written@ == self@->Unresolved_0,
    {
        match self {
            HIRTypeDef::Unresolved(e) => e.clone(),
            _ => unreached(),
        }
    }
}

/// All expressions of a list can be lowered.
pub open spec fn all_lowerable(exprs: Seq<ExprView>) -> bool {
    forall|i: int| 0 <= i < exprs.len() ==> lowerable_expr(#[trigger] exprs[i])
}

/// The synthetic variables of a prefix of a list are among those of the
/// whole list.
pub proof fn lemma_temporaries_all_monotonic(es: Seq<ExprView>, i: nat, j: nat)
    requires
        i <= j <= es.len(),
    ensures
        temporaries_all(es, i) <= temporaries_all(es, j),
    decreases j,
{
    if i < j {
        lemma_temporaries_all_monotonic(es, i, (j - 1) as nat);
    }
}

/// Lowers an operand: the leaf it is, or the synthetic variable it is
/// bound to.
fn reduce_operand(expr: &Expr, intermediary: i32, accum: &mut Vec<HIR>) -> (result: (
    TypedTrivialHIRExpr,
    i32,
))
    requires
        lowerable_expr(expr@),
        temporaries(expr@, true) <= i32::MAX,
        intermediary + temporaries(expr@, true) <= i32::MAX,
    ensures
        result.0@ == leaf_of(reduce(expr@, intermediary as int, true).expression),
        result.1 == temporaries(expr@, true),
        hir_views(final(accum)@) == hir_views(old(accum)@) + reduce(
            expr@,
            intermediary as int,
            true,
        ).declarations,
    decreases expr, 2nat,
{
    proof {
        lemma_reduce_leaf(expr@, intermediary as int);
    }
    let (reduced, used) = reduce_expr_to_hir_declarations(expr, intermediary, accum, true);
    match reduced {
        HIRExpr::Trivial(leaf) => (leaf, used),
        _ => unreached(),
    }
}

/// Lowers a list of operands from left to right.
fn reduce_operands(exprs: &Vec<Expr>, intermediary: i32, accum: &mut Vec<HIR>) -> (result: (
    Vec<TypedTrivialHIRExpr>,
    i32,
))
    requires
        all_lowerable(expr_views(exprs@)),
        temporaries_all(expr_views(exprs@), exprs@.len()) <= i32::MAX,
        intermediary + temporaries_all(expr_views(exprs@), exprs@.len()) <= i32::MAX,
    ensures
        trivial_views(result.0@) == reduce_all(
            expr_views(exprs@),
            intermediary as int,
            exprs@.len(),
        ).leaves,
        result.1 == temporaries_all(expr_views(exprs@), exprs@.len()),
        hir_views(final(accum)@) == hir_views(old(accum)@) + reduce_all(
            expr_views(exprs@),
            intermediary as int,
            exprs@.len(),
        ).declarations,
    decreases exprs, 0nat,
{
    let ghost es = expr_views(exprs@);
    let ghost start = hir_views(accum@);
    let mut leaves: Vec<TypedTrivialHIRExpr> = Vec::new();
    let mut used: i32 = 0;
    let mut i: usize = 0;
    proof {
        lemma_reduce_all(es, intermediary as int, 0);
    }
    assert(hir_views(accum@) =~= start + reduce_all(es, intermediary as int, 0).declarations);
    assert(trivial_views(leaves@) =~= reduce_all(es, intermediary as int, 0).leaves);
    while i < exprs.len()
        invariant
            0 <= i <= exprs.len(),
            es == expr_views(exprs@),
            all_lowerable(es),
            temporaries_all(es, exprs@.len()) <= i32::MAX,
            intermediary + temporaries_all(es, exprs@.len()) <= i32::MAX,
            used == temporaries_all(es, i as nat),
            trivial_views(leaves@) == reduce_all(es, intermediary as int, i as nat).leaves,
            hir_views(accum@) == start + reduce_all(es, intermediary as int, i as nat).declarations,
        decreases exprs.len() - i,
    {
        let ghost before = hir_views(accum@);
        let ghost leaves_before = trivial_views(leaves@);
        proof {
            lemma_temporaries_all_monotonic(es, (i + 1) as nat, exprs@.len());
            assert(es[i as int] == exprs@[i as int]@);
        }
        let (leaf, n) = reduce_operand(&exprs[i], intermediary + used, accum);
        leaves.push(leaf);
        used = used + n;
        i += 1;
        proof {
            let last = reduce(es[i - 1], intermediary + temporaries_all(es, (i - 1) as nat), true);
            let prev = reduce_all(es, intermediary as int, (i - 1) as nat);
            lemma_reduce_all(es, intermediary as int, i as nat);
            assert(trivial_views(leaves@) =~= leaves_before.push(leaf_of(last.expression)));
            assert(hir_views(accum@) =~= start + (prev.declarations + last.declarations));
        }
    }
    (leaves, used)
}

/// Ends the lowering of a composite expression whose operands are leaves
/// by now: with `is_reducing` it is bound to the next synthetic variable,
/// otherwise it is handed back as it is.
fn finish_reduction(
    composite: HIRExpr,
    intermediary: i32,
    accum: &mut Vec<HIR>,
    is_reducing: bool,
    used: i32,
) -> (result: (HIRExpr, i32))
    requires
        0 <= used,
        used + own_temporary(is_reducing) <= i32::MAX,
    ensures
        result.0@ == finish(
            Seq::empty(),
            composite@,
            intermediary as int,
            is_reducing,
        ).expression,
        result.1 == used + own_temporary(is_reducing),
        hir_views(final(accum)@) == hir_views(old(accum)@) + finish(
            Seq::empty(),
            composite@,
            intermediary as int,
            is_reducing,
        ).declarations,
{
    if is_reducing {
        let declare = HIR::Declare {
            var: make_intermediary(intermediary),
            typename: HIRTypeDef::Pending,
            expression: composite,
        };
        proof {
            lemma_hir_model(&declare);
        }
        emit(accum, declare);
        assert(hir_views(accum@) =~= hir_views(old(accum)@) + finish(
            Seq::empty(),
            composite@,
            intermediary as int,
            is_reducing,
        ).declarations);
        (
            HIRExpr::Trivial(
                TypedTrivialHIRExpr(
                    TrivialHIRExpr::Variable(make_intermediary(intermediary)),
                    HIRTypeDef::Pending,
                ),
            ),
            used + 1,
        )
    } else {
        assert(hir_views(accum@) =~= hir_views(old(accum)@) + Seq::<HIRView>::empty());
        (composite, used)
    }
}

/// `finish` adds at most one declaration to those made before.
proof fn lemma_finish(
    declarations: Seq<HIRView>,
    composite: HIRExprView,
    counter: int,
    reducing: bool,
)
    ensures
        finish(declarations, composite, counter, reducing).expression == finish(
            Seq::empty(),
            composite,
            counter,
            reducing,
        ).expression,
        finish(declarations, composite, counter, reducing).declarations == declarations + finish(
            Seq::empty(),
            composite,
            counter,
            reducing,
        ).declarations,
{
    assert(finish(declarations, composite, counter, reducing).declarations =~= declarations
        + finish(Seq::empty(), composite, counter, reducing).declarations);
}

/// Lowers a call: the callee, then the arguments from left to right.
fn reduce_function_call(
    expr: &Expr,
    intermediary: i32,
    accum: &mut Vec<HIR>,
    is_reducing: bool,
) -> (result: (HIRExpr, i32))
    requires
        expr@ is FunctionCall,
        lowerable_expr(expr@),
        temporaries(expr@, is_reducing) <= i32::MAX,
        intermediary + temporaries(expr@, is_reducing) <= i32::MAX,
    ensures
        result.0@ == reduce(expr@, intermediary as int, is_reducing).expression,
        result.1 == temporaries(expr@, is_reducing),
        hir_views(final(accum)@) == hir_views(old(accum)@) + reduce(
            expr@,
            intermediary as int,
            is_reducing,
        ).declarations,
    decreases expr, 0nat,
{
    proof {
        lemma_expr_model(expr);
    }
    match expr {
        Expr::FunctionCall(function, args) => {
            let ghost start = hir_views(accum@);
            let ghost callee_spec = reduce(function@, intermediary as int, true);
            let ghost rest_spec = reduce_all(
                expr_views(args@),
                intermediary + temporaries(function@, true),
                args@.len(),
            );
            proof {
                lemma_reduce_function_call(
                    function@,
                    expr_views(args@),
                    intermediary as int,
                    is_reducing,
                );
            }
            let (callee, callee_used) = reduce_operand(function, intermediary, accum);
            let (leaves, args_used) = reduce_operands(args, intermediary + callee_used, accum);
            let composite = HIRExpr::FunctionCall(callee, leaves, HIRTypeDef::Pending);
            let ghost middle = hir_views(accum@);
            let result = finish_reduction(
                composite,
                intermediary + callee_used + args_used,
                accum,
                is_reducing,
                callee_used + args_used,
            );
            proof {
                lemma_finish(
                    callee_spec.declarations + rest_spec.declarations,
                    composite@,
                    intermediary + callee_used + args_used,
                    is_reducing,
                );
                assert(middle =~= start + (callee_spec.declarations + rest_spec.declarations));
                assert(hir_views(accum@) =~= start + reduce(
                    expr@,
                    intermediary as int,
                    is_reducing,
                ).declarations);
            }
            result
        },
        _ => unreached(),
    }
}

/// Lowers an index access `object[index]` as the call
/// `object.__index__(index)`: the method is bound to a synthetic
/// variable, which is then called with the index.
fn reduce_index_access(
    expr: &Expr,
    intermediary: i32,
    accum: &mut Vec<HIR>,
    is_reducing: bool,
) -> (result: (HIRExpr, i32))
    requires
        expr@ is IndexAccess,
        lowerable_expr(expr@),
        temporaries(expr@, is_reducing) <= i32::MAX,
        intermediary + temporaries(expr@, is_reducing) <= i32::MAX,
    ensures
        result.0@ == reduce(expr@, intermediary as int, is_reducing).expression,
        result.1 == temporaries(expr@, is_reducing),
        hir_views(final(accum)@) == hir_views(old(accum)@) + reduce(
            expr@,
            intermediary as int,
            is_reducing,
        ).declarations,
    decreases expr, 0nat,
{
    proof {
        lemma_expr_model(expr);
    }
    match expr {
        Expr::IndexAccess(object, index) => {
            let ghost start = hir_views(accum@);
            let ghost target_spec = reduce(object@, intermediary as int, true);
            proof {
                lemma_reduce_index_access(object@, index@, intermediary as int, is_reducing);
            }
            let (target, target_used) = reduce_operand(object, intermediary, accum);
            let method = intermediary + target_used;
            let member = HIRExpr::MemberAccess(target, "__index__".to_owned(), HIRTypeDef::Pending);
            let declare = HIR::Declare {
                var: make_intermediary(method),
                typename: HIRTypeDef::Pending,
                expression: member,
            };
            proof {
                lemma_hir_model(&declare);
            }
            emit(accum, declare);
            let ghost position_spec = reduce(index@, method + 1, true);
            let (position, position_used) = reduce_operand(index, method + 1, accum);
            let callee = TypedTrivialHIRExpr(
                TrivialHIRExpr::Variable(make_intermediary(method)),
                HIRTypeDef::Pending,
            );
            let mut leaves: Vec<TypedTrivialHIRExpr> = Vec::new();
            leaves.push(position);
            assert(trivial_views(leaves@) =~= seq![leaf_of(position_spec.expression)]);
            let composite = HIRExpr::FunctionCall(callee, leaves, HIRTypeDef::Pending);
            let ghost middle = hir_views(accum@);
            let ghost before = target_spec.declarations.push(
                declare_intermediary(
                    method as int,
                    HIRExprView::MemberAccess(
                        leaf_of(target_spec.expression),
                        "__index__"@,
                        HIRTypeDefView::Pending,
                    ),
                ),
            ) + position_spec.declarations;
            let result = finish_reduction(
                composite,
                method + 1 + position_used,
                accum,
                is_reducing,
                target_used + 1 + position_used,
            );
            proof {
                lemma_finish(before, composite@, method + 1 + position_used, is_reducing);
                assert(middle =~= start + before);
                assert(hir_views(accum@) =~= start + reduce(
                    expr@,
                    intermediary as int,
                    is_reducing,
                ).declarations);
            }
            result
        },
        _ => unreached(),
    }
}

/// Lowers a binary operation: the left operand, then the right one.
fn reduce_binary_operation(
    expr: &Expr,
    intermediary: i32,
    accum: &mut Vec<HIR>,
    is_reducing: bool,
) -> (result: (HIRExpr, i32))
    requires
        expr@ is BinaryOperation,
        lowerable_expr(expr@),
        temporaries(expr@, is_reducing) <= i32::MAX,
        intermediary + temporaries(expr@, is_reducing) <= i32::MAX,
    ensures
        result.0@ == reduce(expr@, intermediary as int, is_reducing).expression,
        result.1 == temporaries(expr@, is_reducing),
        hir_views(final(accum)@) == hir_views(old(accum)@) + reduce(
            expr@,
            intermediary as int,
            is_reducing,
        ).declarations,
    decreases expr, 0nat,
{
    proof {
        lemma_expr_model(expr);
    }
    match expr {
        Expr::BinaryOperation(lhs, op, rhs) => {
            let ghost start = hir_views(accum@);
            let ghost left_spec = reduce(lhs@, intermediary as int, true);
            let ghost right_spec = reduce(rhs@, intermediary + temporaries(lhs@, true), true);
            proof {
                lemma_reduce_binary_operation(lhs@, *op, rhs@, intermediary as int, is_reducing);
            }
            let (left, left_used) = reduce_operand(lhs, intermediary, accum);
            let (right, right_used) = reduce_operand(rhs, intermediary + left_used, accum);
            let composite = HIRExpr::BinaryOperation(left, *op, right, HIRTypeDef::Pending);
            let ghost middle = hir_views(accum@);
            let result = finish_reduction(
                composite,
                intermediary + left_used + right_used,
                accum,
                is_reducing,
                left_used + right_used,
            );
            proof {
                lemma_finish(
                    left_spec.declarations + right_spec.declarations,
                    composite@,
                    intermediary + left_used + right_used,
                    is_reducing,
                );
                assert(middle =~= start + (left_spec.declarations + right_spec.declarations));
                assert(hir_views(accum@) =~= start + reduce(
                    expr@,
                    intermediary as int,
                    is_reducing,
                ).declarations);
            }
            result
        },
        _ => unreached(),
    }
}

/// Lowers a unary operation, a member access or an array literal.
fn reduce_simple_composite(
    expr: &Expr,
    intermediary: i32,
    accum: &mut Vec<HIR>,
    is_reducing: bool,
) -> (result: (HIRExpr, i32))
    requires
        expr@ is UnaryExpression || expr@ is MemberAccess || expr@ is Array,
        lowerable_expr(expr@),
        temporaries(expr@, is_reducing) <= i32::MAX,
        intermediary + temporaries(expr@, is_reducing) <= i32::MAX,
    ensures
        result.0@ == reduce(expr@, intermediary as int, is_reducing).expression,
        result.1 == temporaries(expr@, is_reducing),
        hir_views(final(accum)@) == hir_views(old(accum)@) + reduce(
            expr@,
            intermediary as int,
            is_reducing,
        ).declarations,
    decreases expr, 0nat,
{
    proof {
        lemma_expr_model(expr);
    }
    let ghost start = hir_views(accum@);
    match expr {
        Expr::UnaryExpression(op, operand) => {
            let ghost inner_spec = reduce(operand@, intermediary as int, true);
            proof {
                lemma_reduce_unary_expression(*op, operand@, intermediary as int, is_reducing);
            }
            let (inner, inner_used) = reduce_operand(operand, intermediary, accum);
            let composite = HIRExpr::UnaryExpression(*op, inner, HIRTypeDef::Pending);
            let result = finish_reduction(
                composite,
                intermediary + inner_used,
                accum,
                is_reducing,
                inner_used,
            );
            proof {
                lemma_finish(
                    inner_spec.declarations,
                    composite@,
                    intermediary + inner_used,
                    is_reducing,
                );
                assert(hir_views(accum@) =~= start + reduce(
                    expr@,
                    intermediary as int,
                    is_reducing,
                ).declarations);
            }
            result
        },
        Expr::MemberAccess(object, member) => {
            let ghost target_spec = reduce(object@, intermediary as int, true);
            proof {
                lemma_reduce_member_access(object@, member@, intermediary as int, is_reducing);
            }
            let (target, target_used) = reduce_operand(object, intermediary, accum);
            let composite = HIRExpr::MemberAccess(target, member.clone(), HIRTypeDef::Pending);
            let result = finish_reduction(
                composite,
                intermediary + target_used,
                accum,
                is_reducing,
                target_used,
            );
            proof {
                lemma_finish(
                    target_spec.declarations,
                    composite@,
                    intermediary + target_used,
                    is_reducing,
                );
                assert(hir_views(accum@) =~= start + reduce(
                    expr@,
                    intermediary as int,
                    is_reducing,
                ).declarations);
            }
            result
        },
        Expr::Array(items) => {
            let ghost all_spec = reduce_all(
                expr_views(items@),
                intermediary as int,
                items@.len(),
            );
            proof {
                lemma_reduce_array(expr_views(items@), intermediary as int, is_reducing);
            }
            let (leaves, items_used) = reduce_operands(items, intermediary, accum);
            let composite = HIRExpr::Array(leaves, HIRTypeDef::Pending);
            let result = finish_reduction(
                composite,
                intermediary + items_used,
                accum,
                is_reducing,
                items_used,
            );
            proof {
                lemma_finish(
                    all_spec.declarations,
                    composite@,
                    intermediary + items_used,
                    is_reducing,
                );
                assert(hir_views(accum@) =~= start + reduce(
                    expr@,
                    intermediary as int,
                    is_reducing,
                ).declarations);
            }
            result
        },
        _ => unreached(),
    }
}

/// Lowers an expression. The declarations of the synthetic variables that
/// it needs are appended to `accum`; the result is the expression that is
/// left, and the number of synthetic variables declared. `intermediary` is
/// the number of the next synthetic variable. With `is_reducing` the
/// expression itself becomes a leaf.
pub fn reduce_expr_to_hir_declarations(
    expr: &Expr,
    intermediary: i32,
    accum: &mut Vec<HIR>,
    is_reducing: bool,
) -> (result: (HIRExpr, i32))
    requires
        lowerable_expr(expr@),
        temporaries(expr@, is_reducing) <= i32::MAX,
        intermediary + temporaries(expr@, is_reducing) <= i32::MAX,
    ensures
        result.0@ == reduce(expr@, intermediary as int, is_reducing).expression,
        result.1 == temporaries(expr@, is_reducing),
        hir_views(final(accum)@) == hir_views(old(accum)@) + reduce(
            expr@,
            intermediary as int,
            is_reducing,
        ).declarations,
    decreases expr, 1nat,
{
    match expr {
        Expr::FunctionCall(_, _) => reduce_function_call(expr, intermediary, accum, is_reducing),
        Expr::IndexAccess(_, _) => reduce_index_access(expr, intermediary, accum, is_reducing),
        Expr::BinaryOperation(_, _, _) => reduce_binary_operation(
            expr,
            intermediary,
            accum,
            is_reducing,
        ),
        Expr::UnaryExpression(_, _) => reduce_simple_composite(
            expr,
            intermediary,
            accum,
            is_reducing,
        ),
        Expr::MemberAccess(_, _) => reduce_simple_composite(
            expr,
            intermediary,
            accum,
            is_reducing,
        ),
        Expr::Array(_) => reduce_simple_composite(expr, intermediary, accum, is_reducing),
        Expr::Parenthesized(_) => unreached(),
        _ => {
            proof {
                lemma_reduce_trivial(expr@, intermediary as int, is_reducing);
            }
            assert(hir_views(accum@) =~= hir_views(old(accum)@) + Seq::<HIRView>::empty());
            match get_trivial_hir_expr(expr) {
                Some(leaf) => (
                    HIRExpr::Trivial(TypedTrivialHIRExpr(leaf, HIRTypeDef::Pending)),
                    0,
                ),
                None => unreached(),
            }
        },
    }
}

/// The model of a written type of the syntax tree in terms of the models
/// of its parts.
pub proof fn lemma_ast_type_model(t: &ASTType)
    ensures
        t@ == (match t {
            ASTType::Simple(name) => ASTTypeView::Simple(name@),
            ASTType::Generic(name, args) => ASTTypeView::Generic(
                name@,
                Seq::new(args@.len(), |i: int| args@[i]@),
            ),
        }),
{
    match t {
        ASTType::Generic(name, args) => {
            assert(t@->Generic_1 =~= Seq::new(args@.len(), |i: int| args@[i]@));
        },
        _ => {},
    }
}

impl HIRType {
    /// The type written in the syntax tree, as the intermediate
    /// representation holds it.
    pub fn from_ast(typ: &ASTType) -> (written: HIRType)
        ensures
            written@ == hir_type_of(typ@),
        decreases typ,
    {
        proof {
            lemma_ast_type_model(typ);
        }
        match typ {
            ASTType::Simple(name) => HIRType::Simple(name.clone()),
            ASTType::Generic(name, generics) => {
                let mut hir_generics: Vec<HIRType> = Vec::new();
                let mut i: usize = 0;
                while i < generics.len()
                    invariant
                        0 <= i <= generics.len(),
                        hir_generics@.len() == i,
                        typ is Generic,
                        typ->Generic_1 == generics,
                        forall|k: int|
                            0 <= k < i ==> (#[trigger] hir_generics@[k])@ == hir_type_of(
                                generics@[k]@,
                            ),
                    decreases generics.len() - i,
                {
                    hir_generics.push(HIRType::from_ast(&generics[i]));
                    i += 1;
                }
                let written = HIRType::Generic(name.clone(), hir_generics);
                proof {
                    lemma_hir_type_model(&written);
                    assert(hir_type_views(hir_generics@) =~= hir_type_of(typ@)->Generic_1);
                }
                written
            },
        }
    }
}

/// The typed names of the syntax tree, each with its type as written.
fn lower_bound_names(names: &Vec<TypeBoundName>) -> (lowered: Vec<HIRTypedBoundName>)
    ensures
        hir_bound_name_views(lowered@) == bound_names_of(bound_name_views(names@)),
{
    let mut lowered: Vec<HIRTypedBoundName> = Vec::new();
    let mut i: usize = 0;
    while i < names.len()
        invariant
            0 <= i <= names.len(),
            lowered@.len() == i,
            forall|k: int| 0 <= k < i ==> (#[trigger] lowered@[k])@ == bound_name_of(names@[k]@),
        decreases names.len() - i,
    {
        lowered.push(
            HIRTypedBoundName {
                name: names[i].name.clone(),
                typename: HIRTypeDef::Unresolved(HIRType::from_ast(&names[i].name_type)),
            },
        );
        i += 1;
    }
    assert(hir_bound_name_views(lowered@) =~= bound_names_of(bound_name_views(names@)));
    lowered
}

/// All statements of a list can be lowered.
pub open spec fn all_lowerable_statements(nodes: Seq<ASTView>) -> bool {
    forall|i: int| 0 <= i < nodes.len() ==> lowerable(#[trigger] nodes[i])
}

/// Lowers statements one after the other.
fn lower_statements(nodes: &Vec<AST>, intermediary: i32, accum: &mut Vec<HIR>) -> (created: i32)
    requires
        all_lowerable_statements(ast_views(nodes@)),
        extent_all(ast_views(nodes@), nodes@.len()) <= i32::MAX,
        intermediary + extent_all(ast_views(nodes@), nodes@.len()) <= i32::MAX,
    ensures
        created == used_all(ast_views(nodes@), nodes@.len()),
        hir_views(final(accum)@) == hir_views(old(accum)@) + lower_all(
            ast_views(nodes@),
            intermediary as int,
            nodes@.len(),
        ),
    decreases nodes, 0nat,
{
    let ghost views = ast_views(nodes@);
    let ghost start = hir_views(accum@);
    let mut created: i32 = 0;
    let mut i: usize = 0;
    proof {
        lemma_lower_all(views, intermediary as int, 0);
    }
    assert(hir_views(accum@) =~= start + lower_all(views, intermediary as int, 0));
    while i < nodes.len()
        invariant
            0 <= i <= nodes.len(),
            views == ast_views(nodes@),
            all_lowerable_statements(views),
            extent_all(views, nodes@.len()) <= i32::MAX,
            intermediary + extent_all(views, nodes@.len()) <= i32::MAX,
            created == used_all(views, i as nat),
            hir_views(accum@) == start + lower_all(views, intermediary as int, i as nat),
        decreases nodes.len() - i,
    {
        proof {
            lemma_extent_all_covers(views, i as nat, nodes@.len());
            assert(views[i as int] == nodes@[i as int]@);
        }
        let n = ast_to_hir(&nodes[i], intermediary + created, accum);
        created = created + n;
        i += 1;
        proof {
            lemma_lower_all(views, intermediary as int, i as nat);
            assert(hir_views(accum@) =~= start + (lower_all(
                views,
                intermediary as int,
                (i - 1) as nat,
            ) + lower(views[i - 1], intermediary + used_all(views, (i - 1) as nat))));
        }
    }
    created
}

/// Lowers a statement that holds one expression: an assignment, a
/// declaration, a return or a call that stands alone.
fn lower_expression_statement(ast: &AST, intermediary: i32, accum: &mut Vec<HIR>) -> (created: i32)
    requires
        ast@ is StandaloneExpr || ast@ is Assign || ast@ is Declare || ast@ is Return,
        lowerable(ast@),
        extent(ast@) <= i32::MAX,
        intermediary + extent(ast@) <= i32::MAX,
    ensures
        created == used(ast@),
        hir_views(final(accum)@) == hir_views(old(accum)@) + lower(ast@, intermediary as int),
{
    let ghost start = hir_views(accum@);
    proof {
        lemma_ast_model(ast);
        lemma_lower_expression_statement(ast@, intermediary as int);
    }
    match ast {
        AST::Declare { var, expression } => {
            let ghost r = reduce(expression@, intermediary as int, false);
            let (result_expr, created) = reduce_expr_to_hir_declarations(
                expression,
                intermediary,
                accum,
                false,
            );
            let statement = HIR::Declare {
                var: var.name.clone(),
                typename: HIRTypeDef::Unresolved(HIRType::from_ast(&var.name_type)),
                expression: result_expr,
            };
            proof {
                lemma_hir_model(&statement);
            }
            emit(accum, statement);
            assert(hir_views(accum@) =~= start + lower(ast@, intermediary as int));
            created
        },
        AST::Assign { path, expression } => {
            let (result_expr, created) = reduce_expr_to_hir_declarations(
                expression,
                intermediary,
                accum,
                false,
            );
            let statement = HIR::Assign { path: clone_names(path), expression: result_expr };
            proof {
                lemma_hir_model(&statement);
            }
            emit(accum, statement);
            assert(hir_views(accum@) =~= start + lower(ast@, intermediary as int));
            created
        },
        AST::Return(None) => {
            emit(accum, HIR::EmptyReturn);
            assert(hir_views(accum@) =~= start + lower(ast@, intermediary as int));
            0
        },
        AST::Return(Some(e)) => {
            let (result_expr, created) = reduce_expr_to_hir_declarations(
                e,
                intermediary,
                accum,
                false,
            );
            let statement = HIR::Return(result_expr);
            emit(accum, statement);
            assert(hir_views(accum@) =~= start + lower(ast@, intermediary as int));
            created
        },
        AST::StandaloneExpr(expr) => {
            proof {
                lemma_expr_model(expr);
                lemma_standalone_call(expr@, intermediary as int);
            }
            let (result_expr, created) = reduce_expr_to_hir_declarations(
                expr,
                intermediary,
                accum,
                false,
            );
            match result_expr {
                HIRExpr::FunctionCall(function, args, _) => {
                    let statement = HIR::FunctionCall { function, args };
                    emit(accum, statement);
                    assert(hir_views(accum@) =~= start + lower(ast@, intermediary as int));
                    created
                },
                _ => unreached(),
            }
        },
        _ => unreached(),
    }
}

/// A call that is not made into a leaf is lowered to a call.
proof fn lemma_standalone_call(e: ExprView, counter: int)
    requires
        e is FunctionCall,
    ensures
        reduce(e, counter, false).expression is FunctionCall,
{
    lemma_reduce_function_call(*e->FunctionCall_0, e->FunctionCall_1, counter, false);
}

/// Lowers a conditional: the condition becomes a leaf, the branches are
/// lowered one after the other.
fn lower_if(ast: &AST, intermediary: i32, accum: &mut Vec<HIR>) -> (created: i32)
    requires
        ast@ is If,
        lowerable(ast@),
        extent(ast@) <= i32::MAX,
        intermediary + extent(ast@) <= i32::MAX,
    ensures
        created == used(ast@),
        hir_views(final(accum)@) == hir_views(old(accum)@) + lower(ast@, intermediary as int),
    decreases ast, 0nat,
{
    let ghost start = hir_views(accum@);
    proof {
        lemma_ast_model(ast);
    }
    match ast {
        AST::If(condition, true_branch, false_branch) => {
            proof {
                lemma_lower_if(
                    condition@,
                    ast_views(true_branch@),
                    ast_views(false_branch@),
                    intermediary as int,
                );
                lemma_used_all_within_extent(ast_views(true_branch@), true_branch@.len());
                lemma_used_all_within_extent(ast_views(false_branch@), false_branch@.len());
            }
            let (leaf, condition_used) = reduce_operand(condition, intermediary, accum);
            let mut true_body: Vec<HIR> = Vec::new();
            let true_used = lower_statements(
                true_branch,
                intermediary + condition_used,
                &mut true_body,
            );
            let mut false_body: Vec<HIR> = Vec::new();
            let false_used = lower_statements(
                false_branch,
                intermediary + condition_used + true_used,
                &mut false_body,
            );
            let statement = HIR::If(leaf, true_body, false_body);
            proof {
                lemma_hir_model(&statement);
                assert(hir_views(true_body@) =~= lower_all(
                    ast_views(true_branch@),
                    intermediary + condition_used,
                    true_branch@.len(),
                ));
                assert(hir_views(false_body@) =~= lower_all(
                    ast_views(false_branch@),
                    intermediary + condition_used + true_used,
                    false_branch@.len(),
                ));
            }
            emit(accum, statement);
            assert(hir_views(accum@) =~= start + lower(ast@, intermediary as int));
            condition_used + true_used + false_used
        },
        _ => unreached(),
    }
}

/// Lowers the declaration of a function or of a struct.
fn lower_declaration(ast: &AST, intermediary: i32, accum: &mut Vec<HIR>) -> (created: i32)
    requires
        ast@ is DeclareFunction || ast@ is StructDeclaration,
        lowerable(ast@),
        extent(ast@) <= i32::MAX,
        intermediary + extent(ast@) <= i32::MAX,
    ensures
        created == used(ast@),
        hir_views(final(accum)@) == hir_views(old(accum)@) + lower(ast@, intermediary as int),
    decreases ast, 0nat,
{
    let ghost start = hir_views(accum@);
    proof {
        lemma_ast_model(ast);
        lemma_lower_declaration(ast@, intermediary as int);
    }
    match ast {
        AST::DeclareFunction { function_name, parameters, body, return_type } => {
            let mut function_body: Vec<HIR> = Vec::new();
            lower_statements(body, intermediary, &mut function_body);
            let statement = HIR::DeclareFunction {
                function_name: function_name.clone(),
                parameters: lower_bound_names(parameters),
                body: function_body,
                return_type: match return_type {
                    Some(x) => HIRTypeDef::Unresolved(HIRType::from_ast(x)),
                    None => HIRTypeDef::Unresolved(HIRType::Simple("Void".to_owned())),
                },
            };
            proof {
                lemma_hir_model(&statement);
                assert(hir_views(function_body@) =~= lower_all(
                    ast_views(body@),
                    intermediary as int,
                    body@.len(),
                ));
            }
            emit(accum, statement);
            assert(hir_views(accum@) =~= start + lower(ast@, intermediary as int));
            0
        },
        AST::StructDeclaration { struct_name, body } => {
            let statement = HIR::StructDeclaration {
                struct_name: struct_name.clone(),
                body: lower_bound_names(body),
            };
            proof {
                lemma_hir_model(&statement);
            }
            emit(accum, statement);
            assert(hir_views(accum@) =~= start + lower(ast@, intermediary as int));
            0
        },
        _ => unreached(),
    }
}

/// Lowers a statement of the syntax tree: the statements it becomes are
/// appended to `accum`, the declarations of the synthetic variables that
/// its expressions need before the statement itself. `intermediary` is the
/// number of the next synthetic variable; the result is the number of
/// synthetic variables left declared in the scope of the statement. A
/// function keeps the synthetic variables of its body to itself.
pub fn ast_to_hir(ast: &AST, intermediary: i32, accum: &mut Vec<HIR>) -> (created: i32)
    requires
        lowerable(ast@),
        extent(ast@) <= i32::MAX,
        intermediary + extent(ast@) <= i32::MAX,
    ensures
        created == used(ast@),
        hir_views(final(accum)@) == hir_views(old(accum)@) + lower(ast@, intermediary as int),
    decreases ast, 1nat,
{
    match ast {
        AST::If(_, _, _) => lower_if(ast, intermediary, accum),
        AST::DeclareFunction { .. } => lower_declaration(ast, intermediary, accum),
        AST::StructDeclaration { .. } => lower_declaration(ast, intermediary, accum),
        AST::Root(ast_nodes) => {
            proof {
                lemma_ast_model(ast);
                lemma_lower_declaration(ast@, intermediary as int);
            }
            lower_statements(ast_nodes, intermediary, accum)
        },
        _ => lower_expression_statement(ast, intermediary, accum),
    }
}

} // verus!
