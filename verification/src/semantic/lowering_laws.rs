//! What holds of everything that lowering produces: the synthetic
//! variables of a scope are numbered one after the other, so no two of
//! them have the same name.
use vstd::prelude::*;
use crate::ast::{ASTView, ExprView};
use crate::semantic::hir::{HIRExprView, HIRTypeDefView, HIRView};
use crate::semantic::lowering_rules::{
    declare_intermediary, finish, intermediary_name, lemma_lower_all, lemma_lower_declaration,
    lemma_lower_expression_statement, lemma_lower_if, lemma_reduce_all, lemma_reduce_array,
    lemma_reduce_binary_operation, lemma_reduce_function_call, lemma_reduce_index_access,
    lemma_reduce_member_access, lemma_reduce_trivial, lemma_reduce_unary_expression, lower,
    lower_all, lowerable, lowerable_expr, own_temporary, reduce, reduce_all, temporaries,
    temporaries_all, used, used_all,
};
use crate::text::lemma_decimal_injective;

verus! {

/// The names that a statement declares with a pending type in the scope
/// it stands in, in their order: its own if it is such a declaration,
/// those of its branches if it is a conditional.
pub open spec fn pending_names_in(statement: HIRView) -> Seq<Seq<char>>
    decreases statement, 0nat,
{
    match statement {
        HIRView::Declare { var, typename, .. } => if typename is Pending {
            seq![var]
        } else {
            Seq::empty()
        },
        HIRView::If(_, true_branch, false_branch) => pending_names(true_branch, true_branch.len())
            + pending_names(false_branch, false_branch.len()),
        _ => Seq::empty(),
    }
}

/// The names that the first `n` of `statements` declare with a pending
/// type, in their order.
pub open spec fn pending_names(statements: Seq<HIRView>, n: nat) -> Seq<Seq<char>>
    decreases statements, n,
{
    if n == 0 || n > statements.len() {
        Seq::empty()
    } else {
        pending_names(statements, (n - 1) as nat) + pending_names_in(statements[n - 1])
    }
}

/// The names of the synthetic variables `counter`, `counter + 1`, ...,
/// `count` of them.
pub open spec fn numbered(counter: int, count: nat) -> Seq<Seq<char>> {
    Seq::new(count, |i: int| intermediary_name(counter + i))
}

/// Synthetic variables of different numbers have different names.
pub proof fn lemma_intermediary_name_injective(a: int, b: int)
    requires
        intermediary_name(a) == intermediary_name(b),
    ensures
        a == b,
{
    let x = crate::text::decimal(a);
    let y = crate::text::decimal(b);
    assert((seq!['$'] + x).subrange(1, 1 + x.len() as int) =~= x);
    assert((seq!['$'] + y).subrange(1, 1 + y.len() as int) =~= y);
    assert(intermediary_name(a).len() == 1 + x.len());
    assert(intermediary_name(b).len() == 1 + y.len());
    lemma_decimal_injective(a, b);
}

/// The names of synthetic variables numbered one after the other are all
/// different.
pub proof fn lemma_numbered_distinct(counter: int, count: nat)
    ensures
        numbered(counter, count).no_duplicates(),
{
    assert forall|i: int, j: int|
        0 <= i < count && 0 <= j < count && i != j implies numbered(counter, count)[i] != numbered(
        counter,
        count,
    )[j] by {
        if intermediary_name(counter + i) == intermediary_name(counter + j) {
            lemma_intermediary_name_injective(counter + i, counter + j);
        }
    }
}

/// Numbering on from where a numbering ends continues it.
pub proof fn lemma_numbered_append(counter: int, first: nat, second: nat)
    ensures
        numbered(counter, first) + numbered(counter + first, second) == numbered(
            counter,
            first + second,
        ),
{
    assert(numbered(counter, first) + numbered(counter + first, second) =~= numbered(
        counter,
        first + second,
    ));
}

/// The pending names of a prefix that is as long as a whole list are
/// those of the list.
pub proof fn lemma_pending_names_prefix(whole: Seq<HIRView>, prefix: Seq<HIRView>, n: nat)
    requires
        n <= prefix.len() <= whole.len(),
        forall|i: int| 0 <= i < prefix.len() ==> prefix[i] == whole[i],
    ensures
        pending_names(whole, n) == pending_names(prefix, n),
    decreases n,
{
    if n > 0 {
        lemma_pending_names_prefix(whole, prefix, (n - 1) as nat);
    }
}

/// The pending names of two lists, one after the other.
pub proof fn lemma_pending_names_concat(a: Seq<HIRView>, b: Seq<HIRView>, n: nat)
    requires
        n <= b.len(),
    ensures
        pending_names(a + b, a.len() + n) == pending_names(a, a.len()) + pending_names(b, n),
    decreases n,
{
    if n == 0 {
        lemma_pending_names_prefix(a + b, a, a.len());
        assert(pending_names(a, a.len()) + Seq::<Seq<char>>::empty() =~= pending_names(
            a,
            a.len(),
        ));
    } else {
        lemma_pending_names_concat(a, b, (n - 1) as nat);
        assert((a + b)[a.len() + n - 1] == b[n - 1]);
        assert(pending_names(a, a.len()) + pending_names(b, (n - 1) as nat) + pending_names_in(
            b[n - 1],
        ) =~= pending_names(a, a.len()) + (pending_names(b, (n - 1) as nat) + pending_names_in(
            b[n - 1],
        )));
    }
}

/// The pending names of a list with one statement more.
pub proof fn lemma_pending_names_push(a: Seq<HIRView>, statement: HIRView)
    ensures
        pending_names(a.push(statement), a.len() + 1) == pending_names(a, a.len())
            + pending_names_in(statement),
{
    lemma_pending_names_prefix(a.push(statement), a, a.len());
}

/// The declarations that `finish` makes are those made before, and the
/// synthetic variable `counter` if the expression is bound to one.
proof fn lemma_finish_names(
    declarations: Seq<HIRView>,
    composite: HIRExprView,
    counter: int,
    reducing: bool,
    start: int,
    before: nat,
)
    requires
        pending_names(declarations, declarations.len()) == numbered(start, before),
        counter == start + before,
    ensures
        pending_names(
            finish(declarations, composite, counter, reducing).declarations,
            finish(declarations, composite, counter, reducing).declarations.len(),
        ) == numbered(start, before + own_temporary(reducing)),
{
    if reducing {
        lemma_pending_names_push(declarations, declare_intermediary(counter, composite));
        assert(pending_names_in(declare_intermediary(counter, composite)) =~= numbered(counter, 1));
        lemma_numbered_append(start, before, 1);
    }
}

/// Lowering an expression declares the synthetic variables `counter`,
/// `counter + 1`, ... one after the other, as many as the expression
/// needs, and nothing else with a pending type.
pub proof fn lemma_reduce_names(e: ExprView, counter: int, reducing: bool)
    requires
        lowerable_expr(e),
    ensures
        pending_names(
            reduce(e, counter, reducing).declarations,
            reduce(e, counter, reducing).declarations.len(),
        ) == numbered(counter, temporaries(e, reducing)),
    decreases e, 0nat,
{
    match e {
        ExprView::FunctionCall(function, args) => {
            assert(e->FunctionCall_1 == args);
            lemma_reduce_function_call(*function, args, counter, reducing);
            lemma_reduce_names(*function, counter, true);
            let first = temporaries(*function, true);
            lemma_reduce_all_names(args, counter + first, args.len());
            let a = reduce(*function, counter, true).declarations;
            let b = reduce_all(args, counter + first, args.len()).declarations;
            lemma_pending_names_concat(a, b, b.len());
            lemma_numbered_append(counter, first, temporaries_all(args, args.len()));
            lemma_finish_names(
                a + b,
                HIRExprView::FunctionCall(
                    crate::semantic::lowering_rules::leaf_of(
                        reduce(*function, counter, true).expression,
                    ),
                    reduce_all(args, counter + first, args.len()).leaves,
                    HIRTypeDefView::Pending,
                ),
                counter + first + temporaries_all(args, args.len()),
                reducing,
                counter,
                first + temporaries_all(args, args.len()),
            );
        },
        ExprView::IndexAccess(object, index) => {
            lemma_reduce_index_access(*object, *index, counter, reducing);
            lemma_reduce_names(*object, counter, true);
            let first = temporaries(*object, true);
            let method = counter + first;
            lemma_reduce_names(*index, method + 1, true);
            let a = reduce(*object, counter, true).declarations;
            let member = declare_intermediary(
                method,
                HIRExprView::MemberAccess(
                    crate::semantic::lowering_rules::leaf_of(
                        reduce(*object, counter, true).expression,
                    ),
                    "__index__"@,
                    HIRTypeDefView::Pending,
                ),
            );
            let b = reduce(*index, method + 1, true).declarations;
            lemma_pending_names_push(a, member);
            assert(pending_names_in(member) =~= numbered(method, 1));
            lemma_numbered_append(counter, first, 1);
            lemma_pending_names_concat(a.push(member), b, b.len());
            lemma_numbered_append(counter, first + 1, temporaries(*index, true));
            lemma_finish_names(
                a.push(member) + b,
                HIRExprView::FunctionCall(
                    crate::semantic::lowering_rules::intermediary_leaf(method),
                    seq![
                        crate::semantic::lowering_rules::leaf_of(
                            reduce(*index, method + 1, true).expression,
                        ),
                    ],
                    HIRTypeDefView::Pending,
                ),
                method + 1 + temporaries(*index, true),
                reducing,
                counter,
                first + 1 + temporaries(*index, true),
            );
        },
        ExprView::BinaryOperation(lhs, op, rhs) => {
            lemma_reduce_binary_operation(*lhs, op, *rhs, counter, reducing);
            lemma_reduce_names(*lhs, counter, true);
            let first = temporaries(*lhs, true);
            lemma_reduce_names(*rhs, counter + first, true);
            let a = reduce(*lhs, counter, true).declarations;
            let b = reduce(*rhs, counter + first, true).declarations;
            lemma_pending_names_concat(a, b, b.len());
            lemma_numbered_append(counter, first, temporaries(*rhs, true));
            lemma_finish_names(
                a + b,
                HIRExprView::BinaryOperation(
                    crate::semantic::lowering_rules::leaf_of(reduce(*lhs, counter, true).expression),
                    op,
                    crate::semantic::lowering_rules::leaf_of(
                        reduce(*rhs, counter + first, true).expression,
                    ),
                    HIRTypeDefView::Pending,
                ),
                counter + first + temporaries(*rhs, true),
                reducing,
                counter,
                first + temporaries(*rhs, true),
            );
        },
        ExprView::UnaryExpression(op, operand) => {
            lemma_reduce_unary_expression(op, *operand, counter, reducing);
            lemma_reduce_names(*operand, counter, true);
            lemma_finish_names(
                reduce(*operand, counter, true).declarations,
                HIRExprView::UnaryExpression(
                    op,
                    crate::semantic::lowering_rules::leaf_of(
                        reduce(*operand, counter, true).expression,
                    ),
                    HIRTypeDefView::Pending,
                ),
                counter + temporaries(*operand, true),
                reducing,
                counter,
                temporaries(*operand, true),
            );
        },
        ExprView::MemberAccess(object, member) => {
            lemma_reduce_member_access(*object, member, counter, reducing);
            lemma_reduce_names(*object, counter, true);
            lemma_finish_names(
                reduce(*object, counter, true).declarations,
                HIRExprView::MemberAccess(
                    crate::semantic::lowering_rules::leaf_of(
                        reduce(*object, counter, true).expression,
                    ),
                    member,
                    HIRTypeDefView::Pending,
                ),
                counter + temporaries(*object, true),
                reducing,
                counter,
                temporaries(*object, true),
            );
        },
        ExprView::Array(items) => {
            assert(e->Array_0 == items);
            lemma_reduce_array(items, counter, reducing);
            lemma_reduce_all_names(items, counter, items.len());
            lemma_finish_names(
                reduce_all(items, counter, items.len()).declarations,
                HIRExprView::Array(
                    reduce_all(items, counter, items.len()).leaves,
                    HIRTypeDefView::Pending,
                ),
                counter + temporaries_all(items, items.len()),
                reducing,
                counter,
                temporaries_all(items, items.len()),
            );
        },
        ExprView::Parenthesized(_) => {},
        _ => {
            lemma_reduce_trivial(e, counter, reducing);
            assert(numbered(counter, 0) =~= Seq::<Seq<char>>::empty());
        },
    }
}

/// Lowering a list of operands declares the synthetic variables
/// `counter`, `counter + 1`, ... one after the other.
pub proof fn lemma_reduce_all_names(es: Seq<ExprView>, counter: int, n: nat)
    requires
        n <= es.len(),
        forall|i: int| 0 <= i < es.len() ==> lowerable_expr(#[trigger] es[i]),
    ensures
        pending_names(
            reduce_all(es, counter, n).declarations,
            reduce_all(es, counter, n).declarations.len(),
        ) == numbered(counter, temporaries_all(es, n)),
    decreases es, n,
{
    lemma_reduce_all(es, counter, n);
    if n == 0 {
        assert(numbered(counter, 0) =~= Seq::<Seq<char>>::empty());
    } else {
        lemma_reduce_all_names(es, counter, (n - 1) as nat);
        let before = temporaries_all(es, (n - 1) as nat);
        lemma_reduce_names(es[n - 1], counter + before, true);
        let a = reduce_all(es, counter, (n - 1) as nat).declarations;
        let b = reduce(es[n - 1], counter + before, true).declarations;
        lemma_pending_names_concat(a, b, b.len());
        lemma_numbered_append(counter, before, temporaries(es[n - 1], true));
    }
}

/// Lowering a statement declares, in the scope of the statement, the
/// synthetic variables `counter`, `counter + 1`, ... one after the other,
/// as many as the statement leaves declared, and nothing else with a
/// pending type.
pub proof fn lemma_lower_names(ast: ASTView, counter: int)
    requires
        lowerable(ast),
    ensures
        pending_names(lower(ast, counter), lower(ast, counter).len()) == numbered(
            counter,
            used(ast),
        ),
    decreases ast, 0nat,
{
    match ast {
        ASTView::StandaloneExpr(e) => {
            lemma_lower_expression_statement(ast, counter);
            lemma_reduce_names(e, counter, false);
            let r = reduce(e, counter, false);
            match r.expression {
                HIRExprView::FunctionCall(function, args, _) => {
                    lemma_pending_names_push(
                        r.declarations,
                        HIRView::FunctionCall { function, args },
                    );
                    assert(numbered(counter, used(ast)) + Seq::<Seq<char>>::empty() =~= numbered(
                        counter,
                        used(ast),
                    ));
                },
                _ => {},
            }
        },
        ASTView::Assign { path, expression } => {
            lemma_lower_expression_statement(ast, counter);
            lemma_reduce_names(expression, counter, false);
            let r = reduce(expression, counter, false);
            lemma_pending_names_push(
                r.declarations,
                HIRView::Assign { path, expression: r.expression },
            );
            assert(numbered(counter, used(ast)) + Seq::<Seq<char>>::empty() =~= numbered(
                counter,
                used(ast),
            ));
        },
        ASTView::Declare { var, expression } => {
            lemma_lower_expression_statement(ast, counter);
            lemma_reduce_names(expression, counter, false);
            let r = reduce(expression, counter, false);
            lemma_pending_names_push(
                r.declarations,
                HIRView::Declare {
                    var: var.name,
                    typename: HIRTypeDefView::Unresolved(
                        crate::semantic::lowering_rules::hir_type_of(var.name_type),
                    ),
                    expression: r.expression,
                },
            );
            assert(numbered(counter, used(ast)) + Seq::<Seq<char>>::empty() =~= numbered(
                counter,
                used(ast),
            ));
        },
        ASTView::If(condition, true_branch, false_branch) => {
            assert(ast->If_1 == true_branch);
            assert(ast->If_2 == false_branch);
            lemma_lower_if(condition, true_branch, false_branch, counter);
            lemma_reduce_names(condition, counter, true);
            let first = temporaries(condition, true);
            let second = used_all(true_branch, true_branch.len());
            let third = used_all(false_branch, false_branch.len());
            lemma_lower_all_names(true_branch, counter + first, true_branch.len());
            lemma_lower_all_names(false_branch, counter + first + second, false_branch.len());
            let r = reduce(condition, counter, true);
            let statement = HIRView::If(
                crate::semantic::lowering_rules::leaf_of(r.expression),
                lower_all(true_branch, counter + first, true_branch.len()),
                lower_all(false_branch, counter + first + second, false_branch.len()),
            );
            lemma_pending_names_push(r.declarations, statement);
            lemma_numbered_append(counter + first, second, third);
            lemma_numbered_append(counter, first, second + third);
        },
        ASTView::DeclareFunction { function_name, parameters, body, return_type } => {
            lemma_lower_declaration(ast, counter);
            let statement = lower(ast, counter)[0];
            assert(lower(ast, counter) =~= Seq::<HIRView>::empty().push(statement));
            lemma_pending_names_push(Seq::empty(), statement);
            assert(pending_names(lower(ast, counter), 1) =~= numbered(counter, 0));
        },
        ASTView::StructDeclaration { struct_name, body } => {
            lemma_lower_declaration(ast, counter);
            let statement = lower(ast, counter)[0];
            assert(lower(ast, counter) =~= Seq::<HIRView>::empty().push(statement));
            lemma_pending_names_push(Seq::empty(), statement);
            assert(pending_names(lower(ast, counter), 1) =~= numbered(counter, 0));
        },
        ASTView::Return(e) => {
            lemma_lower_expression_statement(ast, counter);
            match e {
                Some(e) => {
                    lemma_reduce_names(e, counter, false);
                    let r = reduce(e, counter, false);
                    lemma_pending_names_push(r.declarations, HIRView::Return(r.expression));
                    assert(numbered(counter, used(ast)) + Seq::<Seq<char>>::empty() =~= numbered(
                        counter,
                        used(ast),
                    ));
                },
                None => {
                    let statement = HIRView::EmptyReturn;
                    assert(lower(ast, counter) =~= Seq::<HIRView>::empty().push(statement));
                    lemma_pending_names_push(Seq::empty(), statement);
                    assert(pending_names(lower(ast, counter), 1) =~= numbered(counter, 0));
                },
            }
        },
        ASTView::Root(nodes) => {
            assert(ast->Root_0 == nodes);
            lemma_lower_declaration(ast, counter);
            lemma_lower_all_names(nodes, counter, nodes.len());
        },
    }
}

/// Lowering statements one after the other declares the synthetic
/// variables `counter`, `counter + 1`, ... one after the other.
pub proof fn lemma_lower_all_names(nodes: Seq<ASTView>, counter: int, n: nat)
    requires
        n <= nodes.len(),
        forall|i: int| 0 <= i < nodes.len() ==> lowerable(#[trigger] nodes[i]),
    ensures
        pending_names(lower_all(nodes, counter, n), lower_all(nodes, counter, n).len())
            == numbered(counter, used_all(nodes, n)),
    decreases nodes, n,
{
    lemma_lower_all(nodes, counter, n);
    if n == 0 {
        assert(numbered(counter, 0) =~= Seq::<Seq<char>>::empty());
    } else {
        lemma_lower_all_names(nodes, counter, (n - 1) as nat);
        let before = used_all(nodes, (n - 1) as nat);
        lemma_lower_names(nodes[n - 1], counter + before);
        let a = lower_all(nodes, counter, (n - 1) as nat);
        let b = lower(nodes[n - 1], counter + before);
        lemma_pending_names_concat(a, b, b.len());
        lemma_numbered_append(counter, before, used(nodes[n - 1]));
    }
}

/// Synthetic names are unique within a function body: the names that the
/// lowered body of a function declares with a pending type, which are its
/// synthetic variables, are all different.
pub proof fn lemma_synthetic_names_unique(body: Seq<ASTView>, counter: int)
    requires
        forall|i: int| 0 <= i < body.len() ==> lowerable(#[trigger] body[i]),
    ensures
        pending_names(
            lower_all(body, counter, body.len()),
            lower_all(body, counter, body.len()).len(),
        ).no_duplicates(),
{
    lemma_lower_all_names(body, counter, body.len());
    lemma_numbered_distinct(counter, used_all(body, body.len()));
}

} // verus!
