//! Tells beforehand whether a syntax tree can be lowered, and whether the
//! numbers of its synthetic variables fit the counter.
use vstd::prelude::*;
use crate::ast::{ast_views, expr_views, Expr, AST};
use crate::semantic::lowering::{
    all_lowerable, all_lowerable_statements, lemma_ast_model, lemma_expr_model,
};
use crate::semantic::lowering_rules::{
    extent, extent_all, larger, lowerable, lowerable_expr, own_temporary, temporaries,
    temporaries_all, used, used_all,
};

verus! {

/// One more than the largest number that a synthetic variable can have.
pub const COUNTER_LIMIT: u64 = 0x8000_0000;

/// A count, cut at the limit of the counter.
pub open spec fn capped(count: nat) -> u64 {
    if count >= COUNTER_LIMIT {
        COUNTER_LIMIT
    } else {
        count as u64
    }
}

/// The sum of two counts that are cut at the limit, cut at the limit.
fn capped_add(a: u64, b: u64, x: Ghost<nat>, y: Ghost<nat>) -> (sum: u64)
    requires
        a == capped(x@),
        b == capped(y@),
    ensures
        sum == capped(x@ + y@),
{
    if a + b >= COUNTER_LIMIT {
        COUNTER_LIMIT
    } else {
        a + b
    }
}

/// The larger of two counts.
fn larger_of(a: u64, b: u64) -> (max: u64)
    ensures
        max == (if a >= b {
            a
        } else {
            b
        }),
{
    if a >= b {
        a
    } else {
        b
    }
}

/// The number of synthetic variables that a list of operands needs, cut at
/// the limit; nothing if an operand cannot be lowered.
fn operands_demand(exprs: &Vec<Expr>) -> (demand: Option<u64>)
    ensures
        match demand {
            Some(count) => all_lowerable(expr_views(exprs@)) && count == capped(
                temporaries_all(expr_views(exprs@), exprs@.len()),
            ),
            None => !all_lowerable(expr_views(exprs@)),
        },
    decreases exprs, 0nat,
{
    let ghost views = expr_views(exprs@);
    let mut count: u64 = 0;
    let mut i: usize = 0;
    while i < exprs.len()
        invariant
            0 <= i <= exprs.len(),
            views == expr_views(exprs@),
            forall|k: int| 0 <= k < i ==> lowerable_expr(#[trigger] views[k]),
            count == capped(temporaries_all(views, i as nat)),
        decreases exprs.len() - i,
    {
        assert(views[i as int] == exprs@[i as int]@);
        match expr_demand(&exprs[i], true) {
            Some(n) => {
                count = capped_add(
                    count,
                    n,
                    Ghost(temporaries_all(views, i as nat)),
                    Ghost(temporaries(views[i as int], true)),
                );
            },
            None => {
                return None;
            },
        }
        i += 1;
    }
    Some(count)
}

/// The number of synthetic variables that an expression needs, cut at the
/// limit; nothing if the expression cannot be lowered.
pub fn expr_demand(expr: &Expr, reducing: bool) -> (demand: Option<u64>)
    ensures
        match demand {
            Some(count) => lowerable_expr(expr@) && count == capped(temporaries(expr@, reducing)),
            None => !lowerable_expr(expr@),
        },
    decreases expr, 1nat,
{
    proof {
        lemma_expr_model(expr);
    }
    let own: u64 = if reducing {
        1
    } else {
        0
    };
    assert(own == capped(own_temporary(reducing)));
    match expr {
        Expr::FunctionCall(function, args) => {
            let callee = match expr_demand(function, true) {
                Some(n) => n,
                None => {
                    return None;
                },
            };
            let rest = match operands_demand(args) {
                Some(n) => n,
                None => {
                    assert(expr@->FunctionCall_1 == expr_views(args@));
                    return None;
                },
            };
            let ghost a = temporaries(function@, true);
            let ghost b = temporaries_all(expr_views(args@), args@.len());
            let operands = capped_add(callee, rest, Ghost(a), Ghost(b));
            Some(capped_add(operands, own, Ghost(a + b), Ghost(own_temporary(reducing))))
        },
        Expr::IndexAccess(object, index) => {
            let target = match expr_demand(object, true) {
                Some(n) => n,
                None => {
                    return None;
                },
            };
            let position = match expr_demand(index, true) {
                Some(n) => n,
                None => {
                    return None;
                },
            };
            let ghost a = temporaries(object@, true);
            let ghost b = temporaries(index@, true);
            let with_method = capped_add(target, 1, Ghost(a), Ghost(1));
            let operands = capped_add(with_method, position, Ghost(a + 1), Ghost(b));
            Some(capped_add(operands, own, Ghost(a + 1 + b), Ghost(own_temporary(reducing))))
        },
        Expr::BinaryOperation(lhs, _, rhs) => {
            let left = match expr_demand(lhs, true) {
                Some(n) => n,
                None => {
                    return None;
                },
            };
            let right = match expr_demand(rhs, true) {
                Some(n) => n,
                None => {
                    return None;
                },
            };
            let ghost a = temporaries(lhs@, true);
            let ghost b = temporaries(rhs@, true);
            let operands = capped_add(left, right, Ghost(a), Ghost(b));
            Some(capped_add(operands, own, Ghost(a + b), Ghost(own_temporary(reducing))))
        },
        Expr::Parenthesized(_) => None,
        Expr::UnaryExpression(_, operand) => {
            match expr_demand(operand, true) {
                Some(n) => Some(
                    capped_add(
                        n,
                        own,
                        Ghost(temporaries(operand@, true)),
                        Ghost(own_temporary(reducing)),
                    ),
                ),
                None => None,
            }
        },
        Expr::MemberAccess(object, _) => {
            match expr_demand(object, true) {
                Some(n) => Some(
                    capped_add(
                        n,
                        own,
                        Ghost(temporaries(object@, true)),
                        Ghost(own_temporary(reducing)),
                    ),
                ),
                None => None,
            }
        },
        Expr::Array(items) => {
            match operands_demand(items) {
                Some(n) => Some(
                    capped_add(
                        n,
                        own,
                        Ghost(temporaries_all(expr_views(items@), items@.len())),
                        Ghost(own_temporary(reducing)),
                    ),
                ),
                None => {
                    assert(expr@->Array_0 == expr_views(items@));
                    None
                },
            }
        },
        _ => Some(0),
    }
}

/// What lowering a statement takes: the number of synthetic variables
/// that it leaves declared, and how far it moves the counter, both cut at
/// the limit.
pub struct Demand {
    pub used: u64,
    pub extent: u64,
}

/// What lowering a list of statements takes; nothing if one of them
/// cannot be lowered.
fn statements_demand(nodes: &Vec<AST>) -> (demand: Option<Demand>)
    ensures
        match demand {
            Some(d) => all_lowerable_statements(ast_views(nodes@)) && d.used == capped(
                used_all(ast_views(nodes@), nodes@.len()),
            ) && d.extent == capped(extent_all(ast_views(nodes@), nodes@.len())),
            None => !all_lowerable_statements(ast_views(nodes@)),
        },
    decreases nodes, 0nat,
{
    let ghost views = ast_views(nodes@);
    let mut total = Demand { used: 0, extent: 0 };
    let mut i: usize = 0;
    while i < nodes.len()
        invariant
            0 <= i <= nodes.len(),
            views == ast_views(nodes@),
            forall|k: int| 0 <= k < i ==> lowerable(#[trigger] views[k]),
            total.used == capped(used_all(views, i as nat)),
            total.extent == capped(extent_all(views, i as nat)),
        decreases nodes.len() - i,
    {
        assert(views[i as int] == nodes@[i as int]@);
        match lowering_demand(&nodes[i]) {
            Some(d) => {
                let reach = capped_add(
                    total.used,
                    d.extent,
                    Ghost(used_all(views, i as nat)),
                    Ghost(extent(views[i as int])),
                );
                total = Demand {
                    used: capped_add(
                        total.used,
                        d.used,
                        Ghost(used_all(views, i as nat)),
                        Ghost(used(views[i as int])),
                    ),
                    extent: larger_of(total.extent, reach),
                };
            },
            None => {
                return None;
            },
        }
        i += 1;
    }
    Some(total)
}

/// What lowering a statement takes; nothing if the statement cannot be
/// lowered.
pub fn lowering_demand(ast: &AST) -> (demand: Option<Demand>)
    ensures
        match demand {
            Some(d) => lowerable(ast@) && d.used == capped(used(ast@)) && d.extent == capped(
                extent(ast@),
            ),
            None => !lowerable(ast@),
        },
    decreases ast, 1nat,
{
    proof {
        lemma_ast_model(ast);
    }
    match ast {
        AST::StandaloneExpr(e) => {
            proof {
                lemma_expr_model(e);
            }
            match e {
                Expr::FunctionCall(_, _) => {
                    match expr_demand(e, false) {
                        Some(n) => Some(Demand { used: n, extent: n }),
                        None => None,
                    }
                },
                _ => None,
            }
        },
        AST::Assign { expression, .. } => {
            match expr_demand(expression, false) {
                Some(n) => Some(Demand { used: n, extent: n }),
                None => None,
            }
        },
        AST::Declare { expression, .. } => {
            match expr_demand(expression, false) {
                Some(n) => Some(Demand { used: n, extent: n }),
                None => None,
            }
        },
        AST::If(condition, true_branch, false_branch) => {
            let first = match expr_demand(condition, true) {
                Some(n) => n,
                None => {
                    return None;
                },
            };
            let second = match statements_demand(true_branch) {
                Some(d) => d,
                None => {
                    assert(ast@->If_1 == ast_views(true_branch@));
                    return None;
                },
            };
            let third = match statements_demand(false_branch) {
                Some(d) => d,
                None => {
                    assert(ast@->If_2 == ast_views(false_branch@));
                    return None;
                },
            };
            let ghost c = temporaries(condition@, true);
            let ghost t_used = used_all(ast_views(true_branch@), true_branch@.len());
            let ghost t_extent = extent_all(ast_views(true_branch@), true_branch@.len());
            let ghost f_used = used_all(ast_views(false_branch@), false_branch@.len());
            let ghost f_extent = extent_all(ast_views(false_branch@), false_branch@.len());
            let used_before_else = capped_add(first, second.used, Ghost(c), Ghost(t_used));
            let in_true = capped_add(first, second.extent, Ghost(c), Ghost(t_extent));
            let in_false = capped_add(
                used_before_else,
                third.extent,
                Ghost(c + t_used),
                Ghost(f_extent),
            );
            Some(
                Demand {
                    used: capped_add(
                        used_before_else,
                        third.used,
                        Ghost(c + t_used),
                        Ghost(f_used),
                    ),
                    extent: larger_of(in_true, in_false),
                },
            )
        },
        AST::DeclareFunction { body, .. } => {
            match statements_demand(body) {
                Some(d) => Some(Demand { used: 0, extent: d.extent }),
                None => {
                    assert(ast@->DeclareFunction_body == ast_views(body@));
                    None
                },
            }
        },
        AST::StructDeclaration { .. } => Some(Demand { used: 0, extent: 0 }),
        AST::Return(e) => {
            match e {
                Some(e) => {
                    match expr_demand(e, false) {
                        Some(n) => Some(Demand { used: n, extent: n }),
                        None => None,
                    }
                },
                None => Some(Demand { used: 0, extent: 0 }),
            }
        },
        AST::Root(nodes) => {
            assert(ast@->Root_0 == ast_views(nodes@));
            statements_demand(nodes)
        },
    }
}

/// Whether `ast` can be lowered with synthetic variables numbered from
/// `intermediary` on: lowering handles every part of it, and no number
/// goes beyond the counter.
pub fn can_lower(ast: &AST, intermediary: i32) -> (possible: bool)
    ensures
        possible == (lowerable(ast@) && extent(ast@) <= i32::MAX && intermediary + extent(ast@)
            <= i32::MAX),
{
    match lowering_demand(ast) {
        Some(d) => d.extent < COUNTER_LIMIT && intermediary as i64 + d.extent as i64
            <= i32::MAX as i64,
        None => false,
    }
}

} // verus!
