//! First-assignment promotion: the first assignment to a name that is not
//! declared in its scope becomes the declaration of that name.
use vstd::prelude::*;
use crate::semantic::hir::{
    clone_bound_names, hir_bound_name_views, hir_views, lemma_hir_model, HIRTypeDef,
    HIRTypeDefView, HIRTypedBoundName, HIRTypedBoundNameView, HIRView, HIR,
};
use crate::semantic::names::NameSet;

verus! {

/// The name that a statement brings into its scope: the variable of a
/// declaration, or the target of an assignment to a plain name.
pub open spec fn introduced(statement: HIRView) -> Option<Seq<char>> {
    match statement {
        HIRView::Declare { var, .. } => Some(var),
        HIRView::Assign { path, .. } => if path.len() == 1 {
            Some(path[0])
        } else {
            None
        },
        _ => None,
    }
}

/// The scope with the name that `statement` brings into it.
pub open spec fn scope_with(scope: Set<Seq<char>>, statement: HIRView) -> Set<Seq<char>> {
    match introduced(statement) {
        Some(name) => scope.insert(name),
        None => scope,
    }
}

/// The names in scope after the first `n` statements of `body`, where
/// `scope` holds the names in scope before it.
pub open spec fn scope_after(body: Seq<HIRView>, scope: Set<Seq<char>>, n: nat) -> Set<Seq<char>>
    decreases n,
{
    if n == 0 || n > body.len() {
        scope
    } else {
        scope_with(scope_after(body, scope, (n - 1) as nat), body[n - 1])
    }
}

/// The statement after promotion, where `scope` holds the names declared
/// before it: an assignment to a plain name that is not in scope becomes
/// its declaration with a pending type; the branches of a conditional are
/// promoted each in a scope of its own that begins as `scope`.
pub open spec fn promoted(statement: HIRView, scope: Set<Seq<char>>) -> HIRView
    decreases statement, 0nat,
{
    match statement {
        HIRView::Assign { path, expression } => if path.len() == 1 && !scope.contains(path[0]) {
            HIRView::Declare { var: path[0], typename: HIRTypeDefView::Pending, expression }
        } else {
            statement
        },
        HIRView::If(condition, true_branch, false_branch) => HIRView::If(
            condition,
            promoted_body(true_branch, scope, true_branch.len()),
            promoted_body(false_branch, scope, false_branch.len()),
        ),
        _ => statement,
    }
}

/// The first `n` statements of `body` after promotion, where `scope` holds
/// the names in scope before the body.
pub open spec fn promoted_body(body: Seq<HIRView>, scope: Set<Seq<char>>, n: nat) -> Seq<HIRView>
    decreases body, n,
{
    if n == 0 || n > body.len() {
        Seq::empty()
    } else {
        promoted_body(body, scope, (n - 1) as nat).push(
            promoted(body[n - 1], scope_after(body, scope, (n - 1) as nat)),
        )
    }
}

/// The names of the parameters of a function.
pub open spec fn parameter_names(parameters: Seq<HIRTypedBoundNameView>) -> Set<Seq<char>> {
    Set::new(
        |name: Seq<char>|
            exists|i: int| 0 <= i < parameters.len() && (#[trigger] parameters[i]).name == name,
    )
}

/// A statement of the top level after promotion: the body of a function
/// is promoted in the scope of its parameters, everything else stays.
pub open spec fn promoted_top_level(statement: HIRView) -> HIRView {
    match statement {
        HIRView::DeclareFunction { function_name, parameters, body, return_type } => {
            HIRView::DeclareFunction {
                function_name,
                parameters,
                body: promoted_body(body, parameter_names(parameters), body.len()),
                return_type,
            }
        },
        _ => statement,
    }
}

/// The program after promotion.
pub open spec fn transformed(mir: Seq<HIRView>) -> Seq<HIRView> {
    Seq::new(mir.len(), |i: int| promoted_top_level(mir[i]))
}

/// Promotes the statements of a body; `scope` holds the names declared
/// before it and, in the end, those declared in it too.
fn promote_body(body: &Vec<HIR>, scope: &mut NameSet) -> (result: Vec<HIR>)
    ensures
        hir_views(result@) == promoted_body(hir_views(body@), old(scope)@, body@.len()),
        final(scope)@ == scope_after(hir_views(body@), old(scope)@, body@.len()),
    decreases body,
{
    let ghost views = hir_views(body@);
    let ghost start = scope@;
    let mut result: Vec<HIR> = Vec::new();
    let mut i: usize = 0;
    assert(hir_views(result@) =~= promoted_body(views, start, 0));
    while i < body.len()
        invariant
            0 <= i <= body.len(),
            views == hir_views(body@),
            hir_views(result@) == promoted_body(views, start, i as nat),
            scope@ == scope_after(views, start, i as nat),
        decreases body.len() - i,
    {
        let ghost before = hir_views(result@);
        let ghost scope_before = scope@;
        proof {
            assert(views[i as int] == body@[i as int]@);
            lemma_hir_model(&body@[i as int]);
        }
        let statement = match &body[i] {
            HIR::Assign { path, expression } => {
                if path.len() == 1 && !scope.contains(path[0].as_str()) {
                    scope.insert(path[0].clone());
                    HIR::Declare {
                        var: path[0].clone(),
                        typename: HIRTypeDef::Pending,
                        expression: expression.clone(),
                    }
                } else {
                    proof {
                        if path@.len() == 1 {
                            assert(scope_before.insert(path@[0]@) =~= scope_before);
                        }
                    }
                    body[i].clone()
                }
            },
            HIR::Declare { var, .. } => {
                scope.insert(var.clone());
                body[i].clone()
            },
            HIR::If(condition, true_branch, false_branch) => {
                let mut true_scope = scope.clone();
                let true_body = promote_body(true_branch, &mut true_scope);
                let mut false_scope = scope.clone();
                let false_body = promote_body(false_branch, &mut false_scope);
                HIR::If(condition.clone(), true_body, false_body)
            },
            _ => body[i].clone(),
        };
        proof {
            lemma_hir_model(&statement);
            assert(statement@ == promoted(views[i as int], scope_before));
        }
        result.push(statement);
        i += 1;
        assert(hir_views(result@) =~= before.push(promoted(views[i - 1], scope_before)));
    }
    result
}

/// The names of the parameters of a function, as a set.
pub fn collect_parameter_names(parameters: &Vec<HIRTypedBoundName>) -> (scope: NameSet)
    ensures
        scope@ == parameter_names(hir_bound_name_views(parameters@)),
{
    let ghost views = hir_bound_name_views(parameters@);
    let mut scope = NameSet::new();
    let mut i: usize = 0;
    while i < parameters.len()
        invariant
            0 <= i <= parameters.len(),
            views == hir_bound_name_views(parameters@),
            forall|name: Seq<char>|
                scope@.contains(name) <==> exists|k: int|
                    0 <= k < i && (#[trigger] views[k]).name == name,
        decreases parameters.len() - i,
    {
        let ghost before = scope@;
        scope.insert(parameters[i].name.clone());
        i += 1;
        assert forall|name: Seq<char>| scope@.contains(name) <==> exists|k: int|
            0 <= k < i && (#[trigger] views[k]).name == name by {
            if scope@.contains(name) {
                if before.contains(name) {
                    let k = choose|k: int| 0 <= k < i - 1 && (#[trigger] views[k]).name == name;
                    assert(views[k].name == name);
                } else {
                    assert(views[i - 1].name == name);
                }
            }
            if exists|k: int| 0 <= k < i && (#[trigger] views[k]).name == name {
                let k = choose|k: int| 0 <= k < i && (#[trigger] views[k]).name == name;
                if k < i - 1 {
                    assert(before.contains(name));
                }
            }
        }
    }
    assert(scope@ =~= parameter_names(views));
    scope
}

/// Rewrites, in every function of the program, the first assignment to a
/// name that is not declared in its scope into the declaration of that
/// name, with a pending type. Assignments through a path of several
/// segments are writes to fields and stay as they are.
pub fn transform_first_assignment_into_declaration(mir: Vec<HIR>) -> (result: Vec<HIR>)
    ensures
        hir_views(result@) == transformed(hir_views(mir@)),
{
    let ghost views = hir_views(mir@);
    let mut result: Vec<HIR> = Vec::new();
    let mut i: usize = 0;
    while i < mir.len()
        invariant
            0 <= i <= mir.len(),
            views == hir_views(mir@),
            result@.len() == i,
            forall|k: int| 0 <= k < i ==> (#[trigger] result@[k])@ == promoted_top_level(views[k]),
        decreases mir.len() - i,
    {
        proof {
            assert(views[i as int] == mir@[i as int]@);
            lemma_hir_model(&mir@[i as int]);
        }
        let statement = match &mir[i] {
            HIR::DeclareFunction { function_name, parameters, body, return_type } => {
                let mut scope = collect_parameter_names(parameters);
                let new_body = promote_body(body, &mut scope);
                HIR::DeclareFunction {
                    function_name: function_name.clone(),
                    parameters: clone_bound_names(parameters),
                    body: new_body,
                    return_type: return_type.clone(),
                }
            },
            _ => mir[i].clone(),
        };
        proof {
            lemma_hir_model(&statement);
        }
        result.push(statement);
        i += 1;
    }
    assert(hir_views(result@) =~= transformed(views));
    result
}

/// The statements of a promoted body, one by one: statement `k` is
/// promoted in the scope that the statements before it leave.
pub proof fn lemma_promoted_body_index(
    body: Seq<HIRView>,
    scope: Set<Seq<char>>,
    n: nat,
    k: int,
)
    requires
        0 <= k < n <= body.len(),
    ensures
        promoted_body(body, scope, n).len() == n,
        promoted_body(body, scope, n)[k] == promoted(body[k], scope_after(body, scope, k as nat)),
    decreases n,
{
    lemma_promoted_body_len(body, scope, (n - 1) as nat);
    if k < n - 1 {
        lemma_promoted_body_index(body, scope, (n - 1) as nat, k);
    }
}

/// A promoted body has as many statements as the body.
pub proof fn lemma_promoted_body_len(body: Seq<HIRView>, scope: Set<Seq<char>>, n: nat)
    requires
        n <= body.len(),
    ensures
        promoted_body(body, scope, n).len() == n,
    decreases n,
{
    if n > 0 {
        lemma_promoted_body_len(body, scope, (n - 1) as nat);
    }
}

/// Promotion changes nothing in a statement that is promoted already, and
/// a promoted statement brings the same name into scope as the statement
/// it was made from.
pub proof fn lemma_promoted_twice(statement: HIRView, scope: Set<Seq<char>>)
    ensures
        promoted(promoted(statement, scope), scope) == promoted(statement, scope),
        introduced(promoted(statement, scope)) == introduced(statement),
    decreases statement, 0nat,
{
    match statement {
        HIRView::If(condition, true_branch, false_branch) => {
            lemma_promoted_body_twice(true_branch, scope, true_branch.len());
            lemma_promoted_body_twice(false_branch, scope, false_branch.len());
            lemma_promoted_body_len(true_branch, scope, true_branch.len());
            lemma_promoted_body_len(false_branch, scope, false_branch.len());
        },
        _ => {},
    }
}

/// Promotion changes nothing in a body that is promoted already.
pub proof fn lemma_promoted_body_twice(body: Seq<HIRView>, scope: Set<Seq<char>>, n: nat)
    requires
        n <= body.len(),
    ensures
        promoted_body(promoted_body(body, scope, body.len()), scope, n) == promoted_body(
            body,
            scope,
            n,
        ),
        scope_after(promoted_body(body, scope, body.len()), scope, n) == scope_after(
            body,
            scope,
            n,
        ),
    decreases body, n,
{
    let once = promoted_body(body, scope, body.len());
    lemma_promoted_body_len(body, scope, body.len());
    if n > 0 {
        lemma_promoted_body_twice(body, scope, (n - 1) as nat);
        lemma_promoted_body_index(body, scope, body.len(), n - 1);
        lemma_promoted_twice(body[n - 1], scope_after(body, scope, (n - 1) as nat));
    }
}

/// First-assignment promotion is idempotent: promoting a program that is
/// promoted already changes nothing.
pub proof fn lemma_promotion_idempotent(mir: Seq<HIRView>)
    ensures
        transformed(transformed(mir)) == transformed(mir),
{
    assert forall|i: int| 0 <= i < mir.len() implies promoted_top_level(
        #[trigger] transformed(mir)[i],
    ) == transformed(mir)[i] by {
        match mir[i] {
            HIRView::DeclareFunction { function_name, parameters, body, return_type } => {
                lemma_promoted_body_twice(body, parameter_names(parameters), body.len());
                lemma_promoted_body_len(body, parameter_names(parameters), body.len());
            },
            _ => {},
        }
    }
    assert(transformed(transformed(mir)) =~= transformed(mir));
}

} // verus!
