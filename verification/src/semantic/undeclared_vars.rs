//! The scope check: every name that is read must have been declared
//! before, and no name may be declared twice in one scope.
use vstd::prelude::*;
use crate::semantic::hir::{
    hir_bound_name_views, hir_views, lemma_hir_model, trivial_views, HIRExpr, HIRExprView,
    HIRTypedBoundName, HIRView, TrivialHIRExpr, TrivialHIRExprView, TypedTrivialHIRExpr,
    TypedTrivialHIRExprView, HIR,
};
use crate::semantic::name_registry::NameRegistry;
use crate::semantic::names::NameSet;

verus! {

/// Why the scope check failed.
#[derive(Debug, PartialEq, Eq)]
pub enum ScopeError {
    /// A name is declared that is in scope already.
    VariableDeclaredMoreThanOnce { variable: String },
    /// A name is assigned to that is not in scope.
    AssignToUndeclaredVariable { variable: String },
    /// A name is read that is neither declared in the function nor global.
    VariableNotFound { variable: String, function: String },
}

/// Mathematical model of a `ScopeError`.
pub enum ScopeErrorView {
    VariableDeclaredMoreThanOnce { variable: Seq<char> },
    AssignToUndeclaredVariable { variable: Seq<char> },
    VariableNotFound { variable: Seq<char>, function: Seq<char> },
}

impl View for ScopeError {
    type V = ScopeErrorView;

    open spec fn view(&self) -> ScopeErrorView {
        match self {
            ScopeError::VariableDeclaredMoreThanOnce { variable } => {
                ScopeErrorView::VariableDeclaredMoreThanOnce { variable: variable@ }
            },
            ScopeError::AssignToUndeclaredVariable { variable } => {
                ScopeErrorView::AssignToUndeclaredVariable { variable: variable@ }
            },
            ScopeError::VariableNotFound { variable, function } => {
                ScopeErrorView::VariableNotFound { variable: variable@, function: function@ }
            },
        }
    }
}

impl ScopeErrorView {
    /// The text of the error.
    pub open spec fn text(self) -> Seq<char> {
        match self {
            ScopeErrorView::VariableDeclaredMoreThanOnce { variable } => "Variable "@ + variable
                + " declared more than once"@,
            ScopeErrorView::AssignToUndeclaredVariable { variable } => {
                "Assign to undeclared variable "@ + variable
            },
            ScopeErrorView::VariableNotFound { variable, function } => "Variable "@ + variable
                + " not found, function: "@ + function,
        }
    }
}

impl ScopeError {
    /// The text of the error.
    pub fn message(&self) -> (text: String)
        ensures
            text@ == self@.text(),
    {
        match self {
            ScopeError::VariableDeclaredMoreThanOnce { variable } => {
                let mut text = "Variable ".to_owned();
                text.append(variable.as_str());
                text.append(" declared more than once");
                text
            },
            ScopeError::AssignToUndeclaredVariable { variable } => {
                let mut text = "Assign to undeclared variable ".to_owned();
                text.append(variable.as_str());
                text
            },
            ScopeError::VariableNotFound { variable, function } => {
                let mut text = "Variable ".to_owned();
                text.append(variable.as_str());
                text.append(" not found, function: ");
                text.append(function.as_str());
                text
            },
        }
    }
}

/// The variable that a leaf reads, if the variable is not in scope.
pub open spec fn undeclared(leaf: TypedTrivialHIRExprView, scope: Set<Seq<char>>) -> Option<
    Seq<char>,
> {
    match leaf.0 {
        TrivialHIRExprView::Variable(v) => if scope.contains(v) {
            None
        } else {
            Some(v)
        },
        _ => None,
    }
}

/// The leaves of an expression, from left to right.
pub open spec fn leaves_of(expr: HIRExprView) -> Seq<TypedTrivialHIRExprView> {
    match expr {
        HIRExprView::Trivial(e) => seq![e],
        HIRExprView::Cast(_, e) => seq![e],
        HIRExprView::BinaryOperation(lhs, _, rhs, _) => seq![lhs, rhs],
        HIRExprView::FunctionCall(function, args, _) => seq![function] + args,
        HIRExprView::UnaryExpression(_, operand, _) => seq![operand],
        HIRExprView::MemberAccess(object, _, _) => seq![object],
        HIRExprView::Array(items, _) => items,
    }
}

/// The first variable among the first `n` of `leaves` that is not in
/// scope.
pub open spec fn first_undeclared(
    leaves: Seq<TypedTrivialHIRExprView>,
    scope: Set<Seq<char>>,
    n: nat,
) -> Option<Seq<char>>
    decreases n,
{
    if n == 0 || n > leaves.len() {
        None
    } else {
        match first_undeclared(leaves, scope, (n - 1) as nat) {
            Some(v) => Some(v),
            None => undeclared(leaves[n - 1], scope),
        }
    }
}

/// The failure of the leaves of a statement of the function `function`:
/// the first variable that is read and is not in scope.
pub open spec fn check_leaves(
    leaves: Seq<TypedTrivialHIRExprView>,
    scope: Set<Seq<char>>,
    function: Seq<char>,
) -> Option<ScopeErrorView> {
    match first_undeclared(leaves, scope, leaves.len()) {
        Some(variable) => Some(ScopeErrorView::VariableNotFound { variable, function }),
        None => None,
    }
}

/// The names declared by the first `n` statements of `body`, added to
/// `scope`.
pub open spec fn declared_after(body: Seq<HIRView>, scope: Set<Seq<char>>, n: nat) -> Set<
    Seq<char>,
>
    decreases n,
{
    if n == 0 || n > body.len() {
        scope
    } else {
        match body[n - 1] {
            HIRView::Declare { var, .. } => declared_after(body, scope, (n - 1) as nat).insert(
                var,
            ),
            _ => declared_after(body, scope, (n - 1) as nat),
        }
    }
}

/// The failure of a statement, where `scope` holds the names declared
/// before it. A declaration fails if its name is in scope already; an
/// assignment fails if its target is not in scope; every statement fails
/// if it reads a variable that is not in scope. The expression of a
/// declaration is checked before the declared name comes into scope. The
/// branches of a conditional are checked each in a scope of its own.
#[verifier::opaque]
pub open spec fn check_statement(
    statement: HIRView,
    scope: Set<Seq<char>>,
    function: Seq<char>,
) -> Option<
    ScopeErrorView,
>
    decreases statement, 0nat,
{
    match statement {
        HIRView::Declare { var, expression, .. } => if scope.contains(var) {
            Some(ScopeErrorView::VariableDeclaredMoreThanOnce { variable: var })
        } else {
            check_leaves(leaves_of(expression), scope, function)
        },
        HIRView::Assign { path, expression } => if path.len() == 0 {
            Some(ScopeErrorView::AssignToUndeclaredVariable { variable: Seq::empty() })
        } else if !scope.contains(path[0]) {
            Some(ScopeErrorView::AssignToUndeclaredVariable { variable: path[0] })
        } else {
            check_leaves(leaves_of(expression), scope, function)
        },
        HIRView::FunctionCall { function: callee, args } => check_leaves(
            seq![callee] + args,
            scope,
            function,
        ),
        HIRView::Return(expression) => check_leaves(leaves_of(expression), scope, function),
        HIRView::If(condition, true_branch, false_branch) => match check_leaves(
            seq![condition],
            scope,
            function,
        ) {
            Some(e) => Some(e),
            None => match check_body(true_branch, scope, function, true_branch.len()) {
                Some(e) => Some(e),
                None => check_body(false_branch, scope, function, false_branch.len()),
            },
        },
        _ => None,
    }
}

/// The first failure among the first `n` statements of `body`, where
/// `scope` holds the names in scope before the body.
#[verifier::opaque]
pub open spec fn check_body(
    body: Seq<HIRView>,
    scope: Set<Seq<char>>,
    function: Seq<char>,
    n: nat,
) -> Option<ScopeErrorView>
    decreases body, n,
{
    if n == 0 || n > body.len() {
        None
    } else {
        match check_body(body, scope, function, (n - 1) as nat) {
            Some(e) => Some(e),
            None => check_statement(
                body[n - 1],
                declared_after(body, scope, (n - 1) as nat),
                function,
            ),
        }
    }
}

/// The names of the first `n` parameters, added to `scope`.
pub open spec fn with_parameters(
    scope: Set<Seq<char>>,
    parameters: Seq<crate::semantic::hir::HIRTypedBoundNameView>,
    n: nat,
) -> Set<Seq<char>>
    decreases n,
{
    if n == 0 || n > parameters.len() {
        scope
    } else {
        with_parameters(scope, parameters, (n - 1) as nat).insert(parameters[n - 1].name)
    }
}

/// The names of the functions among the first `n` statements of `mir`,
/// added to `scope`.
pub open spec fn with_functions(scope: Set<Seq<char>>, mir: Seq<HIRView>, n: nat) -> Set<Seq<char>>
    decreases n,
{
    if n == 0 || n > mir.len() {
        scope
    } else {
        match mir[n - 1] {
            HIRView::DeclareFunction { function_name, .. } => with_functions(
                scope,
                mir,
                (n - 1) as nat,
            ).insert(function_name),
            _ => with_functions(scope, mir, (n - 1) as nat),
        }
    }
}

/// The first failure among the functions of the first `n` statements of
/// `mir`; the body of a function is checked in the scope of the global
/// names and of its parameters.
pub open spec fn check_program(mir: Seq<HIRView>, globals: Set<Seq<char>>, n: nat) -> Option<
    ScopeErrorView,
>
    decreases n,
{
    if n == 0 || n > mir.len() {
        None
    } else {
        match check_program(mir, globals, (n - 1) as nat) {
            Some(e) => Some(e),
            None => match mir[n - 1] {
                HIRView::DeclareFunction { function_name, parameters, body, .. } => check_body(
                    body,
                    with_parameters(globals, parameters, parameters.len()),
                    function_name,
                    body.len(),
                ),
                _ => None,
            },
        }
    }
}

/// Checks a leaf: a variable must be in scope.
fn check_trivial_expr(
    declarations_found: &NameSet,
    function_name: &str,
    expr: &TypedTrivialHIRExpr,
) -> (result:
    Result<(), ScopeError>)
    ensures
        match result {
            Ok(_) => undeclared(expr@, declarations_found@) is None,
            Err(e) => undeclared(expr@, declarations_found@) matches Some(variable) && e@ == (
            ScopeErrorView::VariableNotFound { variable, function: function_name@ }),
        },
{
    match &expr.0 {
        TrivialHIRExpr::Variable(v) => {
            if !declarations_found.contains(v.as_str()) {
                return Err(
                    ScopeError::VariableNotFound {
                        variable: v.clone(),
                        function: function_name.to_owned(),
                    },
                );
            }
            Ok(())
        },
        _ => Ok(()),
    }
}

/// Once a leaf fails, the leaves after it do not change the failure.
proof fn lemma_first_undeclared_found(
    leaves: Seq<TypedTrivialHIRExprView>,
    scope: Set<Seq<char>>,
    i: nat,
    n: nat,
)
    requires
        i <= n <= leaves.len(),
        first_undeclared(leaves, scope, i) is Some,
    ensures
        first_undeclared(leaves, scope, n) == first_undeclared(leaves, scope, i),
    decreases n,
{
    if i < n {
        lemma_first_undeclared_found(leaves, scope, i, (n - 1) as nat);
    }
}

/// Checks the leaves of a list, from left to right.
fn check_trivial_exprs(
    declarations_found: &NameSet,
    function_name: &str,
    leaves: &Vec<TypedTrivialHIRExpr>,
    before: Ghost<Seq<TypedTrivialHIRExprView>>,
) -> (result: Result<(), ScopeError>)
    requires
        first_undeclared(before@, declarations_found@, before@.len()) is None,
    ensures
        match result {
            Ok(_) => check_leaves(
                before@ + trivial_views(leaves@),
                declarations_found@,
                function_name@,
            ) is None,
            Err(e) => check_leaves(
                before@ + trivial_views(leaves@),
                declarations_found@,
                function_name@,
            ) == Some(e@),
        },
{
    let ghost all = before@ + trivial_views(leaves@);
    let ghost offset = before@.len();
    let mut i: usize = 0;
    proof {
        lemma_first_undeclared_prefix(before@, all, declarations_found@, offset);
    }
    while i < leaves.len()
        invariant
            0 <= i <= leaves.len(),
            all == before@ + trivial_views(leaves@),
            offset == before@.len(),
            first_undeclared(all, declarations_found@, offset + i as nat) is None,
        decreases leaves.len() - i,
    {
        assert(all[offset + i] == leaves@[i as int]@);
        match check_trivial_expr(declarations_found, function_name, &leaves[i]) {
            Ok(_) => {},
            Err(e) => {
                proof {
                    lemma_first_undeclared_found(
                        all,
                        declarations_found@,
                        offset + i as nat + 1,
                        all.len(),
                    );
                }
                return Err(e);
            },
        }
        i += 1;
    }
    Ok(())
}

/// The first undeclared variable of a prefix is that of the list it is a
/// prefix of.
proof fn lemma_first_undeclared_prefix(
    prefix: Seq<TypedTrivialHIRExprView>,
    all: Seq<TypedTrivialHIRExprView>,
    scope: Set<Seq<char>>,
    n: nat,
)
    requires
        n <= prefix.len() <= all.len(),
        forall|i: int| 0 <= i < prefix.len() ==> prefix[i] == all[i],
    ensures
        first_undeclared(all, scope, n) == first_undeclared(prefix, scope, n),
    decreases n,
{
    if n > 0 {
        lemma_first_undeclared_prefix(prefix, all, scope, (n - 1) as nat);
    }
}

/// Checks the leaves of an expression.
fn check_expr(declarations_found: &NameSet, function_name: &str, expr: &HIRExpr) -> (result: Result<
    (),
    ScopeError,
>)
    ensures
        match result {
            Ok(_) => check_leaves(leaves_of(expr@), declarations_found@, function_name@) is None,
            Err(e) => check_leaves(leaves_of(expr@), declarations_found@, function_name@) == Some(
                e@,
            ),
        },
{
    let ghost scope = declarations_found@;
    match expr {
        HIRExpr::Trivial(e) => {
            proof {
                reveal_with_fuel(first_undeclared, 3);
            }
            check_trivial_expr(declarations_found, function_name, e)
        },
        HIRExpr::BinaryOperation(lhs, _, rhs, _) => {
            proof {
                reveal_with_fuel(first_undeclared, 3);
            }
            match check_trivial_expr(declarations_found, function_name, lhs) {
                Ok(_) => check_trivial_expr(declarations_found, function_name, rhs),
                Err(e) => Err(e),
            }
        },
        HIRExpr::FunctionCall(func_expr, args, _) => {
            proof {
                reveal_with_fuel(first_undeclared, 3);
                lemma_first_undeclared_prefix(
                    seq![func_expr@],
                    seq![func_expr@] + trivial_views(args@),
                    scope,
                    1,
                );
            }
            let ghost callee = seq![func_expr@];
            match check_trivial_expr(declarations_found, function_name, func_expr) {
                Ok(_) => check_trivial_exprs(
                    declarations_found,
                    function_name,
                    args,
                    Ghost(callee),
                ),
                Err(e) => {
                    proof {
                        lemma_first_undeclared_found(
                            seq![func_expr@] + trivial_views(args@),
                            scope,
                            1,
                            args@.len() as nat + 1,
                        );
                    }
                    Err(e)
                },
            }
        },
        HIRExpr::UnaryExpression(_, unary_expr, _) => {
            proof {
                reveal_with_fuel(first_undeclared, 3);
            }
            check_trivial_expr(declarations_found, function_name, unary_expr)
        },
        HIRExpr::MemberAccess(member_expr, _, _) => {
            proof {
                reveal_with_fuel(first_undeclared, 3);
            }
            check_trivial_expr(declarations_found, function_name, member_expr)
        },
        HIRExpr::Array(item_exprs, _) => {
            assert(Seq::<TypedTrivialHIRExprView>::empty() + trivial_views(item_exprs@)
                =~= trivial_views(item_exprs@));
            let ghost nothing = Seq::<TypedTrivialHIRExprView>::empty();
            check_trivial_exprs(declarations_found, function_name, item_exprs, Ghost(nothing))
        },
        HIRExpr::Cast(_, expr) => {
            proof {
                reveal_with_fuel(first_undeclared, 3);
            }
            check_trivial_expr(declarations_found, function_name, expr)
        },
    }
}

/// The check of no statements, and of one statement more.
pub proof fn lemma_check_body(
    body: Seq<HIRView>,
    scope: Set<Seq<char>>,
    function: Seq<char>,
    n: nat,
)
    requires
        n <= body.len(),
    ensures
        n == 0 ==> check_body(body, scope, function, n) is None,
        n > 0 ==> check_body(body, scope, function, n) == (match check_body(
            body,
            scope,
            function,
            (n - 1) as nat,
        ) {
            Some(e) => Some(e),
            None => check_statement(
                body[n - 1],
                declared_after(body, scope, (n - 1) as nat),
                function,
            ),
        }),
{
    reveal(check_body);
    reveal(check_statement);
}

/// Once a statement of a body fails, the body fails in the same way.
pub proof fn lemma_check_body_fails(
    body: Seq<HIRView>,
    scope: Set<Seq<char>>,
    function: Seq<char>,
    i: nat,
    n: nat,
)
    requires
        i <= n <= body.len(),
        check_body(body, scope, function, i) is Some,
    ensures
        check_body(body, scope, function, n) == check_body(body, scope, function, i),
    decreases n,
{
    if i < n {
        lemma_check_body_fails(body, scope, function, i, (n - 1) as nat);
        lemma_check_body(body, scope, function, n);
    }
}

/// Once a function of a program fails, the program fails in the same way.
pub proof fn lemma_check_program_fails(
    mir: Seq<HIRView>,
    globals: Set<Seq<char>>,
    i: nat,
    n: nat,
)
    requires
        i <= n <= mir.len(),
        check_program(mir, globals, i) is Some,
    ensures
        check_program(mir, globals, n) == check_program(mir, globals, i),
    decreases n,
{
    if i < n {
        lemma_check_program_fails(mir, globals, i, (n - 1) as nat);
    }
}

/// Checks a statement that is no conditional; a declaration brings its
/// name into scope.
fn check_plain_statement(
    declarations_found: &mut NameSet,
    function_name: &str,
    node: &HIR,
) -> (result: Result<(), ScopeError>)
    requires
        !(node@ is If),
    ensures
        match result {
            Ok(_) => check_statement(node@, old(declarations_found)@, function_name@) is None,
            Err(e) => check_statement(node@, old(declarations_found)@, function_name@) == Some(e@),
        },
        final(declarations_found)@ == (match node@ {
            HIRView::Declare { var, .. } => if result is Ok {
                old(declarations_found)@.insert(var)
            } else {
                old(declarations_found)@
            },
            _ => old(declarations_found)@,
        }),
{
    proof {
        reveal(check_statement);
        reveal(check_body);
        lemma_hir_model(node);
    }
    match node {
        HIR::Declare { var, expression, .. } => {
            if declarations_found.contains(var.as_str()) {
                return Err(ScopeError::VariableDeclaredMoreThanOnce { variable: var.clone() });
            }
            match check_expr(declarations_found, function_name, expression) {
                Ok(_) => {
                    declarations_found.insert(var.clone());
                    Ok(())
                },
                Err(e) => Err(e),
            }
        },
        HIR::Assign { path, expression } => {
            if path.len() == 0 {
                let variable = String::new();
                assert(variable@ =~= Seq::<char>::empty());
                return Err(ScopeError::AssignToUndeclaredVariable { variable });
            }
            if !declarations_found.contains(path[0].as_str()) {
                return Err(ScopeError::AssignToUndeclaredVariable { variable: path[0].clone() });
            }
            check_expr(declarations_found, function_name, expression)
        },
        HIR::FunctionCall { function, args } => {
            let ghost callee = seq![function@];
            proof {
                reveal_with_fuel(first_undeclared, 3);
                lemma_first_undeclared_prefix(
                    callee,
                    callee + trivial_views(args@),
                    declarations_found@,
                    1,
                );
            }
            match check_trivial_expr(declarations_found, function_name, function) {
                Ok(_) => check_trivial_exprs(
                    declarations_found,
                    function_name,
                    args,
                    Ghost(callee),
                ),
                Err(e) => {
                    proof {
                        lemma_first_undeclared_found(
                            callee + trivial_views(args@),
                            declarations_found@,
                            1,
                            args@.len() as nat + 1,
                        );
                    }
                    Err(e)
                },
            }
        },
        HIR::Return(expr) => check_expr(declarations_found, function_name, expr),
        _ => Ok(()),
    }
}

/// Checks a conditional: its condition, then each branch in a copy of the
/// scope.
fn check_if(declarations_found: &NameSet, function_name: &str, node: &HIR) -> (result: Result<
    (),
    ScopeError,
>)
    requires
        node@ is If,
    ensures
        match result {
            Ok(_) => check_statement(node@, declarations_found@, function_name@) is None,
            Err(e) => check_statement(node@, declarations_found@, function_name@) == Some(e@),
        },
    decreases node, 0nat,
{
    proof {
        reveal(check_statement);
        reveal(check_body);
        lemma_hir_model(node);
    }
    match node {
        HIR::If(condition, true_branch, false_branch) => {
            proof {
                reveal_with_fuel(first_undeclared, 3);
            }
            match check_trivial_expr(declarations_found, function_name, condition) {
                Ok(_) => {},
                Err(e) => {
                    return Err(e);
                },
            }
            let mut true_scope = declarations_found.clone();
            match detect_decl_errors_in_body(&mut true_scope, function_name, true_branch) {
                Ok(_) => {},
                Err(e) => {
                    return Err(e);
                },
            }
            let mut false_scope = declarations_found.clone();
            detect_decl_errors_in_body(&mut false_scope, function_name, false_branch)
        },
        _ => unreached(),
    }
}

/// Checks the statements of a body, one after the other. The names that
/// the body declares are added to `declarations_found`. The check stops
/// at the first failure.
pub fn detect_decl_errors_in_body(
    declarations_found: &mut NameSet,
    function_name: &str,
    body: &Vec<HIR>,
) -> (result: Result<(), ScopeError>)
    ensures
        match result {
            Ok(_) => check_body(
                hir_views(body@),
                old(declarations_found)@,
                function_name@,
                body@.len(),
            ) is None && final(declarations_found)@ == declared_after(
                hir_views(body@),
                old(declarations_found)@,
                body@.len(),
            ),
            Err(e) => check_body(
                hir_views(body@),
                old(declarations_found)@,
                function_name@,
                body@.len(),
            ) == Some(e@),
        },
    decreases body, 1nat,
{
    let ghost views = hir_views(body@);
    let ghost start = declarations_found@;
    let mut i: usize = 0;
    proof {
        lemma_check_body(views, start, function_name@, 0);
    }
    while i < body.len()
        invariant
            0 <= i <= body.len(),
            views == hir_views(body@),
            start == old(declarations_found)@,
            check_body(views, start, function_name@, i as nat) is None,
            declarations_found@ == declared_after(views, start, i as nat),
        decreases body.len() - i,
    {
        let node = &body[i];
        assert(views[i as int] == node@);
        proof {
            lemma_check_body(views, start, function_name@, (i + 1) as nat);
        }
        let checked = match node {
            HIR::If(_, _, _) => check_if(declarations_found, function_name, node),
            _ => check_plain_statement(declarations_found, function_name, node),
        };
        match checked {
            Ok(_) => {},
            Err(e) => {
                proof {
                    lemma_check_body_fails(
                        views,
                        start,
                        function_name@,
                        (i + 1) as nat,
                        body@.len(),
                    );
                }
                return Err(e);
            },
        }
        i += 1;
    }
    Ok(())
}

/// Checks a function: its body in the scope of `declarations_found` and
/// of its parameters.
pub fn detect_declaration_errors_in_function(
    declarations_found: NameSet,
    function_name: &str,
    parameters: &Vec<HIRTypedBoundName>,
    body: &Vec<HIR>,
) -> (result: Result<(), ScopeError>)
    ensures
        match result {
            Ok(_) => check_body(
                hir_views(body@),
                with_parameters(
                    declarations_found@,
                    hir_bound_name_views(parameters@),
                    parameters@.len(),
                ),
                function_name@,
                body@.len(),
            ) is None,
            Err(e) => check_body(
                hir_views(body@),
                with_parameters(
                    declarations_found@,
                    hir_bound_name_views(parameters@),
                    parameters@.len(),
                ),
                function_name@,
                body@.len(),
            ) == Some(e@),
        },
{
    let ghost views = hir_bound_name_views(parameters@);
    let ghost start = declarations_found@;
    let mut declarations_found = declarations_found;
    let mut i: usize = 0;
    while i < parameters.len()
        invariant
            0 <= i <= parameters.len(),
            views == hir_bound_name_views(parameters@),
            declarations_found@ == with_parameters(start, views, i as nat),
        decreases parameters.len() - i,
    {
        assert(views[i as int] == parameters@[i as int]@);
        declarations_found.insert(parameters[i].name.clone());
        i += 1;
    }
    detect_decl_errors_in_body(&mut declarations_found, function_name, body)
}

/// The names of a registry, as a set.
fn collect_registry_names(globals: &NameRegistry) -> (names: NameSet)
    ensures
        names@ == globals@.dom(),
{
    let listed = globals.get_names();
    let mut names = NameSet::new();
    let mut i: usize = 0;
    while i < listed.len()
        invariant
            0 <= i <= listed.len(),
            listed@.len() == globals.entries@.len(),
            forall|k: int|
                0 <= k < listed@.len() ==> (#[trigger] listed@[k])@ == globals.entries@[k].name@,
            forall|name: Seq<char>|
                names@.contains(name) <==> exists|k: int|
                    0 <= k < i && #[trigger] globals.holds(name, k),
        decreases listed.len() - i,
    {
        let ghost before = names@;
        names.insert(listed[i].clone());
        i += 1;
        assert forall|name: Seq<char>| names@.contains(name) <==> exists|k: int|
            0 <= k < i && #[trigger] globals.holds(name, k) by {
            if names@.contains(name) {
                if before.contains(name) {
                    let k = choose|k: int| 0 <= k < i - 1 && #[trigger] globals.holds(name, k);
                    assert(globals.holds(name, k));
                } else {
                    assert(globals.holds(name, i - 1));
                }
            }
            if exists|k: int| 0 <= k < i && #[trigger] globals.holds(name, k) {
                let k = choose|k: int| 0 <= k < i && #[trigger] globals.holds(name, k);
                if k < i - 1 {
                    assert(before.contains(name));
                }
            }
        }
    }
    assert forall|name: Seq<char>| names@.contains(name) == globals@.dom().contains(name) by {
        if globals@.dom().contains(name) {
            let k = choose|k: int| #[trigger] globals.holds(name, k);
            assert(globals.holds(name, k));
        }
        if names@.contains(name) {
            let k = choose|k: int| 0 <= k < i && #[trigger] globals.holds(name, k);
            assert(globals.holds(name, k));
        }
    }
    assert(names@ =~= globals@.dom());
    names
}

/// The names in scope in every function of a program: the global names,
/// and the names of the functions of the program.
pub open spec fn program_scope(
    globals: Map<Seq<char>, crate::semantic::hir::HIRTypeDefView>,
    mir: Seq<HIRView>,
) -> Set<Seq<char>> {
    with_functions(globals.dom(), mir, mir.len())
}

/// Checks every function of a program: a name that is read must be a
/// parameter, a name declared earlier in the same or an enclosing scope,
/// a name of `globals` or the name of a function of the program; a name
/// that is declared must not be in scope already; a name that is assigned
/// to must be in scope. The result is the first failure in the order of
/// the program.
pub fn detect_undeclared_vars_and_redeclarations(globals: &NameRegistry, mir: &Vec<HIR>) -> (result:
    Result<(), ScopeError>)
    ensures
        match result {
            Ok(_) => check_program(
                hir_views(mir@),
                program_scope(globals@, hir_views(mir@)),
                mir@.len(),
            ) is None,
            Err(e) => check_program(
                hir_views(mir@),
                program_scope(globals@, hir_views(mir@)),
                mir@.len(),
            ) == Some(e@),
        },
{
    let ghost views = hir_views(mir@);
    let mut declarations_found = collect_registry_names(globals);
    let mut i: usize = 0;
    while i < mir.len()
        invariant
            0 <= i <= mir.len(),
            views == hir_views(mir@),
            declarations_found@ == with_functions(globals@.dom(), views, i as nat),
        decreases mir.len() - i,
    {
        assert(views[i as int] == mir@[i as int]@);
        proof {
            lemma_hir_model(&mir@[i as int]);
        }
        match &mir[i] {
            HIR::DeclareFunction { function_name, .. } => {
                declarations_found.insert(function_name.clone());
            },
            _ => {},
        }
        i += 1;
    }
    let ghost scope = declarations_found@;
    let mut i: usize = 0;
    while i < mir.len()
        invariant
            0 <= i <= mir.len(),
            views == hir_views(mir@),
            scope == declarations_found@,
            scope == program_scope(globals@, views),
            check_program(views, scope, i as nat) is None,
        decreases mir.len() - i,
    {
        assert(views[i as int] == mir@[i as int]@);
        proof {
            lemma_hir_model(&mir@[i as int]);
        }
        match &mir[i] {
            HIR::DeclareFunction { function_name, parameters, body, .. } => {
                match detect_declaration_errors_in_function(
                    declarations_found.clone(),
                    function_name.as_str(),
                    parameters,
                    body,
                ) {
                    Ok(_) => {},
                    Err(e) => {
                        proof {
                            lemma_check_program_fails(views, scope, (i + 1) as nat, mir@.len());
                        }
                        return Err(e);
                    },
                }
            },
            _ => {},
        }
        i += 1;
    }
    Ok(())
}

/// The leaves that a statement reads itself, outside the bodies of its
/// branches.
pub open spec fn leaves_read(statement: HIRView) -> Seq<TypedTrivialHIRExprView> {
    match statement {
        HIRView::Declare { expression, .. } => leaves_of(expression),
        HIRView::Assign { expression, .. } => leaves_of(expression),
        HIRView::FunctionCall { function, args } => seq![function] + args,
        HIRView::Return(expression) => leaves_of(expression),
        HIRView::If(condition, _, _) => seq![condition],
        _ => Seq::empty(),
    }
}

/// Where no leaf is undeclared, every leaf is declared.
pub proof fn lemma_none_undeclared(
    leaves: Seq<TypedTrivialHIRExprView>,
    scope: Set<Seq<char>>,
    n: nat,
    k: int,
)
    requires
        0 <= k < n <= leaves.len(),
        first_undeclared(leaves, scope, n) is None,
    ensures
        undeclared(leaves[k], scope) is None,
    decreases n,
{
    if k < n - 1 {
        lemma_none_undeclared(leaves, scope, (n - 1) as nat, k);
    }
}

/// A body that passes the check passes it up to every statement.
pub proof fn lemma_check_body_passes(
    body: Seq<HIRView>,
    scope: Set<Seq<char>>,
    function: Seq<char>,
    n: nat,
    i: nat,
)
    requires
        i <= n <= body.len(),
        check_body(body, scope, function, n) is None,
    ensures
        check_body(body, scope, function, i) is None,
    decreases n,
{
    if i < n {
        lemma_check_body(body, scope, function, n);
        lemma_check_body_passes(body, scope, function, (n - 1) as nat, i);
    }
}

/// The scope check is sensitive to order: in a body that passes the
/// check, every variable that a statement reads is in scope where the
/// statement stands, that is, it was in scope before the body or is
/// declared by a statement that comes earlier in the body. A name that a
/// declaration declares is not in scope before it, and the target of an
/// assignment is. The branches of a conditional pass the check in the
/// scope of the conditional.
pub proof fn lemma_reads_declared_earlier(
    body: Seq<HIRView>,
    scope: Set<Seq<char>>,
    function: Seq<char>,
    i: int,
)
    requires
        0 <= i < body.len(),
        check_body(body, scope, function, body.len()) is None,
    ensures
        forall|k: int|
            0 <= k < leaves_read(body[i]).len() ==> undeclared(
                #[trigger] leaves_read(body[i])[k],
                declared_after(body, scope, i as nat),
            ) is None,
        body[i] matches HIRView::Declare { var, .. } ==> !declared_after(
            body,
            scope,
            i as nat,
        ).contains(var),
        body[i] matches HIRView::Assign { path, .. } ==> path.len() > 0 && declared_after(
            body,
            scope,
            i as nat,
        ).contains(path[0]),
        body[i] matches HIRView::If(_, true_branch, false_branch) ==> check_body(
            true_branch,
            declared_after(body, scope, i as nat),
            function,
            true_branch.len(),
        ) is None && check_body(
            false_branch,
            declared_after(body, scope, i as nat),
            function,
            false_branch.len(),
        ) is None,
{
    reveal(check_statement);
    reveal(check_body);
    let here = declared_after(body, scope, i as nat);
    lemma_check_body_passes(body, scope, function, body.len(), (i + 1) as nat);
    lemma_check_body(body, scope, function, (i + 1) as nat);
    assert(check_statement(body[i], here, function) is None);
    let leaves = leaves_read(body[i]);
    assert(first_undeclared(leaves, here, leaves.len()) is None) by {
        reveal_with_fuel(first_undeclared, 2);
    }
    assert forall|k: int| 0 <= k < leaves.len() implies undeclared(#[trigger] leaves[k], here)
        is None by {
        lemma_none_undeclared(leaves, here, leaves.len(), k);
    }
}

} // verus!
