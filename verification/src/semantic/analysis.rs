//! The semantic analysis of a program: lowering, collection of the global
//! names, first-assignment promotion, the scope check and type inference,
//! in this order.
use vstd::prelude::*;
use crate::ast::{ASTView, AST};
use crate::semantic::first_assignments::{
    transform_first_assignment_into_declaration, transformed,
};
use crate::semantic::hir::{clone_statements, hir_views, HIRView, HIR};
use crate::semantic::lowering::ast_to_hir;
use crate::semantic::lowering_check::can_lower;
use crate::semantic::lowering_rules::{extent, lower, lowerable};
use crate::semantic::name_registry::{build_name_registry, global_names};
use crate::semantic::type_db::{builtin_types, TypeDatabase, TypeDatabaseView};
use crate::semantic::type_inference::{infer_types, TypeInferenceError};
use crate::semantic::type_inference_rules::{infer_program, InferenceErrorView};
use crate::semantic::undeclared_vars::{
    check_program, detect_undeclared_vars_and_redeclarations, program_scope, ScopeError,
    ScopeErrorView,
};

verus! {

/// What the analysis of a program gives: the program as lowered, the
/// program after first-assignment promotion, the program with all types
/// inferred, and the type database that the types refer to.
pub struct AnalysisResult {
    pub initial_mir: Vec<HIR>,
    pub after_make_declarations_mir: Vec<HIR>,
    pub final_mir: Vec<HIR>,
    pub type_db: TypeDatabase,
}

/// Why the analysis of a program failed.
#[derive(Debug, PartialEq, Eq)]
pub enum AnalysisError {
    /// The syntax tree has a shape that lowering does not handle, or needs
    /// more synthetic variables than can be numbered.
    NotLowerable,
    /// The scope check failed.
    Scope(ScopeError),
    /// Type inference failed.
    Type(TypeInferenceError),
}

/// Mathematical model of an `AnalysisError`.
pub enum AnalysisErrorView {
    NotLowerable,
    Scope(ScopeErrorView),
    Type(InferenceErrorView),
}

impl View for AnalysisError {
    type V = AnalysisErrorView;

    open spec fn view(&self) -> AnalysisErrorView {
        match self {
            AnalysisError::NotLowerable => AnalysisErrorView::NotLowerable,
            AnalysisError::Scope(e) => AnalysisErrorView::Scope(e@),
            AnalysisError::Type(e) => AnalysisErrorView::Type(e@),
        }
    }
}

/// The database of the built-in types.
pub open spec fn builtin_database() -> TypeDatabaseView {
    TypeDatabaseView { types: builtin_types() }
}

/// The program as lowered.
pub open spec fn lowered(ast: ASTView) -> Seq<HIRView> {
    lower(ast, 0)
}

/// The program after first-assignment promotion.
pub open spec fn promoted_program(ast: ASTView) -> Seq<HIRView> {
    transformed(lowered(ast))
}

/// The failure of the analysis of a program, if it fails: lowering must
/// handle the program, then the scope check must pass, then inference must
/// succeed.
pub open spec fn analysis_failure(ast: ASTView) -> Option<AnalysisErrorView> {
    if !(lowerable(ast) && extent(ast) <= i32::MAX) {
        Some(AnalysisErrorView::NotLowerable)
    } else {
        let initial = lowered(ast);
        let globals = global_names(builtin_database(), initial, initial.len());
        let promoted = promoted_program(ast);
        match check_program(promoted, program_scope(globals, promoted), promoted.len()) {
            Some(e) => Some(AnalysisErrorView::Scope(e)),
            None => match infer_program(
                builtin_database(),
                globals,
                promoted,
                promoted.len(),
            ).failure {
                Some(e) => Some(AnalysisErrorView::Type(e)),
                None => None,
            },
        }
    }
}

/// The program with all types inferred.
pub open spec fn analysed(ast: ASTView) -> Seq<HIRView> {
    let initial = lowered(ast);
    infer_program(
        builtin_database(),
        global_names(builtin_database(), initial, initial.len()),
        promoted_program(ast),
        promoted_program(ast).len(),
    ).statements
}

/// Analyses a program. The passes run in a fixed order: lowering, with
/// synthetic variables numbered from 0; collection of the global names;
/// first-assignment promotion; the scope check; type inference against
/// the built-in types. The first pass that fails ends the analysis.
pub fn do_analysis(ast: &AST) -> (result: Result<AnalysisResult, AnalysisError>)
    ensures
        match result {
            Ok(analysis) => analysis_failure(ast@) is None && hir_views(analysis.initial_mir@)
                == lowered(ast@) && hir_views(analysis.after_make_declarations_mir@)
                == promoted_program(ast@) && hir_views(analysis.final_mir@) == analysed(ast@)
                && analysis.type_db@ == builtin_database(),
            Err(e) => analysis_failure(ast@) == Some(e@),
        },
{
    if !can_lower(ast, 0) {
        return Err(AnalysisError::NotLowerable);
    }
    let mut mir: Vec<HIR> = Vec::new();
    assert(hir_views(mir@) =~= Seq::<HIRView>::empty());
    ast_to_hir(ast, 0, &mut mir);
    assert(hir_views(mir@) =~= lowered(ast@));
    let initial_mir = clone_statements(&mir);
    let type_db = TypeDatabase::new();
    assert(type_db@ == builtin_database());
    let mut globals = build_name_registry(&type_db, &mir);
    let mir = transform_first_assignment_into_declaration(mir);
    let after_make_declarations_mir = clone_statements(&mir);
    match detect_undeclared_vars_and_redeclarations(&globals, &mir) {
        Ok(_) => {},
        Err(e) => {
            return Err(AnalysisError::Scope(e));
        },
    }
    match infer_types(&mut globals, &type_db, mir) {
        Ok(final_mir) => Ok(
            AnalysisResult { initial_mir, after_make_declarations_mir, final_mir, type_db },
        ),
        Err(e) => Err(AnalysisError::Type(e)),
    }
}

} // verus!
