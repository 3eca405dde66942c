//! Type inference: every type slot of a program is resolved, from the
//! types written in it, the types of its literals and the signatures in
//! the type database.
use vstd::prelude::*;
use either::Either;
use crate::ast::Operator;
use crate::semantic::hir::{
    clone_names, hir_bound_name_views, hir_type_views, hir_views, lemma_hir_model,
    lemma_hir_type_model, lemma_type_instance_model, trivial_views, type_instance_views, HIRExpr,
    HIRType, HIRTypeDef, HIRTypeDefView, HIRTypeView, HIRTypedBoundName, HIRTypedBoundNameView,
    HIRView, TrivialHIRExpr, TypeId, TypeInstance, TypeInstanceView, TypedTrivialHIRExpr,
    TypedTrivialHIRExprView, HIR,
};
use crate::semantic::name_registry::NameRegistry;
use crate::semantic::search::{lemma_first, lemma_no_first};
use crate::semantic::type_db::{
    lemma_type_model, parameter_views, type_views, FunctionSignature, GenericParameter, Type,
    TypeDatabase, TypeDatabaseView, TypeRecord, TypeView,
};
use crate::semantic::type_inference_rules::{
    base_type, binary_with, bound_parameter, field_named, function_scope, function_signature,
    generic_arguments, method_named, parameter_named, unary_with, infer_array,
    infer_binary_operation, infer_body, infer_expr, infer_function_call, infer_leaf, infer_leaves,
    infer_member_access, infer_parameters, infer_program, infer_statement, infer_unary_expression,
    instantiate, instantiate_all, leaf_type, literal_type_name, member_type, named_type,
    parameter_types, published, resolve, resolve_all, scope_after_statement, slot_hint, slot_type,
    InferenceErrorView, Inferred, infer_top_level, lemma_infer_body, lemma_infer_program,
    lemma_infer_program_fails, lemma_scope_after_statement, InferredBody, InferredProgram,
    InternalErrorView,
};
use crate::text::str_eq;
use crate::types::type_errors::{
    BinaryOperatorNotFound, CallToNonCallableType, FieldOrMethodNotFound,
    InsufficientTypeInformationForArray, TypeErrors, TypeNotFound, UnaryOperatorNotFound,
    UnexpectedTypeFound,
};

verus! {

/// A condition that the passes before inference rule out, or a construct
/// that inference does not handle.
#[derive(Debug, PartialEq, Eq)]
pub enum InternalError {
    /// A name that is not in scope.
    NameNotFound(String),
    /// A name whose type has not been inferred yet.
    PendingType(String),
    /// A cast.
    CastNotSupported,
    /// A method with type arguments of its own.
    MethodTypeArguments(String),
    /// A generic parameter without a type that stands for it.
    GenericParameterNotBound(String),
    /// A type that the database does not hold.
    UnknownType(TypeId),
}

/// Why inference failed.
#[derive(Debug, PartialEq, Eq)]
pub enum TypeInferenceError {
    TypeNotFound(TypeNotFound),
    UnexpectedTypeFound(UnexpectedTypeFound),
    CallToNonCallableType(CallToNonCallableType),
    BinaryOperatorNotFound(BinaryOperatorNotFound),
    UnaryOperatorNotFound(UnaryOperatorNotFound),
    FieldOrMethodNotFound(FieldOrMethodNotFound),
    InsufficientTypeInformationForArray(InsufficientTypeInformationForArray),
    Internal(InternalError),
}

impl View for InternalError {
    type V = InternalErrorView;

    open spec fn view(&self) -> InternalErrorView {
        match self {
            InternalError::NameNotFound(name) => InternalErrorView::NameNotFound(name@),
            InternalError::PendingType(name) => InternalErrorView::PendingType(name@),
            InternalError::CastNotSupported => InternalErrorView::CastNotSupported,
            InternalError::MethodTypeArguments(name) => InternalErrorView::MethodTypeArguments(
                name@,
            ),
            InternalError::GenericParameterNotBound(name) => {
                InternalErrorView::GenericParameterNotBound(name@)
            },
            InternalError::UnknownType(id) => InternalErrorView::UnknownType(*id),
        }
    }
}

impl View for TypeInferenceError {
    type V = InferenceErrorView;

    open spec fn view(&self) -> InferenceErrorView {
        match self {
            TypeInferenceError::TypeNotFound(e) => InferenceErrorView::TypeNotFound {
                on_function: e.on_function@,
                missing_type: e.missing_type@,
            },
            TypeInferenceError::UnexpectedTypeFound(e) => InferenceErrorView::UnexpectedTypeFound {
                on_function: e.on_function@,
                type_def: e.type_def@,
            },
            TypeInferenceError::CallToNonCallableType(e) => {
                InferenceErrorView::CallToNonCallableType {
                    on_function: e.on_function@,
                    actual_type: e.actual_type@,
                }
            },
            TypeInferenceError::BinaryOperatorNotFound(e) => {
                InferenceErrorView::BinaryOperatorNotFound {
                    on_function: e.on_function@,
                    lhs: e.lhs@,
                    rhs: e.rhs@,
                    operator: e.operator,
                }
            },
            TypeInferenceError::UnaryOperatorNotFound(e) => {
                InferenceErrorView::UnaryOperatorNotFound {
                    on_function: e.on_function@,
                    rhs: e.rhs@,
                    operator: e.operator,
                }
            },
            TypeInferenceError::FieldOrMethodNotFound(e) => {
                InferenceErrorView::FieldOrMethodNotFound {
                    on_function: e.on_function@,
                    object_type: e.object_type@,
                    field_or_method: e.field_or_method@,
                }
            },
            TypeInferenceError::InsufficientTypeInformationForArray(e) => {
                InferenceErrorView::InsufficientTypeInformationForArray {
                    on_function: e.on_function@,
                }
            },
            TypeInferenceError::Internal(e) => InferenceErrorView::Internal(e@),
        }
    }
}

/// The failure to find a type for a written type.
fn type_not_found(on_function: &str, written: &HIRType) -> (error: TypeInferenceError)
    ensures
        error@ == (InferenceErrorView::TypeNotFound {
            on_function: on_function@,
            missing_type: written@,
        }),
{
    TypeInferenceError::TypeNotFound(
        TypeNotFound { on_function: on_function.to_owned(), missing_type: written.clone() },
    )
}

/// The resolved types of a list of written types.
fn instantiate_types(type_db: &TypeDatabase, written: &Vec<HIRType>, on_function: &str) -> (result:
    Result<Vec<TypeInstance>, TypeInferenceError>)
    requires
        type_db@.wf(),
    ensures
        match result {
            Ok(instances) => instantiate_all(
                type_db@,
                hir_type_views(written@),
                on_function@,
                written@.len(),
            ) == Ok::<Seq<TypeInstanceView>, InferenceErrorView>(type_instance_views(instances@)),
            Err(e) => instantiate_all(
                type_db@,
                hir_type_views(written@),
                on_function@,
                written@.len(),
            ) == Err::<Seq<TypeInstanceView>, InferenceErrorView>(e@),
        },
    decreases written, 0nat,
{
    let ghost views = hir_type_views(written@);
    let mut instances: Vec<TypeInstance> = Vec::new();
    let mut i: usize = 0;
    assert(type_instance_views(instances@) =~= Seq::<TypeInstanceView>::empty());
    while i < written.len()
        invariant
            0 <= i <= written.len(),
            type_db@.wf(),
            views == hir_type_views(written@),
            instantiate_all(type_db@, views, on_function@, i as nat) == Ok::<
                Seq<TypeInstanceView>,
                InferenceErrorView,
            >(type_instance_views(instances@)),
        decreases written.len() - i,
    {
        let ghost before = type_instance_views(instances@);
        assert(views[i as int] == written@[i as int]@);
        match instantiate_type(type_db, &written[i], on_function) {
            Ok(instance) => {
                instances.push(instance);
                assert(type_instance_views(instances@) =~= before.push(instance@));
            },
            Err(e) => {
                proof {
                    lemma_instantiate_all_fails(
                        type_db@,
                        views,
                        on_function@,
                        (i + 1) as nat,
                        written@.len(),
                    );
                }
                return Err(e);
            },
        }
        i += 1;
    }
    Ok(instances)
}

/// Once a written type of a list fails, the list fails in the same way.
proof fn lemma_instantiate_all_fails(
    type_db: TypeDatabaseView,
    written: Seq<HIRTypeView>,
    on_function: Seq<char>,
    i: nat,
    n: nat,
)
    requires
        i <= n <= written.len(),
        instantiate_all(type_db, written, on_function, i) is Err,
    ensures
        instantiate_all(type_db, written, on_function, n) == instantiate_all(
            type_db,
            written,
            on_function,
            i,
        ),
    decreases n,
{
    if i < n {
        lemma_instantiate_all_fails(type_db, written, on_function, i, (n - 1) as nat);
    }
}

/// The resolved type that a written type stands for. The name of a simple
/// type must be that of a type without generic parameters, the name of a
/// generic type that of a type; otherwise the type is reported as not
/// found.
pub fn instantiate_type(type_db: &TypeDatabase, typedef: &HIRType, on_function: &str) -> (result:
    Result<TypeInstance, TypeInferenceError>)
    requires
        type_db@.wf(),
    ensures
        match result {
            Ok(instance) => instantiate(type_db@, typedef@, on_function@) == Ok::<
                TypeInstanceView,
                InferenceErrorView,
            >(instance@),
            Err(e) => instantiate(type_db@, typedef@, on_function@) == Err::<
                TypeInstanceView,
                InferenceErrorView,
            >(e@),
        },
    decreases typedef, 1nat,
{
    proof {
        lemma_hir_type_model(typedef);
    }
    match typedef {
        HIRType::Simple(name) => {
            match type_db.find_by_name(name.as_str()) {
                Some(record) => {
                    if record.type_args.len() == 0 {
                        Ok(TypeInstance::Simple(record.id))
                    } else {
                        Err(type_not_found(on_function, typedef))
                    }
                },
                None => Err(type_not_found(on_function, typedef)),
            }
        },
        HIRType::Generic(name, args) => {
            match type_db.find_by_name(name.as_str()) {
                Some(record) => {
                    match instantiate_types(type_db, args, on_function) {
                        Ok(instances) => {
                            let instance = TypeInstance::Generic(record.id, instances);
                            proof {
                                lemma_type_instance_model(&instance);
                            }
                            Ok(instance)
                        },
                        Err(e) => Err(e),
                    }
                },
                None => Err(type_not_found(on_function, typedef)),
            }
        },
        HIRType::Function(args, return_type) => {
            match instantiate_types(type_db, args, on_function) {
                Ok(instances) => {
                    match instantiate_type(type_db, return_type, on_function) {
                        Ok(result) => {
                            let instance = TypeInstance::Function(instances, Box::new(result));
                            proof {
                                lemma_type_instance_model(&instance);
                            }
                            Ok(instance)
                        },
                        Err(e) => Err(e),
                    }
                },
                Err(e) => Err(e),
            }
        },
    }
}

/// What a generic parameter of a signature is resolved against: the type
/// that declares the signature, and the actual generic arguments of the
/// object.
#[derive(Debug, Clone, Copy)]
pub struct TypeResolution<'a> {
    pub object_type_id: Option<TypeId>,
    pub object_instance_generic_args: &'a [TypeInstance],
}

impl<'a> TypeResolution<'a> {
    /// A resolution against the type `object_type_id` with the given actual
    /// generic arguments.
    pub fn new(
        object_type_id: Option<TypeId>,
        object_instance_generic_args: &'a [TypeInstance],
    ) -> (resolution: Self)
        ensures
            resolution.object_type_id == object_type_id,
            resolution.object_instance_generic_args == object_instance_generic_args,
    {
        Self { object_type_id, object_instance_generic_args }
    }
}

/// The failure to bind a generic parameter.
fn parameter_not_bound(parameter: &GenericParameter) -> (error: TypeInferenceError)
    ensures
        error@ == InferenceErrorView::Internal(
            InternalErrorView::GenericParameterNotBound(parameter@),
        ),
{
    TypeInferenceError::Internal(InternalError::GenericParameterNotBound(parameter.0.clone()))
}

/// The place of the first parameter called like `parameter`.
fn find_parameter(parameters: &Vec<GenericParameter>, parameter: &GenericParameter) -> (found:
    Option<usize>)
    ensures
        match found {
            Some(i) => crate::semantic::search::first(
                parameter_views(parameters@),
                parameter_named(parameter@),
            ) == Some(i as int),
            None => crate::semantic::search::first(
                parameter_views(parameters@),
                parameter_named(parameter@),
            ) is None,
        },
{
    let ghost names = parameter_views(parameters@);
    let ghost wanted = parameter_named(parameter@);
    let mut i: usize = 0;
    while i < parameters.len()
        invariant
            0 <= i <= parameters.len(),
            names == parameter_views(parameters@),
            wanted == parameter_named(parameter@),
            forall|j: int| 0 <= j < i ==> !wanted(#[trigger] names[j]),
        decreases parameters.len() - i,
    {
        if str_eq(parameters[i].0.as_str(), parameter.0.as_str()) {
            proof {
                assert(wanted(names[i as int]));
                lemma_first(names, wanted, i as int);
            }
            return Some(i);
        }
        assert(!wanted(names[i as int]));
        i += 1;
    }
    proof {
        lemma_no_first(names, wanted);
    }
    None
}

/// The type that a generic parameter stands for.
fn resolve_parameter(
    parameter: &GenericParameter,
    type_db: &TypeDatabase,
    type_resolution: TypeResolution<'_>,
) -> (result: Result<TypeInstance, TypeInferenceError>)
    ensures
        match result {
            Ok(instance) => bound_parameter(
                type_db@,
                parameter@,
                type_resolution.object_type_id,
                type_instance_views(type_resolution.object_instance_generic_args@),
            ) == Ok::<TypeInstanceView, InferenceErrorView>(instance@),
            Err(e) => bound_parameter(
                type_db@,
                parameter@,
                type_resolution.object_type_id,
                type_instance_views(type_resolution.object_instance_generic_args@),
            ) == Err::<TypeInstanceView, InferenceErrorView>(e@),
        },
{
    match type_resolution.object_type_id {
        Some(id) => {
            match type_db.find(id) {
                Some(type_data) => {
                    match find_parameter(&type_data.type_args, parameter) {
                        Some(index_of) => {
                            if index_of < type_resolution.object_instance_generic_args.len() {
                                Ok(
                                    type_resolution.object_instance_generic_args[index_of].clone(),
                                )
                            } else {
                                Err(parameter_not_bound(parameter))
                            }
                        },
                        None => Err(parameter_not_bound(parameter)),
                    }
                },
                None => Err(parameter_not_bound(parameter)),
            }
        },
        None => Err(parameter_not_bound(parameter)),
    }
}

/// Once a type of a list fails to resolve, the list fails in the same way.
proof fn lemma_resolve_all_fails(
    type_db: TypeDatabaseView,
    partial: Seq<TypeView>,
    object: Option<TypeId>,
    generics: Seq<TypeInstanceView>,
    i: nat,
    n: nat,
)
    requires
        i <= n <= partial.len(),
        resolve_all(type_db, partial, object, generics, i) is Err,
    ensures
        resolve_all(type_db, partial, object, generics, n) == resolve_all(
            type_db,
            partial,
            object,
            generics,
            i,
        ),
    decreases n,
{
    if i < n {
        lemma_resolve_all_fails(type_db, partial, object, generics, i, (n - 1) as nat);
    }
}

/// The resolved types of a list of types of a signature.
fn resolve_types(
    partial: &Vec<Type>,
    type_db: &TypeDatabase,
    type_resolution: TypeResolution<'_>,
) -> (result: Result<Vec<TypeInstance>, TypeInferenceError>)
    ensures
        match result {
            Ok(instances) => resolve_all(
                type_db@,
                type_views(partial@),
                type_resolution.object_type_id,
                type_instance_views(type_resolution.object_instance_generic_args@),
                partial@.len(),
            ) == Ok::<Seq<TypeInstanceView>, InferenceErrorView>(type_instance_views(instances@)),
            Err(e) => resolve_all(
                type_db@,
                type_views(partial@),
                type_resolution.object_type_id,
                type_instance_views(type_resolution.object_instance_generic_args@),
                partial@.len(),
            ) == Err::<Seq<TypeInstanceView>, InferenceErrorView>(e@),
        },
    decreases partial, 0nat,
{
    let ghost views = type_views(partial@);
    let ghost object = type_resolution.object_type_id;
    let ghost generics = type_instance_views(type_resolution.object_instance_generic_args@);
    let mut instances: Vec<TypeInstance> = Vec::new();
    let mut i: usize = 0;
    assert(type_instance_views(instances@) =~= Seq::<TypeInstanceView>::empty());
    while i < partial.len()
        invariant
            0 <= i <= partial.len(),
            views == type_views(partial@),
            object == type_resolution.object_type_id,
            generics == type_instance_views(type_resolution.object_instance_generic_args@),
            resolve_all(type_db@, views, object, generics, i as nat) == Ok::<
                Seq<TypeInstanceView>,
                InferenceErrorView,
            >(type_instance_views(instances@)),
        decreases partial.len() - i,
    {
        let ghost before = type_instance_views(instances@);
        assert(views[i as int] == partial@[i as int]@);
        match resolve_type(&partial[i], type_db, type_resolution) {
            Ok(instance) => {
                instances.push(instance);
                assert(type_instance_views(instances@) =~= before.push(instance@));
            },
            Err(e) => {
                proof {
                    lemma_resolve_all_fails(
                        type_db@,
                        views,
                        object,
                        generics,
                        (i + 1) as nat,
                        partial@.len(),
                    );
                }
                return Err(e);
            },
        }
        i += 1;
    }
    Ok(instances)
}

/// The resolved type of a type of a signature. A generic parameter stands
/// for the actual argument at the place that the parameter has among the
/// parameters of the declaring type.
pub fn resolve_type(
    type_partially_filled: &Type,
    type_db: &TypeDatabase,
    type_resolution: TypeResolution<'_>,
) -> (result: Result<TypeInstance, TypeInferenceError>)
    ensures
        match result {
            Ok(instance) => resolve(
                type_db@,
                type_partially_filled@,
                type_resolution.object_type_id,
                type_instance_views(type_resolution.object_instance_generic_args@),
            ) == Ok::<TypeInstanceView, InferenceErrorView>(instance@),
            Err(e) => resolve(
                type_db@,
                type_partially_filled@,
                type_resolution.object_type_id,
                type_instance_views(type_resolution.object_instance_generic_args@),
            ) == Err::<TypeInstanceView, InferenceErrorView>(e@),
        },
    decreases type_partially_filled, 1nat,
{
    proof {
        lemma_type_model(type_partially_filled);
    }
    match type_partially_filled {
        Type::Simple(Either::Right(type_id)) => Ok(TypeInstance::Simple(*type_id)),
        Type::Simple(Either::Left(gen_param)) => resolve_parameter(
            gen_param,
            type_db,
            type_resolution,
        ),
        Type::Generic(type_id, type_args) => {
            match resolve_types(
                type_args,
                type_db,
                TypeResolution::new(Some(*type_id), type_resolution.object_instance_generic_args),
            ) {
                Ok(all_args_resolved) => {
                    let instance = TypeInstance::Generic(*type_id, all_args_resolved);
                    proof {
                        lemma_type_instance_model(&instance);
                    }
                    Ok(instance)
                },
                Err(e) => Err(e),
            }
        },
        Type::Function(fun_arg_types, return_type) => {
            match resolve_types(fun_arg_types, type_db, type_resolution) {
                Ok(all_args_resolved) => {
                    match resolve_type(return_type, type_db, type_resolution) {
                        Ok(return_type_resolved) => {
                            let instance = TypeInstance::Function(
                                all_args_resolved,
                                Box::new(return_type_resolved),
                            );
                            proof {
                                lemma_type_instance_model(&instance);
                            }
                            Ok(instance)
                        },
                        Err(e) => Err(e),
                    }
                },
                Err(e) => Err(e),
            }
        },
    }
}

/// The type called `name`, as the type of a literal or of an array.
fn find_named_type(type_db: &TypeDatabase, name: &str, on_function: &str) -> (result: Result<
    TypeId,
    TypeInferenceError,
>)
    requires
        type_db@.wf(),
    ensures
        match result {
            Ok(id) => named_type(type_db@, name@, on_function@) == Ok::<
                TypeId,
                InferenceErrorView,
            >(id),
            Err(e) => named_type(type_db@, name@, on_function@) == Err::<
                TypeId,
                InferenceErrorView,
            >(e@),
        },
{
    match type_db.find_by_name(name) {
        Some(record) => Ok(record.id),
        None => {
            let written = HIRType::Simple(name.to_owned());
            Err(type_not_found(on_function, &written))
        },
    }
}

/// The name of the type of a literal.
fn literal_type(leaf: &TrivialHIRExpr) -> (name: &'static str)
    ensures
        name@ == literal_type_name(leaf@),
{
    match leaf {
        TrivialHIRExpr::IntegerValue(_) => "i32",
        TrivialHIRExpr::FloatValue(_) => "f32",
        TrivialHIRExpr::StringValue(_) => "str",
        TrivialHIRExpr::BooleanValue(_) => "bool",
        _ => "None",
    }
}

/// The type of a leaf: that of its kind for a literal, that of its slot in
/// the scope for a variable.
pub fn infer_leaf_type(
    type_db: &TypeDatabase,
    decls_in_scope: &NameRegistry,
    leaf: &TrivialHIRExpr,
    on_function: &str,
) -> (result: Result<TypeInstance, TypeInferenceError>)
    requires
        type_db@.wf(),
        decls_in_scope.wf(),
    ensures
        match result {
            Ok(t) => leaf_type(type_db@, decls_in_scope@, leaf@, on_function@) == Ok::<
                TypeInstanceView,
                InferenceErrorView,
            >(t@),
            Err(e) => leaf_type(type_db@, decls_in_scope@, leaf@, on_function@) == Err::<
                TypeInstanceView,
                InferenceErrorView,
            >(e@),
        },
{
    match leaf {
        TrivialHIRExpr::Variable(var) => {
            match decls_in_scope.get(var.as_str()) {
                Some(HIRTypeDef::Pending) => Err(
                    TypeInferenceError::Internal(InternalError::PendingType(var.clone())),
                ),
                Some(HIRTypeDef::Unresolved(mir_type)) => instantiate_type(
                    type_db,
                    mir_type,
                    on_function,
                ),
                Some(HIRTypeDef::Resolved(resolved)) => Ok(resolved.clone()),
                None => Err(TypeInferenceError::Internal(InternalError::NameNotFound(var.clone()))),
            }
        },
        _ => {
            match find_named_type(type_db, literal_type(leaf), on_function) {
                Ok(id) => Ok(TypeInstance::Simple(id)),
                Err(e) => Err(e),
            }
        },
    }
}

/// A leaf after inference: the leaf with its type in its slot.
pub fn infer_typed_leaf(
    type_db: &TypeDatabase,
    decls_in_scope: &NameRegistry,
    leaf: &TypedTrivialHIRExpr,
    on_function: &str,
) -> (result: Result<TypedTrivialHIRExpr, TypeInferenceError>)
    requires
        type_db@.wf(),
        decls_in_scope.wf(),
    ensures
        match result {
            Ok(t) => infer_leaf(type_db@, decls_in_scope@, leaf@, on_function@) == Ok::<
                TypedTrivialHIRExprView,
                InferenceErrorView,
            >(t@),
            Err(e) => infer_leaf(type_db@, decls_in_scope@, leaf@, on_function@) == Err::<
                TypedTrivialHIRExprView,
                InferenceErrorView,
            >(e@),
        },
{
    match infer_leaf_type(type_db, decls_in_scope, &leaf.0, on_function) {
        Ok(t) => Ok(TypedTrivialHIRExpr(leaf.0.clone(), HIRTypeDef::Resolved(t))),
        Err(e) => Err(e),
    }
}

/// Once a leaf of a list fails, the list fails in the same way.
proof fn lemma_infer_leaves_fails(
    type_db: TypeDatabaseView,
    scope: Map<Seq<char>, HIRTypeDefView>,
    leaves: Seq<TypedTrivialHIRExprView>,
    on_function: Seq<char>,
    i: nat,
    n: nat,
)
    requires
        i <= n <= leaves.len(),
        infer_leaves(type_db, scope, leaves, on_function, i) is Err,
    ensures
        infer_leaves(type_db, scope, leaves, on_function, n) == infer_leaves(
            type_db,
            scope,
            leaves,
            on_function,
            i,
        ),
    decreases n,
{
    if i < n {
        lemma_infer_leaves_fails(type_db, scope, leaves, on_function, i, (n - 1) as nat);
    }
}

/// A list of leaves after inference.
pub fn infer_typed_leaves(
    type_db: &TypeDatabase,
    decls_in_scope: &NameRegistry,
    leaves: &Vec<TypedTrivialHIRExpr>,
    on_function: &str,
) -> (result: Result<Vec<TypedTrivialHIRExpr>, TypeInferenceError>)
    requires
        type_db@.wf(),
        decls_in_scope.wf(),
    ensures
        match result {
            Ok(typed_leaves) => infer_leaves(
                type_db@,
                decls_in_scope@,
                trivial_views(leaves@),
                on_function@,
                leaves@.len(),
            ) == Ok::<Seq<TypedTrivialHIRExprView>, InferenceErrorView>(
                trivial_views(typed_leaves@),
            ),
            Err(e) => infer_leaves(
                type_db@,
                decls_in_scope@,
                trivial_views(leaves@),
                on_function@,
                leaves@.len(),
            ) == Err::<Seq<TypedTrivialHIRExprView>, InferenceErrorView>(e@),
        },
{
    let ghost views = trivial_views(leaves@);
    let mut typed_leaves: Vec<TypedTrivialHIRExpr> = Vec::new();
    let mut i: usize = 0;
    assert(trivial_views(typed_leaves@) =~= Seq::<TypedTrivialHIRExprView>::empty());
    while i < leaves.len()
        invariant
            0 <= i <= leaves.len(),
            type_db@.wf(),
            decls_in_scope.wf(),
            views == trivial_views(leaves@),
            infer_leaves(type_db@, decls_in_scope@, views, on_function@, i as nat) == Ok::<
                Seq<TypedTrivialHIRExprView>,
                InferenceErrorView,
            >(trivial_views(typed_leaves@)),
        decreases leaves.len() - i,
    {
        let ghost before = trivial_views(typed_leaves@);
        assert(views[i as int] == leaves@[i as int]@);
        match infer_typed_leaf(type_db, decls_in_scope, &leaves[i], on_function) {
            Ok(leaf) => {
                typed_leaves.push(leaf);
                assert(trivial_views(typed_leaves@) =~= before.push(leaf@));
            },
            Err(e) => {
                proof {
                    lemma_infer_leaves_fails(
                        type_db@,
                        decls_in_scope@,
                        views,
                        on_function@,
                        (i + 1) as nat,
                        leaves@.len(),
                    );
                }
                return Err(e);
            },
        }
        i += 1;
    }
    Ok(typed_leaves)
}

/// The identity of the type whose operators and members a value of the
/// type `t` has; a function has none.
fn base_type_of(t: &TypeInstance) -> (id: Option<TypeId>)
    ensures
        id == base_type(t@),
{
    match t {
        TypeInstance::Simple(id) => Some(*id),
        TypeInstance::Generic(id, _) => Some(*id),
        TypeInstance::Function(_, _) => None,
    }
}

/// The failure of a type that cannot stand where it was found.
fn unexpected_type(on_function: &str, found: &TypeInstance) -> (error: TypeInferenceError)
    ensures
        error@ == (InferenceErrorView::UnexpectedTypeFound {
            on_function: on_function@,
            type_def: found@,
        }),
{
    TypeInferenceError::UnexpectedTypeFound(
        UnexpectedTypeFound { on_function: on_function.to_owned(), type_def: found.clone() },
    )
}

/// The record of the type `id`, or the failure that the database does not
/// hold it.
fn find_record(type_db: &TypeDatabase, id: TypeId) -> (result: Result<
    &TypeRecord,
    TypeInferenceError,
>)
    ensures
        match result {
            Ok(record) => type_db@.has(id) && record@ == type_db@.types[id as int],
            Err(e) => !type_db@.has(id) && e@ == InferenceErrorView::Internal(
                InternalErrorView::UnknownType(id),
            ),
        },
{
    match type_db.find(id) {
        Some(record) => Ok(record),
        None => Err(TypeInferenceError::Internal(InternalError::UnknownType(id))),
    }
}

/// A binary operation after inference, with the type of its result.
#[verifier::loop_isolation(false)]
fn infer_binary(
    type_db: &TypeDatabase,
    decls_in_scope: &NameRegistry,
    lhs: &TypedTrivialHIRExpr,
    op: Operator,
    rhs: &TypedTrivialHIRExpr,
    on_function: &str,
) -> (result: Result<(HIRExpr, TypeInstance), TypeInferenceError>)
    requires
        type_db@.wf(),
        decls_in_scope.wf(),
    ensures
        match result {
            Ok(inferred) => infer_binary_operation(
                type_db@,
                decls_in_scope@,
                lhs@,
                op,
                rhs@,
                on_function@,
            ) == Ok::<Inferred, InferenceErrorView>(
                Inferred { expression: inferred.0@, expression_type: inferred.1@ },
            ),
            Err(e) => infer_binary_operation(
                type_db@,
                decls_in_scope@,
                lhs@,
                op,
                rhs@,
                on_function@,
            ) == Err::<Inferred, InferenceErrorView>(e@),
        },
{
    let lhs_type = match infer_leaf_type(type_db, decls_in_scope, &lhs.0, on_function) {
        Ok(t) => t,
        Err(e) => {
            return Err(e);
        },
    };
    let rhs_type = match infer_leaf_type(type_db, decls_in_scope, &rhs.0, on_function) {
        Ok(t) => t,
        Err(e) => {
            return Err(e);
        },
    };
    let id = match base_type_of(&lhs_type) {
        Some(id) => id,
        None => {
            return Err(unexpected_type(on_function, &lhs_type));
        },
    };
    if base_type_of(&rhs_type).is_none() {
        return Err(unexpected_type(on_function, &rhs_type));
    }
    let record = match find_record(type_db, id) {
        Ok(record) => record,
        Err(e) => {
            return Err(e);
        },
    };
    let ghost operations = record@.binary_ops;
    let ghost wanted = binary_with(op, rhs_type@);
    let mut i: usize = 0;
    while i < record.binary_ops.len()
        invariant
            0 <= i <= record.binary_ops.len(),
            operations == record@.binary_ops,
            wanted == binary_with(op, rhs_type@),
            forall|j: int| 0 <= j < i ==> !wanted(#[trigger] operations[j]),
        decreases record.binary_ops.len() - i,
    {
        let operation = &record.binary_ops[i];
        assert(operations[i as int] == operation@);
        if operation.operator == op && operation.rhs_type.same_as(&rhs_type) {
            proof {
                assert(wanted(operations[i as int]));
                lemma_first(operations, wanted, i as int);
            }
            let result_type = operation.result_type.clone();
            let expr = HIRExpr::BinaryOperation(
                TypedTrivialHIRExpr(lhs.0.clone(), HIRTypeDef::Resolved(lhs_type)),
                op,
                TypedTrivialHIRExpr(rhs.0.clone(), HIRTypeDef::Resolved(rhs_type)),
                HIRTypeDef::Resolved(operation.result_type.clone()),
            );
            return Ok((expr, result_type));
        }
        assert(!wanted(operations[i as int]));
        i += 1;
    }
    proof {
        lemma_no_first(operations, wanted);
    }
    Err(
        TypeInferenceError::BinaryOperatorNotFound(
            BinaryOperatorNotFound {
                on_function: on_function.to_owned(),
                lhs: lhs_type,
                rhs: rhs_type,
                operator: op,
            },
        ),
    )
}

/// A unary operation after inference, with the type of its result.
#[verifier::loop_isolation(false)]
fn infer_unary(
    type_db: &TypeDatabase,
    decls_in_scope: &NameRegistry,
    op: Operator,
    operand: &TypedTrivialHIRExpr,
    on_function: &str,
) -> (result: Result<(HIRExpr, TypeInstance), TypeInferenceError>)
    requires
        type_db@.wf(),
        decls_in_scope.wf(),
    ensures
        match result {
            Ok(inferred) => infer_unary_expression(
                type_db@,
                decls_in_scope@,
                op,
                operand@,
                on_function@,
            ) == Ok::<Inferred, InferenceErrorView>(
                Inferred { expression: inferred.0@, expression_type: inferred.1@ },
            ),
            Err(e) => infer_unary_expression(
                type_db@,
                decls_in_scope@,
                op,
                operand@,
                on_function@,
            ) == Err::<Inferred, InferenceErrorView>(e@),
        },
{
    let operand_type = match infer_leaf_type(type_db, decls_in_scope, &operand.0, on_function) {
        Ok(t) => t,
        Err(e) => {
            return Err(e);
        },
    };
    let id = match base_type_of(&operand_type) {
        Some(id) => id,
        None => {
            return Err(unexpected_type(on_function, &operand_type));
        },
    };
    let record = match find_record(type_db, id) {
        Ok(record) => record,
        Err(e) => {
            return Err(e);
        },
    };
    let ghost operations = record@.unary_ops;
    let ghost wanted = unary_with(op);
    let mut i: usize = 0;
    while i < record.unary_ops.len()
        invariant
            0 <= i <= record.unary_ops.len(),
            operations == record@.unary_ops,
            wanted == unary_with(op),
            forall|j: int| 0 <= j < i ==> !wanted(#[trigger] operations[j]),
        decreases record.unary_ops.len() - i,
    {
        let operation = &record.unary_ops[i];
        assert(operations[i as int] == operation@);
        if operation.operator == op {
            proof {
                assert(wanted(operations[i as int]));
                lemma_first(operations, wanted, i as int);
            }
            let result_type = operation.result_type.clone();
            let expr = HIRExpr::UnaryExpression(
                op,
                TypedTrivialHIRExpr(operand.0.clone(), HIRTypeDef::Resolved(operand_type)),
                HIRTypeDef::Resolved(operation.result_type.clone()),
            );
            return Ok((expr, result_type));
        }
        assert(!wanted(operations[i as int]));
        i += 1;
    }
    proof {
        lemma_no_first(operations, wanted);
    }
    Err(
        TypeInferenceError::UnaryOperatorNotFound(
            UnaryOperatorNotFound {
                on_function: on_function.to_owned(),
                rhs: operand_type,
                operator: op,
            },
        ),
    )
}

/// A call after inference, with the type of its result.
fn infer_call(
    type_db: &TypeDatabase,
    decls_in_scope: &NameRegistry,
    function: &TypedTrivialHIRExpr,
    args: &Vec<TypedTrivialHIRExpr>,
    on_function: &str,
) -> (result: Result<(HIRExpr, TypeInstance), TypeInferenceError>)
    requires
        type_db@.wf(),
        decls_in_scope.wf(),
    ensures
        match result {
            Ok(inferred) => infer_function_call(
                type_db@,
                decls_in_scope@,
                function@,
                trivial_views(args@),
                on_function@,
            ) == Ok::<Inferred, InferenceErrorView>(
                Inferred { expression: inferred.0@, expression_type: inferred.1@ },
            ),
            Err(e) => infer_function_call(
                type_db@,
                decls_in_scope@,
                function@,
                trivial_views(args@),
                on_function@,
            ) == Err::<Inferred, InferenceErrorView>(e@),
        },
{
    let function_type = match infer_leaf_type(type_db, decls_in_scope, &function.0, on_function) {
        Ok(t) => t,
        Err(e) => {
            return Err(e);
        },
    };
    proof {
        lemma_type_instance_model(&function_type);
    }
    let return_type = match &function_type {
        TypeInstance::Function(_, return_type) => (**return_type).clone(),
        _ => {
            return Err(
                TypeInferenceError::CallToNonCallableType(
                    CallToNonCallableType {
                        on_function: on_function.to_owned(),
                        actual_type: function_type,
                    },
                ),
            );
        },
    };
    let typed_args = match infer_typed_leaves(type_db, decls_in_scope, args, on_function) {
        Ok(typed_args) => typed_args,
        Err(e) => {
            return Err(e);
        },
    };
    let expr = HIRExpr::FunctionCall(
        TypedTrivialHIRExpr(function.0.clone(), HIRTypeDef::Resolved(function_type)),
        typed_args,
        HIRTypeDef::Resolved(return_type.clone()),
    );
    Ok((expr, return_type))
}

/// The place of the first method called `name`.
fn find_method(record: &TypeRecord, name: &str) -> (found: Option<usize>)
    ensures
        match found {
            Some(i) => crate::semantic::search::first(record@.methods, method_named(name@))
                == Some(i as int) && i < record.methods@.len() && record.methods@[i as int].name@
                == name@,
            None => crate::semantic::search::first(record@.methods, method_named(name@)) is None,
        },
{
    let ghost methods = record@.methods;
    let ghost wanted = method_named(name@);
    let mut i: usize = 0;
    while i < record.methods.len()
        invariant
            0 <= i <= record.methods.len(),
            methods == record@.methods,
            wanted == method_named(name@),
            forall|j: int| 0 <= j < i ==> !wanted(#[trigger] methods[j]),
        decreases record.methods.len() - i,
    {
        assert(methods[i as int] == record.methods@[i as int]@);
        if str_eq(record.methods[i].name.as_str(), name) {
            proof {
                assert(wanted(methods[i as int]));
                lemma_first(methods, wanted, i as int);
            }
            return Some(i);
        }
        assert(!wanted(methods[i as int]));
        i += 1;
    }
    proof {
        lemma_no_first(methods, wanted);
    }
    None
}

/// The place of the first field called `name`.
fn find_field(record: &TypeRecord, name: &str) -> (found: Option<usize>)
    ensures
        match found {
            Some(i) => crate::semantic::search::first(record@.fields, field_named(name@)) == Some(
                i as int,
            ) && i < record.fields@.len() && record.fields@[i as int].name@ == name@,
            None => crate::semantic::search::first(record@.fields, field_named(name@)) is None,
        },
{
    let ghost fields = record@.fields;
    let ghost wanted = field_named(name@);
    let mut i: usize = 0;
    while i < record.fields.len()
        invariant
            0 <= i <= record.fields.len(),
            fields == record@.fields,
            wanted == field_named(name@),
            forall|j: int| 0 <= j < i ==> !wanted(#[trigger] fields[j]),
        decreases record.fields.len() - i,
    {
        assert(fields[i as int] == record.fields@[i as int]@);
        if str_eq(record.fields[i].name.as_str(), name) {
            proof {
                assert(wanted(fields[i as int]));
                lemma_first(fields, wanted, i as int);
            }
            return Some(i);
        }
        assert(!wanted(fields[i as int]));
        i += 1;
    }
    proof {
        lemma_no_first(fields, wanted);
    }
    None
}

/// The types of the parameters and of the result of a method, resolved
/// against the type `object_type_id` with the actual generic arguments
/// `generics`. A method with type arguments of its own is not handled.
pub fn resolve_function_signature(
    type_db: &TypeDatabase,
    signature: &FunctionSignature,
    object_type_id: TypeId,
    generics: &[TypeInstance],
) -> (result: Result<(Vec<TypeInstance>, TypeInstance), TypeInferenceError>)
    ensures
        match result {
            Ok(resolved) => signature@.type_args.len() == 0 && resolve_all(
                type_db@,
                signature@.args,
                Some(object_type_id),
                type_instance_views(generics@),
                signature@.args.len(),
            ) == Ok::<Seq<TypeInstanceView>, InferenceErrorView>(type_instance_views(resolved.0@))
                && resolve(
                type_db@,
                signature@.return_type,
                Some(object_type_id),
                type_instance_views(generics@),
            ) == Ok::<TypeInstanceView, InferenceErrorView>(resolved.1@),
            Err(e) => if signature@.type_args.len() != 0 {
                e@ == InferenceErrorView::Internal(
                    InternalErrorView::MethodTypeArguments(signature@.name),
                )
            } else {
                match resolve_all(
                    type_db@,
                    signature@.args,
                    Some(object_type_id),
                    type_instance_views(generics@),
                    signature@.args.len(),
                ) {
                    Err(first) => e@ == first,
                    Ok(_) => resolve(
                        type_db@,
                        signature@.return_type,
                        Some(object_type_id),
                        type_instance_views(generics@),
                    ) == Err::<TypeInstanceView, InferenceErrorView>(e@),
                }
            },
        },
{
    if signature.type_args.len() != 0 {
        return Err(
            TypeInferenceError::Internal(
                InternalError::MethodTypeArguments(signature.name.clone()),
            ),
        );
    }
    let resolution = TypeResolution::new(Some(object_type_id), generics);
    let results = match resolve_types(&signature.args, type_db, resolution) {
        Ok(results) => results,
        Err(e) => {
            return Err(e);
        },
    };
    match resolve_type(&signature.return_type, type_db, resolution) {
        Ok(return_type) => Ok((results, return_type)),
        Err(e) => Err(e),
    }
}

/// The type of the member `name` of the type of the record, for an object
/// of the type `object_type`.
fn find_member_type(
    type_db: &TypeDatabase,
    record: &TypeRecord,
    object_type: &TypeInstance,
    id: TypeId,
    name: &str,
    on_function: &str,
) -> (result: Result<TypeInstance, TypeInferenceError>)
    requires
        type_db@.has(id),
        record@ == type_db@.types[id as int],
    ensures
        match result {
            Ok(t) => member_type(type_db@, object_type@, id, name@, on_function@) == Ok::<
                TypeInstanceView,
                InferenceErrorView,
            >(t@),
            Err(e) => member_type(type_db@, object_type@, id, name@, on_function@) == Err::<
                TypeInstanceView,
                InferenceErrorView,
            >(e@),
        },
{
    proof {
        lemma_type_instance_model(object_type);
    }
    let no_generics: Vec<TypeInstance> = Vec::new();
    assert(type_instance_views(no_generics@) =~= Seq::<TypeInstanceView>::empty());
    let generics: &[TypeInstance] = match object_type {
        TypeInstance::Generic(_, generics) => generics.as_slice(),
        _ => no_generics.as_slice(),
    };
    assert(type_instance_views(generics@) == generic_arguments(object_type@));
    match find_method(record, name) {
        Some(i) => {
            let signature = &record.methods[i];
            assert(record@.methods[i as int] == signature@);
            match resolve_function_signature(type_db, signature, id, generics) {
                Ok((args, return_type)) => {
                    let t = TypeInstance::Function(args, Box::new(return_type));
                    proof {
                        lemma_type_instance_model(&t);
                    }
                    Ok(t)
                },
                Err(e) => Err(e),
            }
        },
        None => {
            match find_field(record, name) {
                Some(i) => {
                    let field = &record.fields[i];
                    assert(record@.fields[i as int] == field@);
                    resolve_type(
                        &field.field_type,
                        type_db,
                        TypeResolution::new(Some(id), generics),
                    )
                },
                None => Err(
                    TypeInferenceError::FieldOrMethodNotFound(
                        FieldOrMethodNotFound {
                            on_function: on_function.to_owned(),
                            object_type: object_type.clone(),
                            field_or_method: name.to_owned(),
                        },
                    ),
                ),
            }
        },
    }
}

/// A member access after inference, with the type of the member.
fn infer_member(
    type_db: &TypeDatabase,
    decls_in_scope: &NameRegistry,
    object: &TypedTrivialHIRExpr,
    name: &String,
    on_function: &str,
) -> (result: Result<(HIRExpr, TypeInstance), TypeInferenceError>)
    requires
        type_db@.wf(),
        decls_in_scope.wf(),
    ensures
        match result {
            Ok(inferred) => infer_member_access(
                type_db@,
                decls_in_scope@,
                object@,
                name@,
                on_function@,
            ) == Ok::<Inferred, InferenceErrorView>(
                Inferred { expression: inferred.0@, expression_type: inferred.1@ },
            ),
            Err(e) => infer_member_access(
                type_db@,
                decls_in_scope@,
                object@,
                name@,
                on_function@,
            ) == Err::<Inferred, InferenceErrorView>(e@),
        },
{
    let typeof_obj = match infer_leaf_type(type_db, decls_in_scope, &object.0, on_function) {
        Ok(t) => t,
        Err(e) => {
            return Err(e);
        },
    };
    let id = match base_type_of(&typeof_obj) {
        Some(id) => id,
        None => {
            return Err(unexpected_type(on_function, &typeof_obj));
        },
    };
    let record = match find_record(type_db, id) {
        Ok(record) => record,
        Err(e) => {
            return Err(e);
        },
    };
    match find_member_type(type_db, record, &typeof_obj, id, name.as_str(), on_function) {
        Ok(t) => {
            let expr = HIRExpr::MemberAccess(
                TypedTrivialHIRExpr(object.0.clone(), HIRTypeDef::Resolved(typeof_obj)),
                name.clone(),
                HIRTypeDef::Resolved(t.clone()),
            );
            Ok((expr, t))
        },
        Err(e) => Err(e),
    }
}

/// An array literal after inference, with its type.
fn infer_array_literal(
    type_db: &TypeDatabase,
    decls_in_scope: &NameRegistry,
    array_items: &Vec<TypedTrivialHIRExpr>,
    type_hint: Option<TypeInstance>,
    on_function: &str,
) -> (result: Result<(HIRExpr, TypeInstance), TypeInferenceError>)
    requires
        type_db@.wf(),
        decls_in_scope.wf(),
    ensures
        match result {
            Ok(inferred) => infer_array(
                type_db@,
                decls_in_scope@,
                trivial_views(array_items@),
                match type_hint {
                    Some(t) => Some(t@),
                    None => None,
                },
                on_function@,
            ) == Ok::<Inferred, InferenceErrorView>(
                Inferred { expression: inferred.0@, expression_type: inferred.1@ },
            ),
            Err(e) => infer_array(
                type_db@,
                decls_in_scope@,
                trivial_views(array_items@),
                match type_hint {
                    Some(t) => Some(t@),
                    None => None,
                },
                on_function@,
            ) == Err::<Inferred, InferenceErrorView>(e@),
        },
{
    if array_items.len() == 0 && type_hint.is_none() {
        return Err(
            TypeInferenceError::InsufficientTypeInformationForArray(
                InsufficientTypeInformationForArray { on_function: on_function.to_owned() },
            ),
        );
    }
    let array_type = match find_named_type(type_db, "array", on_function) {
        Ok(id) => id,
        Err(e) => {
            return Err(e);
        },
    };
    if array_items.len() > 0 {
        let items_typed = match infer_typed_leaves(
            type_db,
            decls_in_scope,
            array_items,
            on_function,
        ) {
            Ok(items) => items,
            Err(e) => {
                return Err(e);
            },
        };
        proof {
            lemma_infer_leaves_typed(
                type_db@,
                decls_in_scope@,
                trivial_views(array_items@),
                on_function@,
                array_items@.len(),
            );
            assert(trivial_views(items_typed@)[0] == items_typed@[0]@);
        }
        let first = match &items_typed[0].1 {
            HIRTypeDef::Resolved(t) => t.clone(),
            _ => unreached(),
        };
        let mut arguments: Vec<TypeInstance> = Vec::new();
        arguments.push(first);
        let array_type_generic_replaced = TypeInstance::Generic(array_type, arguments);
        proof {
            lemma_type_instance_model(&array_type_generic_replaced);
            assert(type_instance_views(arguments@) =~= seq![
                slot_type(trivial_views(items_typed@)[0]),
            ]);
        }
        let expr = HIRExpr::Array(
            items_typed,
            HIRTypeDef::Resolved(array_type_generic_replaced.clone()),
        );
        Ok((expr, array_type_generic_replaced))
    } else {
        let hint = match type_hint {
            Some(hint) => hint,
            None => unreached(),
        };
        let mut arguments: Vec<TypeInstance> = Vec::new();
        arguments.push(hint);
        let array_type_generic_replaced = TypeInstance::Generic(array_type, arguments);
        proof {
            lemma_type_instance_model(&array_type_generic_replaced);
            assert(type_instance_views(arguments@) =~= seq![hint@]);
        }
        let items: Vec<TypedTrivialHIRExpr> = Vec::new();
        assert(trivial_views(items@) =~= Seq::<TypedTrivialHIRExprView>::empty());
        let expr = HIRExpr::Array(items, HIRTypeDef::Resolved(array_type_generic_replaced.clone()));
        Ok((expr, array_type_generic_replaced))
    }
}

/// Leaves that were inferred have a resolved type in their slot.
pub proof fn lemma_infer_leaves_typed(
    type_db: TypeDatabaseView,
    scope: Map<Seq<char>, HIRTypeDefView>,
    leaves: Seq<TypedTrivialHIRExprView>,
    on_function: Seq<char>,
    n: nat,
)
    requires
        n <= leaves.len(),
        infer_leaves(type_db, scope, leaves, on_function, n) is Ok,
    ensures
        infer_leaves(type_db, scope, leaves, on_function, n)->Ok_0.len() == n,
        forall|i: int|
            0 <= i < n ==> (#[trigger] infer_leaves(
                type_db,
                scope,
                leaves,
                on_function,
                n,
            )->Ok_0[i]).1 is Resolved,
    decreases n,
{
    if n > 0 {
        lemma_infer_leaves_typed(type_db, scope, leaves, on_function, (n - 1) as nat);
    }
}

/// Infers the type of an expression. The result is the expression with
/// every type slot resolved, and the type of the expression. `type_hint`
/// is the type that an empty array literal has. A failure names the
/// function `on_function`.
pub fn compute_and_infer_expr_type(
    type_db: &TypeDatabase,
    decls_in_scope: &NameRegistry,
    expression: &HIRExpr,
    type_hint: Option<TypeInstance>,
    on_function: &str,
) -> (result: Result<(HIRExpr, TypeInstance), TypeInferenceError>)
    requires
        type_db@.wf(),
        decls_in_scope.wf(),
    ensures
        match result {
            Ok(inferred) => infer_expr(
                type_db@,
                decls_in_scope@,
                expression@,
                match type_hint {
                    Some(t) => Some(t@),
                    None => None,
                },
                on_function@,
            ) == Ok::<Inferred, InferenceErrorView>(
                Inferred { expression: inferred.0@, expression_type: inferred.1@ },
            ),
            Err(e) => infer_expr(
                type_db@,
                decls_in_scope@,
                expression@,
                match type_hint {
                    Some(t) => Some(t@),
                    None => None,
                },
                on_function@,
            ) == Err::<Inferred, InferenceErrorView>(e@),
        },
{
    match expression {
        HIRExpr::Trivial(leaf) => {
            match infer_leaf_type(type_db, decls_in_scope, &leaf.0, on_function) {
                Ok(t) => Ok(
                    (
                        HIRExpr::Trivial(
                            TypedTrivialHIRExpr(leaf.0.clone(), HIRTypeDef::Resolved(t.clone())),
                        ),
                        t,
                    ),
                ),
                Err(e) => Err(e),
            }
        },
        HIRExpr::Cast(_, _) => Err(TypeInferenceError::Internal(InternalError::CastNotSupported)),
        HIRExpr::BinaryOperation(lhs, op, rhs, _) => infer_binary(
            type_db,
            decls_in_scope,
            lhs,
            *op,
            rhs,
            on_function,
        ),
        HIRExpr::FunctionCall(fun_expr, fun_params, _) => infer_call(
            type_db,
            decls_in_scope,
            fun_expr,
            fun_params,
            on_function,
        ),
        HIRExpr::UnaryExpression(op, rhs, _) => infer_unary(
            type_db,
            decls_in_scope,
            *op,
            rhs,
            on_function,
        ),
        HIRExpr::MemberAccess(obj, name, _) => infer_member(
            type_db,
            decls_in_scope,
            obj,
            name,
            on_function,
        ),
        HIRExpr::Array(array_items, _) => infer_array_literal(
            type_db,
            decls_in_scope,
            array_items,
            type_hint,
            on_function,
        ),
    }
}

/// The model of a hint.
pub open spec fn hint_view(hint: Option<TypeInstance>) -> Option<TypeInstanceView> {
    match hint {
        Some(t) => Some(t@),
        None => None,
    }
}

/// The type that a slot holds or stands for; none for an empty slot.
fn hint_of(type_db: &TypeDatabase, slot: &HIRTypeDef, on_function: &str) -> (result: Result<
    Option<TypeInstance>,
    TypeInferenceError,
>)
    requires
        type_db@.wf(),
    ensures
        match result {
            Ok(hint) => slot_hint(type_db@, slot@, on_function@) == Ok::<
                Option<TypeInstanceView>,
                InferenceErrorView,
            >(hint_view(hint)),
            Err(e) => slot_hint(type_db@, slot@, on_function@) == Err::<
                Option<TypeInstanceView>,
                InferenceErrorView,
            >(e@),
        },
{
    match slot {
        HIRTypeDef::Pending => Ok(None),
        HIRTypeDef::Unresolved(unresolved_type) => {
            match instantiate_type(type_db, unresolved_type, on_function) {
                Ok(t) => Ok(Some(t)),
                Err(e) => Err(e),
            }
        },
        HIRTypeDef::Resolved(type_resolved) => Ok(Some(type_resolved.clone())),
    }
}

/// A declaration after inference; its variable comes into scope with the
/// type of its expression.
fn infer_declare(
    type_db: &TypeDatabase,
    decls_in_scope: &mut NameRegistry,
    statement: &HIR,
    on_function: &str,
) -> (result: Result<HIR, TypeInferenceError>)
    requires
        type_db@.wf(),
        old(decls_in_scope).wf(),
        statement@ is Declare,
    ensures
        final(decls_in_scope).wf(),
        match result {
            Ok(inferred) => infer_statement(
                type_db@,
                old(decls_in_scope)@,
                statement@,
                on_function@,
            ) == Ok::<HIRView, InferenceErrorView>(inferred@),
            Err(e) => infer_statement(type_db@, old(decls_in_scope)@, statement@, on_function@)
                == Err::<HIRView, InferenceErrorView>(e@),
        },
        final(decls_in_scope)@ == scope_after_statement(
            type_db@,
            old(decls_in_scope)@,
            statement@,
            on_function@,
        ),
{
    proof {
        reveal(infer_statement);
        reveal(infer_body);
        reveal(scope_after_statement);
        lemma_hir_model(statement);
    }
    match statement {
        HIR::Declare { var, typename, expression } => {
            let hint = match hint_of(type_db, typename, on_function) {
                Ok(hint) => hint,
                Err(e) => {
                    return Err(e);
                },
            };
            let declared = match &hint {
                Some(t) => Some(t.clone()),
                None => None,
            };
            let (typed_expr, typedef) = match compute_and_infer_expr_type(
                type_db,
                decls_in_scope,
                expression,
                hint,
                on_function,
            ) {
                Ok(inferred) => inferred,
                Err(e) => {
                    return Err(e);
                },
            };
            decls_in_scope.insert(var.clone(), HIRTypeDef::Resolved(typedef.clone()));
            let decl_type = match declared {
                Some(t) => t,
                None => typedef,
            };
            let inferred = HIR::Declare {
                var: var.clone(),
                typename: HIRTypeDef::Resolved(decl_type),
                expression: typed_expr,
            };
            proof {
                lemma_hir_model(&inferred);
            }
            Ok(inferred)
        },
        _ => unreached(),
    }
}

/// An assignment, a call or a return after inference.
fn infer_plain_statement(
    type_db: &TypeDatabase,
    decls_in_scope: &NameRegistry,
    statement: &HIR,
    on_function: &str,
) -> (result: Result<HIR, TypeInferenceError>)
    requires
        type_db@.wf(),
        decls_in_scope.wf(),
        !(statement@ is Declare),
        !(statement@ is If),
    ensures
        match result {
            Ok(inferred) => infer_statement(type_db@, decls_in_scope@, statement@, on_function@)
                == Ok::<HIRView, InferenceErrorView>(inferred@),
            Err(e) => infer_statement(type_db@, decls_in_scope@, statement@, on_function@) == Err::<
                HIRView,
                InferenceErrorView,
            >(e@),
        },
{
    proof {
        reveal(infer_statement);
        reveal(infer_body);
        reveal(scope_after_statement);
        lemma_hir_model(statement);
    }
    match statement {
        HIR::Assign { path, expression } => {
            match compute_and_infer_expr_type(
                type_db,
                decls_in_scope,
                expression,
                None,
                on_function,
            ) {
                Ok((typed_expr, _)) => {
                    let inferred = HIR::Assign { path: clone_names(path), expression: typed_expr };
                    proof {
                        lemma_hir_model(&inferred);
                    }
                    Ok(inferred)
                },
                Err(e) => Err(e),
            }
        },
        HIR::FunctionCall { function, args } => {
            let typed_function = match infer_typed_leaf(
                type_db,
                decls_in_scope,
                function,
                on_function,
            ) {
                Ok(leaf) => leaf,
                Err(e) => {
                    return Err(e);
                },
            };
            match infer_typed_leaves(type_db, decls_in_scope, args, on_function) {
                Ok(typed_args) => {
                    let inferred = HIR::FunctionCall {
                        function: typed_function,
                        args: typed_args,
                    };
                    proof {
                        lemma_hir_model(&inferred);
                    }
                    Ok(inferred)
                },
                Err(e) => Err(e),
            }
        },
        HIR::Return(expr) => {
            match compute_and_infer_expr_type(type_db, decls_in_scope, expr, None, on_function) {
                Ok((typed_expr, _)) => Ok(HIR::Return(typed_expr)),
                Err(e) => Err(e),
            }
        },
        other => Ok(other.clone()),
    }
}

/// A conditional after inference: the condition, then each branch in a
/// copy of the scope, so that what a branch declares stays in the branch.
fn infer_if(
    type_db: &TypeDatabase,
    decls_in_scope: &NameRegistry,
    statement: &HIR,
    on_function: &str,
) -> (result: Result<HIR, TypeInferenceError>)
    requires
        type_db@.wf(),
        decls_in_scope.wf(),
        statement@ is If,
    ensures
        match result {
            Ok(inferred) => infer_statement(type_db@, decls_in_scope@, statement@, on_function@)
                == Ok::<HIRView, InferenceErrorView>(inferred@),
            Err(e) => infer_statement(type_db@, decls_in_scope@, statement@, on_function@) == Err::<
                HIRView,
                InferenceErrorView,
            >(e@),
        },
    decreases statement, 0nat,
{
    proof {
        reveal(infer_statement);
        reveal(infer_body);
        reveal(scope_after_statement);
        lemma_hir_model(statement);
    }
    match statement {
        HIR::If(condition, true_branch, false_branch) => {
            let condition_expr = match infer_typed_leaf(
                type_db,
                decls_in_scope,
                condition,
                on_function,
            ) {
                Ok(leaf) => leaf,
                Err(e) => {
                    return Err(e);
                },
            };
            let mut true_scope = decls_in_scope.clone();
            let true_branch_inferred = infer_types_in_body(
                type_db,
                &mut true_scope,
                true_branch,
                on_function,
            );
            let mut false_scope = decls_in_scope.clone();
            let false_branch_inferred = infer_types_in_body(
                type_db,
                &mut false_scope,
                false_branch,
                on_function,
            );
            match true_branch_inferred {
                Ok(true_body) => {
                    match false_branch_inferred {
                        Ok(false_body) => {
                            let inferred = HIR::If(condition_expr, true_body, false_body);
                            proof {
                                lemma_hir_model(&inferred);
                            }
                            Ok(inferred)
                        },
                        Err(e) => Err(e),
                    }
                },
                Err(e) => Err(e),
            }
        },
        _ => unreached(),
    }
}

/// Once a statement of a body fails, the body fails in the same way.
proof fn lemma_infer_body_fails(
    type_db: TypeDatabaseView,
    scope: Map<Seq<char>, HIRTypeDefView>,
    body: Seq<HIRView>,
    on_function: Seq<char>,
    i: nat,
    n: nat,
)
    requires
        i <= n <= body.len(),
        infer_body(type_db, scope, body, on_function, i).failure is Some,
    ensures
        infer_body(type_db, scope, body, on_function, n) == infer_body(
            type_db,
            scope,
            body,
            on_function,
            i,
        ),
    decreases n,
{
    if i < n {
        lemma_infer_body_fails(type_db, scope, body, on_function, i, (n - 1) as nat);
        lemma_infer_body(type_db, scope, body, on_function, n);
    }
}

/// Infers the types of the statements of a body, one after the other.
/// `decls_in_scope` holds the names in scope before the body and, in the
/// end, those that the body declares too. Inference stops at the first
/// statement that fails.
pub fn infer_types_in_body(
    type_db: &TypeDatabase,
    decls_in_scope: &mut NameRegistry,
    body: &Vec<HIR>,
    on_function: &str,
) -> (result: Result<Vec<HIR>, TypeInferenceError>)
    requires
        type_db@.wf(),
        old(decls_in_scope).wf(),
    ensures
        final(decls_in_scope).wf(),
        final(decls_in_scope)@ == infer_body(
            type_db@,
            old(decls_in_scope)@,
            hir_views(body@),
            on_function@,
            body@.len(),
        ).scope,
        match result {
            Ok(new_mir) => infer_body(
                type_db@,
                old(decls_in_scope)@,
                hir_views(body@),
                on_function@,
                body@.len(),
            ).failure is None && hir_views(new_mir@) == infer_body(
                type_db@,
                old(decls_in_scope)@,
                hir_views(body@),
                on_function@,
                body@.len(),
            ).statements,
            Err(e) => infer_body(
                type_db@,
                old(decls_in_scope)@,
                hir_views(body@),
                on_function@,
                body@.len(),
            ).failure == Some(e@),
        },
    decreases body, 1nat,
{
    let ghost views = hir_views(body@);
    let ghost start = decls_in_scope@;
    let mut new_mir: Vec<HIR> = Vec::new();
    let mut i: usize = 0;
    assert(hir_views(new_mir@) =~= Seq::<HIRView>::empty());
    proof {
        lemma_infer_body(type_db@, start, views, on_function@, 0);
    }
    while i < body.len()
        invariant
            0 <= i <= body.len(),
            type_db@.wf(),
            decls_in_scope.wf(),
            views == hir_views(body@),
            start == old(decls_in_scope)@,
            infer_body(type_db@, start, views, on_function@, i as nat) == (InferredBody {
                statements: hir_views(new_mir@),
                scope: decls_in_scope@,
                failure: None,
            }),
        decreases body.len() - i,
    {
        let ghost before = hir_views(new_mir@);
        let ghost scope_before = decls_in_scope@;
        assert(views[i as int] == body@[i as int]@);
        proof {
            lemma_infer_body(type_db@, start, views, on_function@, (i + 1) as nat);
            lemma_scope_after_statement(type_db@, scope_before, views[i as int], on_function@);
        }
        let node = &body[i];
        let inferred = match node {
            HIR::Declare { .. } => infer_declare(type_db, decls_in_scope, node, on_function),
            HIR::If(_, _, _) => infer_if(type_db, decls_in_scope, node, on_function),
            _ => infer_plain_statement(type_db, decls_in_scope, node, on_function),
        };
        match inferred {
            Ok(mir_node) => {
                new_mir.push(mir_node);
                assert(hir_views(new_mir@) =~= before.push(mir_node@));
            },
            Err(e) => {
                proof {
                    assert(decls_in_scope@ == scope_before);
                    lemma_infer_body_fails(
                        type_db@,
                        start,
                        views,
                        on_function@,
                        (i + 1) as nat,
                        body@.len(),
                    );
                }
                return Err(e);
            },
        }
        i += 1;
    }
    Ok(new_mir)
}

/// Once a parameter fails, the parameters fail in the same way.
proof fn lemma_infer_parameters_fails(
    type_db: TypeDatabaseView,
    parameters: Seq<HIRTypedBoundNameView>,
    on_function: Seq<char>,
    i: nat,
    n: nat,
)
    requires
        i <= n <= parameters.len(),
        infer_parameters(type_db, parameters, on_function, i) is Err,
    ensures
        infer_parameters(type_db, parameters, on_function, n) == infer_parameters(
            type_db,
            parameters,
            on_function,
            i,
        ),
    decreases n,
{
    if i < n {
        lemma_infer_parameters_fails(type_db, parameters, on_function, i, (n - 1) as nat);
    }
}

/// Resolves the types of the parameters and of the result of a function.
/// A parameter, or a result, without a type is a failure.
pub fn infer_function_parameter_types_and_return(
    type_db: &TypeDatabase,
    function_name: &str,
    parameters: &Vec<HIRTypedBoundName>,
    return_type: &HIRTypeDef,
) -> (result: Result<(Vec<HIRTypedBoundName>, TypeInstance), TypeInferenceError>)
    requires
        type_db@.wf(),
    ensures
        match result {
            Ok(signature) => function_signature(
                type_db@,
                function_name@,
                hir_bound_name_views(parameters@),
                return_type@,
            ) == Ok::<(Seq<HIRTypedBoundNameView>, TypeInstanceView), InferenceErrorView>(
                (hir_bound_name_views(signature.0@), signature.1@),
            ),
            Err(e) => function_signature(
                type_db@,
                function_name@,
                hir_bound_name_views(parameters@),
                return_type@,
            ) == Err::<(Seq<HIRTypedBoundNameView>, TypeInstanceView), InferenceErrorView>(e@),
        },
{
    let ghost views = hir_bound_name_views(parameters@);
    let mut new_args: Vec<HIRTypedBoundName> = Vec::new();
    let mut i: usize = 0;
    assert(hir_bound_name_views(new_args@) =~= Seq::<HIRTypedBoundNameView>::empty());
    while i < parameters.len()
        invariant
            0 <= i <= parameters.len(),
            type_db@.wf(),
            views == hir_bound_name_views(parameters@),
            infer_parameters(type_db@, views, function_name@, i as nat) == Ok::<
                Seq<HIRTypedBoundNameView>,
                InferenceErrorView,
            >(hir_bound_name_views(new_args@)),
        decreases parameters.len() - i,
    {
        let ghost before = hir_bound_name_views(new_args@);
        let node = &parameters[i];
        assert(views[i as int] == node@);
        match hint_of(type_db, &node.typename, function_name) {
            Ok(Some(resolved)) => {
                let parameter = HIRTypedBoundName {
                    name: node.name.clone(),
                    typename: HIRTypeDef::Resolved(resolved),
                };
                new_args.push(parameter);
                assert(hir_bound_name_views(new_args@) =~= before.push(parameter@));
            },
            Ok(None) => {
                proof {
                    lemma_infer_parameters_fails(
                        type_db@,
                        views,
                        function_name@,
                        (i + 1) as nat,
                        parameters@.len(),
                    );
                }
                return Err(
                    TypeInferenceError::Internal(InternalError::PendingType(node.name.clone())),
                );
            },
            Err(e) => {
                proof {
                    lemma_infer_parameters_fails(
                        type_db@,
                        views,
                        function_name@,
                        (i + 1) as nat,
                        parameters@.len(),
                    );
                }
                return Err(e);
            },
        }
        i += 1;
    }
    match hint_of(type_db, return_type, function_name) {
        Ok(Some(instance)) => Ok((new_args, instance)),
        Ok(None) => Err(
            TypeInferenceError::Internal(InternalError::PendingType(function_name.to_owned())),
        ),
        Err(e) => Err(e),
    }
}

/// The types of parameters whose types are resolved.
fn resolved_parameter_types(parameters: &Vec<HIRTypedBoundName>) -> (types: Vec<TypeInstance>)
    requires
        forall|i: int|
            0 <= i < parameters@.len() ==> (#[trigger] parameters@[i]).typename@ is Resolved,
    ensures
        type_instance_views(types@) == parameter_types(hir_bound_name_views(parameters@)),
{
    let mut types: Vec<TypeInstance> = Vec::new();
    let mut i: usize = 0;
    while i < parameters.len()
        invariant
            0 <= i <= parameters.len(),
            types@.len() == i,
            forall|k: int|
                0 <= k < parameters@.len() ==> (#[trigger] parameters@[k]).typename@ is Resolved,
            forall|k: int|
                0 <= k < i ==> (#[trigger] types@[k])@ == parameters@[k].typename@->Resolved_0,
        decreases parameters.len() - i,
    {
        match &parameters[i].typename {
            HIRTypeDef::Resolved(r) => {
                types.push(r.clone());
            },
            _ => {
                assert(parameters@[i as int].typename@ is Resolved);
                unreached::<()>();
            },
        }
        i += 1;
    }
    assert(type_instance_views(types@) =~= parameter_types(hir_bound_name_views(parameters@)));
    types
}

/// Parameters that were inferred have resolved types.
proof fn lemma_infer_parameters_resolved(
    type_db: TypeDatabaseView,
    parameters: Seq<HIRTypedBoundNameView>,
    on_function: Seq<char>,
    n: nat,
)
    requires
        n <= parameters.len(),
        infer_parameters(type_db, parameters, on_function, n) is Ok,
    ensures
        infer_parameters(type_db, parameters, on_function, n)->Ok_0.len() == n,
        forall|i: int|
            0 <= i < n ==> (#[trigger] infer_parameters(
                type_db,
                parameters,
                on_function,
                n,
            )->Ok_0[i]).typename is Resolved,
    decreases n,
{
    if n > 0 {
        lemma_infer_parameters_resolved(type_db, parameters, on_function, (n - 1) as nat);
    }
}

/// Infers the types in the body of a function, in the scope of its
/// parameters and, behind them, of the global names.
pub fn infer_variable_types_in_functions(
    type_db: &TypeDatabase,
    globals: &NameRegistry,
    function_name: &str,
    parameters: &Vec<HIRTypedBoundName>,
    body: &Vec<HIR>,
) -> (result: Result<Vec<HIR>, TypeInferenceError>)
    requires
        type_db@.wf(),
        globals.wf(),
    ensures
        match result {
            Ok(new_body) => infer_body(
                type_db@,
                function_scope(
                    globals@,
                    hir_bound_name_views(parameters@),
                    parameters@.len(),
                ),
                hir_views(body@),
                function_name@,
                body@.len(),
            ).failure is None && hir_views(new_body@) == infer_body(
                type_db@,
                function_scope(
                    globals@,
                    hir_bound_name_views(parameters@),
                    parameters@.len(),
                ),
                hir_views(body@),
                function_name@,
                body@.len(),
            ).statements,
            Err(e) => infer_body(
                type_db@,
                function_scope(
                    globals@,
                    hir_bound_name_views(parameters@),
                    parameters@.len(),
                ),
                hir_views(body@),
                function_name@,
                body@.len(),
            ).failure == Some(e@),
        },
{
    let ghost views = hir_bound_name_views(parameters@);
    let mut decls_in_scope = globals.clone();
    let mut i: usize = 0;
    while i < parameters.len()
        invariant
            0 <= i <= parameters.len(),
            decls_in_scope.wf(),
            views == hir_bound_name_views(parameters@),
            decls_in_scope@ == function_scope(globals@, views, i as nat),
        decreases parameters.len() - i,
    {
        let p = &parameters[i];
        assert(views[i as int] == p@);
        decls_in_scope.insert(p.name.clone(), p.typename.clone());
        i += 1;
    }
    infer_types_in_body(type_db, &mut decls_in_scope, body, function_name)
}

/// Infers one function: its signature is resolved and published in the
/// global names, then its body is inferred.
fn infer_function(
    globals: &mut NameRegistry,
    type_db: &TypeDatabase,
    node: &HIR,
    before: Ghost<InferredProgram>,
) -> (result: Result<HIR, TypeInferenceError>)
    requires
        type_db@.wf(),
        old(globals).wf(),
        node@ is DeclareFunction,
        before@.globals == old(globals)@,
        before@.failure is None,
    ensures
        final(globals).wf(),
        final(globals)@ == infer_top_level(type_db@, before@, node@).globals,
        match result {
            Ok(inferred) => infer_top_level(type_db@, before@, node@) == (InferredProgram {
                statements: before@.statements.push(inferred@),
                globals: final(globals)@,
                failure: None,
            }),
            Err(e) => infer_top_level(type_db@, before@, node@).failure == Some(e@)
                && infer_top_level(type_db@, before@, node@).statements == before@.statements,
        },
{
    proof {
        lemma_hir_model(node);
    }
    match node {
        HIR::DeclareFunction { function_name, parameters, body, return_type } => {
            let (parameters_resolved, return_type_resolved) =
                match infer_function_parameter_types_and_return(
                type_db,
                function_name.as_str(),
                parameters,
                return_type,
            ) {
                Ok(signature) => signature,
                Err(e) => {
                    return Err(e);
                },
            };
            proof {
                lemma_infer_parameters_resolved(
                    type_db@,
                    hir_bound_name_views(parameters@),
                    function_name@,
                    parameters@.len(),
                );
                assert forall|i: int| 0 <= i < parameters_resolved@.len() implies (
                #[trigger] parameters_resolved@[i]).typename@ is Resolved by {
                    assert(hir_bound_name_views(parameters_resolved@)[i]
                        == parameters_resolved@[i]@);
                }
            }
            let parameter_types = resolved_parameter_types(&parameters_resolved);
            let signature = TypeInstance::Function(
                parameter_types,
                Box::new(return_type_resolved.clone()),
            );
            proof {
                lemma_type_instance_model(&signature);
            }
            globals.insert(function_name.clone(), HIRTypeDef::Resolved(signature));
            let new_body = match infer_variable_types_in_functions(
                type_db,
                globals,
                function_name.as_str(),
                &parameters_resolved,
                body,
            ) {
                Ok(new_body) => new_body,
                Err(e) => {
                    return Err(e);
                },
            };
            let inferred = HIR::DeclareFunction {
                function_name: function_name.clone(),
                parameters: parameters_resolved,
                body: new_body,
                return_type: HIRTypeDef::Resolved(return_type_resolved),
            };
            proof {
                lemma_hir_model(&inferred);
            }
            Ok(inferred)
        },
        _ => unreached(),
    }
}

/// Infers the types of a program. For every function the signature is
/// resolved and published in `globals`, so that the function can be
/// called from its own body and from the functions after it; then its
/// body is inferred. Inference stops at the first failure.
pub fn infer_types(globals: &mut NameRegistry, type_db: &TypeDatabase, mir: Vec<HIR>) -> (result:
    Result<Vec<HIR>, TypeInferenceError>)
    requires
        type_db@.wf(),
        old(globals).wf(),
    ensures
        final(globals).wf(),
        final(globals)@ == infer_program(
            type_db@,
            old(globals)@,
            hir_views(mir@),
            mir@.len(),
        ).globals,
        match result {
            Ok(new_mir) => infer_program(
                type_db@,
                old(globals)@,
                hir_views(mir@),
                mir@.len(),
            ).failure is None && hir_views(new_mir@) == infer_program(
                type_db@,
                old(globals)@,
                hir_views(mir@),
                mir@.len(),
            ).statements,
            Err(e) => infer_program(
                type_db@,
                old(globals)@,
                hir_views(mir@),
                mir@.len(),
            ).failure == Some(e@),
        },
{
    let ghost views = hir_views(mir@);
    let ghost start = globals@;
    let mut new_mir: Vec<HIR> = Vec::new();
    let mut i: usize = 0;
    assert(hir_views(new_mir@) =~= Seq::<HIRView>::empty());
    proof {
        lemma_infer_program(type_db@, start, views, 0);
    }
    while i < mir.len()
        invariant
            0 <= i <= mir.len(),
            type_db@.wf(),
            globals.wf(),
            views == hir_views(mir@),
            start == old(globals)@,
            infer_program(type_db@, start, views, i as nat) == (InferredProgram {
                statements: hir_views(new_mir@),
                globals: globals@,
                failure: None,
            }),
        decreases mir.len() - i,
    {
        let ghost before = infer_program(type_db@, start, views, i as nat);
        let node = &mir[i];
        assert(views[i as int] == node@);
        proof {
            lemma_infer_program(type_db@, start, views, (i + 1) as nat);
        }
        match node {
            HIR::DeclareFunction { .. } => {
                match infer_function(globals, type_db, node, Ghost(before)) {
                    Ok(inferred) => {
                        new_mir.push(inferred);
                        assert(hir_views(new_mir@) =~= before.statements.push(inferred@));
                    },
                    Err(e) => {
                        proof {
                            lemma_infer_program_fails(
                                type_db@,
                                start,
                                views,
                                (i + 1) as nat,
                                mir@.len(),
                            );
                        }
                        return Err(e);
                    },
                }
            },
            other => {
                let copy = other.clone();
                new_mir.push(copy);
                assert(hir_views(new_mir@) =~= before.statements.push(copy@));
            },
        }
        i += 1;
    }
    Ok(new_mir)
}

impl TypeErrors {
    /// Files a failure of inference under its kind. An internal error has
    /// no kind: it is handed back and the errors stay as they were.
    pub fn record(&mut self, error: TypeInferenceError) -> (internal: Option<InternalError>)
        ensures
            match error {
                TypeInferenceError::TypeNotFound(e) => internal is None && *final(self) == (
                TypeErrors { type_not_found: final(self).type_not_found, ..*old(self) })
                    && final(self).type_not_found@ == old(self).type_not_found@.push(e),
                TypeInferenceError::UnexpectedTypeFound(e) => internal is None && *final(self) == (
                TypeErrors { unexpected_types: final(self).unexpected_types, ..*old(self) })
                    && final(self).unexpected_types@ == old(self).unexpected_types@.push(e),
                TypeInferenceError::CallToNonCallableType(e) => internal is None && *final(self)
                    == (TypeErrors { call_non_callable: final(self).call_non_callable, ..*old(self) })
                    && final(self).call_non_callable@ == old(self).call_non_callable@.push(e),
                TypeInferenceError::BinaryOperatorNotFound(e) => internal is None && *final(self)
                    == (TypeErrors {
                    binary_op_not_found: final(self).binary_op_not_found,
                    ..*old(self)
                }) && final(self).binary_op_not_found@ == old(self).binary_op_not_found@.push(e),
                TypeInferenceError::UnaryOperatorNotFound(e) => internal is None && *final(self)
                    == (TypeErrors {
                    unary_op_not_found: final(self).unary_op_not_found,
                    ..*old(self)
                }) && final(self).unary_op_not_found@ == old(self).unary_op_not_found@.push(e),
                TypeInferenceError::FieldOrMethodNotFound(e) => internal is None && *final(self)
                    == (TypeErrors {
                    field_or_method_not_found: final(self).field_or_method_not_found,
                    ..*old(self)
                }) && final(self).field_or_method_not_found@ == old(
                    self,
                ).field_or_method_not_found@.push(e),
                TypeInferenceError::InsufficientTypeInformationForArray(e) => internal is None
                    && *final(self) == (TypeErrors {
                    insufficient_array_type_info: final(self).insufficient_array_type_info,
                    ..*old(self)
                }) && final(self).insufficient_array_type_info@ == old(
                    self,
                ).insufficient_array_type_info@.push(e),
                TypeInferenceError::Internal(e) => internal == Some(e) && *final(self) == *old(
                    self,
                ),
            },
    {
        match error {
            TypeInferenceError::TypeNotFound(e) => {
                self.type_not_found.push(e);
                None
            },
            TypeInferenceError::UnexpectedTypeFound(e) => {
                self.unexpected_types.push(e);
                None
            },
            TypeInferenceError::CallToNonCallableType(e) => {
                self.call_non_callable.push(e);
                None
            },
            TypeInferenceError::BinaryOperatorNotFound(e) => {
                self.binary_op_not_found.push(e);
                None
            },
            TypeInferenceError::UnaryOperatorNotFound(e) => {
                self.unary_op_not_found.push(e);
                None
            },
            TypeInferenceError::FieldOrMethodNotFound(e) => {
                self.field_or_method_not_found.push(e);
                None
            },
            TypeInferenceError::InsufficientTypeInformationForArray(e) => {
                self.insufficient_array_type_info.push(e);
                None
            },
            TypeInferenceError::Internal(e) => Some(e),
        }
    }
}

} // verus!
