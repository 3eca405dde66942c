//! The rules of type inference, stated over the models of the
//! intermediate representation, of the type database and of the registry
//! of names.
use vstd::prelude::*;
use either::Either;
use crate::ast::Operator;
use crate::semantic::hir::{
    HIRExprView, HIRTypeDefView, HIRTypeView, HIRTypedBoundNameView, HIRView, TrivialHIRExprView,
    TypeId, TypeInstanceView, TypedTrivialHIRExprView,
};
use crate::semantic::search::first;
use crate::semantic::type_db::{
    BinaryOperationView, FunctionSignatureView, TypeDatabaseView, TypeFieldView, TypeView,
    UnaryOperationView,
};

verus! {

/// A condition that the passes before inference rule out, or a construct
/// that inference does not handle.
pub enum InternalErrorView {
    /// A name that is not in scope.
    NameNotFound(Seq<char>),
    /// A name whose type has not been inferred yet.
    PendingType(Seq<char>),
    /// A cast.
    CastNotSupported,
    /// A method with type arguments of its own.
    MethodTypeArguments(Seq<char>),
    /// A generic parameter without a type that stands for it.
    GenericParameterNotBound(Seq<char>),
    /// A type that the database does not hold.
    UnknownType(TypeId),
}

/// Why inference failed.
pub enum InferenceErrorView {
    TypeNotFound { on_function: Seq<char>, missing_type: HIRTypeView },
    UnexpectedTypeFound { on_function: Seq<char>, type_def: TypeInstanceView },
    CallToNonCallableType { on_function: Seq<char>, actual_type: TypeInstanceView },
    BinaryOperatorNotFound {
        on_function: Seq<char>,
        lhs: TypeInstanceView,
        rhs: TypeInstanceView,
        operator: Operator,
    },
    UnaryOperatorNotFound { on_function: Seq<char>, rhs: TypeInstanceView, operator: Operator },
    FieldOrMethodNotFound {
        on_function: Seq<char>,
        object_type: TypeInstanceView,
        field_or_method: Seq<char>,
    },
    InsufficientTypeInformationForArray { on_function: Seq<char> },
    Internal(InternalErrorView),
}

/// The generic parameter is called `name`.
pub open spec fn parameter_named(name: Seq<char>) -> spec_fn(Seq<char>) -> bool {
    |p: Seq<char>| p == name
}

/// The method is called `name`.
pub open spec fn method_named(name: Seq<char>) -> spec_fn(FunctionSignatureView) -> bool {
    |m: FunctionSignatureView| m.name == name
}

/// The field is called `name`.
pub open spec fn field_named(name: Seq<char>) -> spec_fn(TypeFieldView) -> bool {
    |f: TypeFieldView| f.name == name
}

/// The operation has this operator.
pub open spec fn unary_with(operator: Operator) -> spec_fn(UnaryOperationView) -> bool {
    |o: UnaryOperationView| o.operator == operator
}

/// The operation has this operator and takes a right operand of this
/// type.
pub open spec fn binary_with(operator: Operator, rhs_type: TypeInstanceView) -> spec_fn(
    BinaryOperationView,
) -> bool {
    |o: BinaryOperationView| o.operator == operator && o.rhs_type == rhs_type
}

/// The names in scope with their type slots.
pub type Scope = Map<Seq<char>, HIRTypeDefView>;

/// The resolved type that a written type stands for. The name of a simple
/// type must be that of a type without generic parameters; the name of a
/// generic type must be that of a type.
pub open spec fn instantiate(
    type_db: TypeDatabaseView,
    written: HIRTypeView,
    on_function: Seq<char>,
) -> Result<TypeInstanceView, InferenceErrorView>
    decreases written, 0nat,
{
    match written {
        HIRTypeView::Simple(name) => if type_db.has_name(name) && type_db.types[type_db.id_of(
            name,
        ) as int].type_args.len() == 0 {
            Ok(TypeInstanceView::Simple(type_db.id_of(name)))
        } else {
            Err(InferenceErrorView::TypeNotFound { on_function, missing_type: written })
        },
        HIRTypeView::Generic(name, args) => if type_db.has_name(name) {
            match instantiate_all(type_db, args, on_function, args.len()) {
                Ok(instances) => Ok(TypeInstanceView::Generic(type_db.id_of(name), instances)),
                Err(e) => Err(e),
            }
        } else {
            Err(InferenceErrorView::TypeNotFound { on_function, missing_type: written })
        },
        HIRTypeView::Function(args, return_type) => match instantiate_all(
            type_db,
            args,
            on_function,
            args.len(),
        ) {
            Ok(instances) => match instantiate(type_db, *return_type, on_function) {
                Ok(result) => Ok(TypeInstanceView::Function(instances, Box::new(result))),
                Err(e) => Err(e),
            },
            Err(e) => Err(e),
        },
    }
}

/// The resolved types of the first `n` of `written`; the first failure if
/// one of them fails.
pub open spec fn instantiate_all(
    type_db: TypeDatabaseView,
    written: Seq<HIRTypeView>,
    on_function: Seq<char>,
    n: nat,
) -> Result<Seq<TypeInstanceView>, InferenceErrorView>
    decreases written, n,
{
    if n == 0 || n > written.len() {
        Ok(Seq::empty())
    } else {
        match instantiate_all(type_db, written, on_function, (n - 1) as nat) {
            Ok(before) => match instantiate(type_db, written[n - 1], on_function) {
                Ok(last) => Ok(before.push(last)),
                Err(e) => Err(e),
            },
            Err(e) => Err(e),
        }
    }
}

/// The type that a generic parameter stands for: the actual argument at
/// the place that the parameter has among the parameters of the type
/// `object`.
pub open spec fn bound_parameter(
    type_db: TypeDatabaseView,
    parameter: Seq<char>,
    object: Option<TypeId>,
    generics: Seq<TypeInstanceView>,
) -> Result<TypeInstanceView, InferenceErrorView> {
    let unbound = Err(
        InferenceErrorView::Internal(InternalErrorView::GenericParameterNotBound(parameter)),
    );
    match object {
        Some(id) => if type_db.has(id) {
            match first(type_db.types[id as int].type_args, parameter_named(parameter)) {
                Some(place) => if place < generics.len() {
                    Ok(generics[place])
                } else {
                    unbound
                },
                None => unbound,
            }
        } else {
            unbound
        },
        None => unbound,
    }
}

/// The resolved type of a type of a signature, where `generics` are the
/// actual arguments of the type `object` that declares the signature.
pub open spec fn resolve(
    type_db: TypeDatabaseView,
    partial: TypeView,
    object: Option<TypeId>,
    generics: Seq<TypeInstanceView>,
) -> Result<TypeInstanceView, InferenceErrorView>
    decreases partial, 0nat,
{
    match partial {
        TypeView::Simple(Either::Right(id)) => Ok(TypeInstanceView::Simple(id)),
        TypeView::Simple(Either::Left(parameter)) => bound_parameter(
            type_db,
            parameter,
            object,
            generics,
        ),
        TypeView::Generic(id, args) => match resolve_all(
            type_db,
            args,
            Some(id),
            generics,
            args.len(),
        ) {
            Ok(instances) => Ok(TypeInstanceView::Generic(id, instances)),
            Err(e) => Err(e),
        },
        TypeView::Function(args, return_type) => match resolve_all(
            type_db,
            args,
            object,
            generics,
            args.len(),
        ) {
            Ok(instances) => match resolve(type_db, *return_type, object, generics) {
                Ok(result) => Ok(TypeInstanceView::Function(instances, Box::new(result))),
                Err(e) => Err(e),
            },
            Err(e) => Err(e),
        },
    }
}

/// The resolved types of the first `n` of `partial`; the first failure if
/// one of them fails.
pub open spec fn resolve_all(
    type_db: TypeDatabaseView,
    partial: Seq<TypeView>,
    object: Option<TypeId>,
    generics: Seq<TypeInstanceView>,
    n: nat,
) -> Result<Seq<TypeInstanceView>, InferenceErrorView>
    decreases partial, n,
{
    if n == 0 || n > partial.len() {
        Ok(Seq::empty())
    } else {
        match resolve_all(type_db, partial, object, generics, (n - 1) as nat) {
            Ok(before) => match resolve(type_db, partial[n - 1], object, generics) {
                Ok(last) => Ok(before.push(last)),
                Err(e) => Err(e),
            },
            Err(e) => Err(e),
        }
    }
}

/// The type called `name`, as the type of a literal or of an array.
pub open spec fn named_type(
    type_db: TypeDatabaseView,
    name: Seq<char>,
    on_function: Seq<char>,
) -> Result<
    TypeId,
    InferenceErrorView,
> {
    if type_db.has_name(name) {
        Ok(type_db.id_of(name))
    } else {
        Err(
            InferenceErrorView::TypeNotFound {
                on_function,
                missing_type: HIRTypeView::Simple(name),
            },
        )
    }
}

/// The name of the type of a literal.
pub open spec fn literal_type_name(leaf: TrivialHIRExprView) -> Seq<char> {
    match leaf {
        TrivialHIRExprView::IntegerValue(_) => "i32"@,
        TrivialHIRExprView::FloatValue(_) => "f32"@,
        TrivialHIRExprView::StringValue(_) => "str"@,
        TrivialHIRExprView::BooleanValue(_) => "bool"@,
        _ => "None"@,
    }
}

/// The type of a leaf: that of its kind for a literal, that of its slot in
/// the scope for a variable.
pub open spec fn leaf_type(
    type_db: TypeDatabaseView,
    scope: Scope,
    leaf: TrivialHIRExprView,
    on_function: Seq<char>,
) -> Result<TypeInstanceView, InferenceErrorView> {
    match leaf {
        TrivialHIRExprView::Variable(name) => if scope.contains_key(name) {
            match scope[name] {
                HIRTypeDefView::Pending => Err(
                    InferenceErrorView::Internal(InternalErrorView::PendingType(name)),
                ),
                HIRTypeDefView::Unresolved(written) => instantiate(type_db, written, on_function),
                HIRTypeDefView::Resolved(resolved) => Ok(resolved),
            }
        } else {
            Err(InferenceErrorView::Internal(InternalErrorView::NameNotFound(name)))
        },
        _ => match named_type(type_db, literal_type_name(leaf), on_function) {
            Ok(id) => Ok(TypeInstanceView::Simple(id)),
            Err(e) => Err(e),
        },
    }
}

/// A leaf with its type in its slot.
pub open spec fn typed(leaf: TrivialHIRExprView, t: TypeInstanceView) -> TypedTrivialHIRExprView {
    TypedTrivialHIRExprView(leaf, HIRTypeDefView::Resolved(t))
}

/// The type in the slot of a leaf after inference.
pub open spec fn slot_type(leaf: TypedTrivialHIRExprView) -> TypeInstanceView {
    match leaf.1 {
        HIRTypeDefView::Resolved(t) => t,
        _ => arbitrary(),
    }
}

/// A leaf after inference.
pub open spec fn infer_leaf(
    type_db: TypeDatabaseView,
    scope: Scope,
    leaf: TypedTrivialHIRExprView,
    on_function: Seq<char>,
) -> Result<TypedTrivialHIRExprView, InferenceErrorView> {
    match leaf_type(type_db, scope, leaf.0, on_function) {
        Ok(t) => Ok(typed(leaf.0, t)),
        Err(e) => Err(e),
    }
}

/// The first `n` of `leaves` after inference; the first failure if one of
/// them fails.
pub open spec fn infer_leaves(
    type_db: TypeDatabaseView,
    scope: Scope,
    leaves: Seq<TypedTrivialHIRExprView>,
    on_function: Seq<char>,
    n: nat,
) -> Result<Seq<TypedTrivialHIRExprView>, InferenceErrorView>
    decreases n,
{
    if n == 0 || n > leaves.len() {
        Ok(Seq::empty())
    } else {
        match infer_leaves(type_db, scope, leaves, on_function, (n - 1) as nat) {
            Ok(before) => match infer_leaf(type_db, scope, leaves[n - 1], on_function) {
                Ok(last) => Ok(before.push(last)),
                Err(e) => Err(e),
            },
            Err(e) => Err(e),
        }
    }
}

/// The identity of the type whose operators and members a value of the
/// type `t` has; a function has none.
pub open spec fn base_type(t: TypeInstanceView) -> Option<TypeId> {
    match t {
        TypeInstanceView::Simple(id) => Some(id),
        TypeInstanceView::Generic(id, _) => Some(id),
        TypeInstanceView::Function(_, _) => None,
    }
}

/// The actual generic arguments of a type.
pub open spec fn generic_arguments(t: TypeInstanceView) -> Seq<TypeInstanceView> {
    match t {
        TypeInstanceView::Generic(_, args) => args,
        _ => Seq::empty(),
    }
}

/// An expression with its type.
pub struct Inferred {
    pub expression: HIRExprView,
    pub expression_type: TypeInstanceView,
}

/// A binary operation: both operands are inferred, then the operators of
/// the type of the left operand are searched for the first one with this
/// operator and the type of the right operand.
pub open spec fn infer_binary_operation(
    type_db: TypeDatabaseView,
    scope: Scope,
    lhs: TypedTrivialHIRExprView,
    operator: Operator,
    rhs: TypedTrivialHIRExprView,
    on_function: Seq<char>,
) -> Result<Inferred, InferenceErrorView> {
    match leaf_type(type_db, scope, lhs.0, on_function) {
        Err(e) => Err(e),
        Ok(lhs_type) => match leaf_type(type_db, scope, rhs.0, on_function) {
            Err(e) => Err(e),
            Ok(rhs_type) => match base_type(lhs_type) {
                None => Err(
                    InferenceErrorView::UnexpectedTypeFound { on_function, type_def: lhs_type },
                ),
                Some(id) => if rhs_type is Function {
                    Err(InferenceErrorView::UnexpectedTypeFound { on_function, type_def: rhs_type })
                } else if !type_db.has(id) {
                    Err(InferenceErrorView::Internal(InternalErrorView::UnknownType(id)))
                } else {
                    let operations = type_db.types[id as int].binary_ops;
                    match first(operations, binary_with(operator, rhs_type)) {
                        Some(i) => Ok(
                            Inferred {
                                expression: HIRExprView::BinaryOperation(
                                    typed(lhs.0, lhs_type),
                                    operator,
                                    typed(rhs.0, rhs_type),
                                    HIRTypeDefView::Resolved(operations[i].result_type),
                                ),
                                expression_type: operations[i].result_type,
                            },
                        ),
                        None => Err(
                            InferenceErrorView::BinaryOperatorNotFound {
                                on_function,
                                lhs: lhs_type,
                                rhs: rhs_type,
                                operator,
                            },
                        ),
                    }
                },
            },
        },
    }
}

/// A unary operation: the operand is inferred, then the operators of its
/// type are searched for the first one with this operator.
pub open spec fn infer_unary_expression(
    type_db: TypeDatabaseView,
    scope: Scope,
    operator: Operator,
    operand: TypedTrivialHIRExprView,
    on_function: Seq<char>,
) -> Result<Inferred, InferenceErrorView> {
    match leaf_type(type_db, scope, operand.0, on_function) {
        Err(e) => Err(e),
        Ok(operand_type) => match base_type(operand_type) {
            None => Err(
                InferenceErrorView::UnexpectedTypeFound { on_function, type_def: operand_type },
            ),
            Some(id) => if !type_db.has(id) {
                Err(InferenceErrorView::Internal(InternalErrorView::UnknownType(id)))
            } else {
                let operations = type_db.types[id as int].unary_ops;
                match first(operations, unary_with(operator)) {
                    Some(i) => Ok(
                        Inferred {
                            expression: HIRExprView::UnaryExpression(
                                operator,
                                typed(operand.0, operand_type),
                                HIRTypeDefView::Resolved(operations[i].result_type),
                            ),
                            expression_type: operations[i].result_type,
                        },
                    ),
                    None => Err(
                        InferenceErrorView::UnaryOperatorNotFound {
                            on_function,
                            rhs: operand_type,
                            operator,
                        },
                    ),
                }
            },
        },
    }
}

/// A call: the callee must have the type of a function; the arguments
/// are inferred, the result has the return type of the function.
pub open spec fn infer_function_call(
    type_db: TypeDatabaseView,
    scope: Scope,
    function: TypedTrivialHIRExprView,
    args: Seq<TypedTrivialHIRExprView>,
    on_function: Seq<char>,
) -> Result<Inferred, InferenceErrorView> {
    match leaf_type(type_db, scope, function.0, on_function) {
        Err(e) => Err(e),
        Ok(function_type) => match function_type {
            TypeInstanceView::Function(_, return_type) => match infer_leaves(
                type_db,
                scope,
                args,
                on_function,
                args.len(),
            ) {
                Err(e) => Err(e),
                Ok(typed_args) => Ok(
                    Inferred {
                        expression: HIRExprView::FunctionCall(
                            typed(function.0, function_type),
                            typed_args,
                            HIRTypeDefView::Resolved(*return_type),
                        ),
                        expression_type: *return_type,
                    },
                ),
            },
            _ => Err(
                InferenceErrorView::CallToNonCallableType {
                    on_function,
                    actual_type: function_type,
                },
            ),
        },
    }
}

/// The type of the member `member` of the type `id` with the actual
/// generic arguments `generics`: that of the first method of this name,
/// else that of the first field of this name.
pub open spec fn member_type(
    type_db: TypeDatabaseView,
    object_type: TypeInstanceView,
    id: TypeId,
    member: Seq<char>,
    on_function: Seq<char>,
) -> Result<TypeInstanceView, InferenceErrorView> {
    let record = type_db.types[id as int];
    let generics = generic_arguments(object_type);
    match first(record.methods, method_named(member)) {
        Some(i) => if record.methods[i].type_args.len() != 0 {
            Err(InferenceErrorView::Internal(InternalErrorView::MethodTypeArguments(member)))
        } else {
            match resolve_all(
                type_db,
                record.methods[i].args,
                Some(id),
                generics,
                record.methods[i].args.len(),
            ) {
                Err(e) => Err(e),
                Ok(args) => match resolve(
                    type_db,
                    record.methods[i].return_type,
                    Some(id),
                    generics,
                ) {
                    Err(e) => Err(e),
                    Ok(return_type) => Ok(TypeInstanceView::Function(args, Box::new(return_type))),
                },
            }
        },
        None => match first(record.fields, field_named(member)) {
            Some(i) => resolve(type_db, record.fields[i].field_type, Some(id), generics),
            None => Err(
                InferenceErrorView::FieldOrMethodNotFound {
                    on_function,
                    object_type,
                    field_or_method: member,
                },
            ),
        },
    }
}

/// A member access: the object is inferred, then the member is looked up
/// in the record of its type.
pub open spec fn infer_member_access(
    type_db: TypeDatabaseView,
    scope: Scope,
    object: TypedTrivialHIRExprView,
    member: Seq<char>,
    on_function: Seq<char>,
) -> Result<Inferred, InferenceErrorView> {
    match leaf_type(type_db, scope, object.0, on_function) {
        Err(e) => Err(e),
        Ok(object_type) => match base_type(object_type) {
            None => Err(
                InferenceErrorView::UnexpectedTypeFound { on_function, type_def: object_type },
            ),
            Some(id) => if !type_db.has(id) {
                Err(InferenceErrorView::Internal(InternalErrorView::UnknownType(id)))
            } else {
                match member_type(type_db, object_type, id, member, on_function) {
                    Err(e) => Err(e),
                    Ok(t) => Ok(
                        Inferred {
                            expression: HIRExprView::MemberAccess(
                                typed(object.0, object_type),
                                member,
                                HIRTypeDefView::Resolved(t),
                            ),
                            expression_type: t,
                        },
                    ),
                }
            },
        },
    }
}

/// An array literal: an array of the type of its first item, or of the
/// hinted type if it has no items.
pub open spec fn infer_array(
    type_db: TypeDatabaseView,
    scope: Scope,
    items: Seq<TypedTrivialHIRExprView>,
    type_hint: Option<TypeInstanceView>,
    on_function: Seq<char>,
) -> Result<Inferred, InferenceErrorView> {
    if items.len() == 0 && type_hint is None {
        Err(InferenceErrorView::InsufficientTypeInformationForArray { on_function })
    } else {
        match named_type(type_db, "array"@, on_function) {
            Err(e) => Err(e),
            Ok(array) => if items.len() > 0 {
                match infer_leaves(type_db, scope, items, on_function, items.len()) {
                    Err(e) => Err(e),
                    Ok(typed_items) => {
                        let t = TypeInstanceView::Generic(array, seq![slot_type(typed_items[0])]);
                        Ok(
                            Inferred {
                                expression: HIRExprView::Array(
                                    typed_items,
                                    HIRTypeDefView::Resolved(t),
                                ),
                                expression_type: t,
                            },
                        )
                    },
                }
            } else {
                let t = TypeInstanceView::Generic(array, seq![type_hint->0]);
                Ok(
                    Inferred {
                        expression: HIRExprView::Array(Seq::empty(), HIRTypeDefView::Resolved(t)),
                        expression_type: t,
                    },
                )
            },
        }
    }
}

/// An expression after inference, with its type: every type slot of the
/// expression is resolved.
pub open spec fn infer_expr(
    type_db: TypeDatabaseView,
    scope: Scope,
    expression: HIRExprView,
    type_hint: Option<TypeInstanceView>,
    on_function: Seq<char>,
) -> Result<Inferred, InferenceErrorView> {
    match expression {
        HIRExprView::Trivial(leaf) => match leaf_type(type_db, scope, leaf.0, on_function) {
            Ok(t) => Ok(
                Inferred { expression: HIRExprView::Trivial(typed(leaf.0, t)), expression_type: t },
            ),
            Err(e) => Err(e),
        },
        HIRExprView::Cast(_, _) => Err(
            InferenceErrorView::Internal(InternalErrorView::CastNotSupported),
        ),
        HIRExprView::BinaryOperation(lhs, operator, rhs, _) => infer_binary_operation(
            type_db,
            scope,
            lhs,
            operator,
            rhs,
            on_function,
        ),
        HIRExprView::FunctionCall(function, args, _) => infer_function_call(
            type_db,
            scope,
            function,
            args,
            on_function,
        ),
        HIRExprView::UnaryExpression(operator, operand, _) => infer_unary_expression(
            type_db,
            scope,
            operator,
            operand,
            on_function,
        ),
        HIRExprView::MemberAccess(object, member, _) => infer_member_access(
            type_db,
            scope,
            object,
            member,
            on_function,
        ),
        HIRExprView::Array(items, _) => infer_array(type_db, scope, items, type_hint, on_function),
    }
}

/// The type that a slot holds or stands for; none for an empty slot.
pub open spec fn slot_hint(
    type_db: TypeDatabaseView,
    slot: HIRTypeDefView,
    on_function: Seq<char>,
) -> Result<Option<TypeInstanceView>, InferenceErrorView> {
    match slot {
        HIRTypeDefView::Pending => Ok(None),
        HIRTypeDefView::Unresolved(written) => match instantiate(type_db, written, on_function) {
            Ok(t) => Ok(Some(t)),
            Err(e) => Err(e),
        },
        HIRTypeDefView::Resolved(t) => Ok(Some(t)),
    }
}

/// A body after inference, or the failure that stopped it.
pub struct InferredBody {
    pub statements: Seq<HIRView>,
    pub scope: Scope,
    pub failure: Option<InferenceErrorView>,
}

/// A statement after inference, where `scope` holds the names declared
/// before it. A declaration keeps the type that is written on it, and has
/// the type of its expression where none is written.
#[verifier::opaque]
pub open spec fn infer_statement(
    type_db: TypeDatabaseView,
    scope: Scope,
    statement: HIRView,
    on_function: Seq<char>,
) -> Result<HIRView, InferenceErrorView>
    decreases statement, 0nat,
{
    match statement {
        HIRView::Declare { var, typename, expression } => match slot_hint(
            type_db,
            typename,
            on_function,
        ) {
            Err(e) => Err(e),
            Ok(hint) => match infer_expr(type_db, scope, expression, hint, on_function) {
                Err(e) => Err(e),
                Ok(inferred) => Ok(
                    HIRView::Declare {
                        var,
                        typename: HIRTypeDefView::Resolved(
                            match hint {
                                Some(t) => t,
                                None => inferred.expression_type,
                            },
                        ),
                        expression: inferred.expression,
                    },
                ),
            },
        },
        HIRView::Assign { path, expression } => match infer_expr(
            type_db,
            scope,
            expression,
            None,
            on_function,
        ) {
            Err(e) => Err(e),
            Ok(inferred) => Ok(HIRView::Assign { path, expression: inferred.expression }),
        },
        HIRView::FunctionCall { function, args } => match infer_leaf(
            type_db,
            scope,
            function,
            on_function,
        ) {
            Err(e) => Err(e),
            Ok(typed_function) => match infer_leaves(
                type_db,
                scope,
                args,
                on_function,
                args.len(),
            ) {
                Err(e) => Err(e),
                Ok(typed_args) => Ok(
                    HIRView::FunctionCall { function: typed_function, args: typed_args },
                ),
            },
        },
        HIRView::If(condition, true_branch, false_branch) => match infer_leaf(
            type_db,
            scope,
            condition,
            on_function,
        ) {
            Err(e) => Err(e),
            Ok(typed_condition) => {
                let true_body = infer_body(
                    type_db,
                    scope,
                    true_branch,
                    on_function,
                    true_branch.len(),
                );
                let false_body = infer_body(
                    type_db,
                    scope,
                    false_branch,
                    on_function,
                    false_branch.len(),
                );
                match true_body.failure {
                    Some(e) => Err(e),
                    None => match false_body.failure {
                        Some(e) => Err(e),
                        None => Ok(
                            HIRView::If(
                                typed_condition,
                                true_body.statements,
                                false_body.statements,
                            ),
                        ),
                    },
                }
            },
        },
        HIRView::Return(expression) => match infer_expr(
            type_db,
            scope,
            expression,
            None,
            on_function,
        ) {
            Err(e) => Err(e),
            Ok(inferred) => Ok(HIRView::Return(inferred.expression)),
        },
        _ => Ok(statement),
    }
}

/// The scope after a statement that was inferred: a declaration brings
/// its variable into scope with the type of its expression.
#[verifier::opaque]
pub open spec fn scope_after_statement(
    type_db: TypeDatabaseView,
    scope: Scope,
    statement: HIRView,
    on_function: Seq<char>,
) -> Scope {
    match statement {
        HIRView::Declare { var, typename, expression } => match slot_hint(
            type_db,
            typename,
            on_function,
        ) {
            Ok(hint) => match infer_expr(type_db, scope, expression, hint, on_function) {
                Ok(inferred) => scope.insert(
                    var,
                    HIRTypeDefView::Resolved(inferred.expression_type),
                ),
                Err(_) => scope,
            },
            Err(_) => scope,
        },
        _ => scope,
    }
}

/// The first `n` statements of `body` after inference, where `scope`
/// holds the names in scope before the body. Inference stops at the first
/// statement that fails.
#[verifier::opaque]
pub open spec fn infer_body(
    type_db: TypeDatabaseView,
    scope: Scope,
    body: Seq<HIRView>,
    on_function: Seq<char>,
    n: nat,
) -> InferredBody
    decreases body, n,
{
    if n == 0 || n > body.len() {
        InferredBody { statements: Seq::empty(), scope, failure: None }
    } else {
        let before = infer_body(type_db, scope, body, on_function, (n - 1) as nat);
        if before.failure is Some {
            before
        } else {
            match infer_statement(type_db, before.scope, body[n - 1], on_function) {
                Ok(statement) => InferredBody {
                    statements: before.statements.push(statement),
                    scope: scope_after_statement(type_db, before.scope, body[n - 1], on_function),
                    failure: None,
                },
                Err(e) => InferredBody {
                    statements: before.statements,
                    scope: before.scope,
                    failure: Some(e),
                },
            }
        }
    }
}

/// Inference of no statements, and of one statement more.
pub proof fn lemma_infer_body(
    type_db: TypeDatabaseView,
    scope: Scope,
    body: Seq<HIRView>,
    on_function: Seq<char>,
    n: nat,
)
    requires
        n <= body.len(),
    ensures
        n == 0 ==> infer_body(type_db, scope, body, on_function, n) == (InferredBody {
            statements: Seq::empty(),
            scope,
            failure: None,
        }),
        n > 0 ==> infer_body(type_db, scope, body, on_function, n) == ({
            let before = infer_body(type_db, scope, body, on_function, (n - 1) as nat);
            if before.failure is Some {
                before
            } else {
                match infer_statement(type_db, before.scope, body[n - 1], on_function) {
                    Ok(statement) => InferredBody {
                        statements: before.statements.push(statement),
                        scope: scope_after_statement(
                            type_db,
                            before.scope,
                            body[n - 1],
                            on_function,
                        ),
                        failure: None,
                    },
                    Err(e) => InferredBody {
                        statements: before.statements,
                        scope: before.scope,
                        failure: Some(e),
                    },
                }
            }
        }),
{
    reveal(infer_body);
    reveal(infer_statement);
}

/// A statement that fails leaves the scope as it was, and so does every
/// statement that is no declaration.
pub proof fn lemma_scope_after_statement(
    type_db: TypeDatabaseView,
    scope: Scope,
    statement: HIRView,
    on_function: Seq<char>,
)
    ensures
        !(statement is Declare) ==> scope_after_statement(type_db, scope, statement, on_function)
            == scope,
        infer_statement(type_db, scope, statement, on_function) is Err ==> scope_after_statement(
            type_db,
            scope,
            statement,
            on_function,
        ) == scope,
{
    reveal(infer_body);
    reveal(infer_statement);
    reveal(scope_after_statement);
}

/// The first `n` parameters with their types resolved; the first failure
/// if one of them fails. A parameter without a type is one.
pub open spec fn infer_parameters(
    type_db: TypeDatabaseView,
    parameters: Seq<HIRTypedBoundNameView>,
    on_function: Seq<char>,
    n: nat,
) -> Result<Seq<HIRTypedBoundNameView>, InferenceErrorView>
    decreases n,
{
    if n == 0 || n > parameters.len() {
        Ok(Seq::empty())
    } else {
        match infer_parameters(type_db, parameters, on_function, (n - 1) as nat) {
            Err(e) => Err(e),
            Ok(before) => match slot_hint(type_db, parameters[n - 1].typename, on_function) {
                Err(e) => Err(e),
                Ok(None) => Err(
                    InferenceErrorView::Internal(
                        InternalErrorView::PendingType(parameters[n - 1].name),
                    ),
                ),
                Ok(Some(t)) => Ok(
                    before.push(
                        HIRTypedBoundNameView {
                            name: parameters[n - 1].name,
                            typename: HIRTypeDefView::Resolved(t),
                        },
                    ),
                ),
            },
        }
    }
}

/// The types of parameters that are resolved.
pub open spec fn parameter_types(parameters: Seq<HIRTypedBoundNameView>) -> Seq<TypeInstanceView> {
    Seq::new(
        parameters.len(),
        |i: int|
            match parameters[i].typename {
                HIRTypeDefView::Resolved(t) => t,
                _ => arbitrary(),
            },
    )
}

/// The scope of a function body before its first statement: the first
/// `n` parameters, behind them the global names.
pub open spec fn function_scope(
    globals: Scope,
    parameters: Seq<HIRTypedBoundNameView>,
    n: nat,
) -> Scope
    decreases n,
{
    if n == 0 || n > parameters.len() {
        globals
    } else {
        function_scope(globals, parameters, (n - 1) as nat).insert(
            parameters[n - 1].name,
            parameters[n - 1].typename,
        )
    }
}

/// The signature of a function as a type, or the failure to resolve it.
pub open spec fn function_signature(
    type_db: TypeDatabaseView,
    function_name: Seq<char>,
    parameters: Seq<HIRTypedBoundNameView>,
    return_type: HIRTypeDefView,
) -> Result<(Seq<HIRTypedBoundNameView>, TypeInstanceView), InferenceErrorView> {
    match infer_parameters(type_db, parameters, function_name, parameters.len()) {
        Err(e) => Err(e),
        Ok(typed_parameters) => match slot_hint(type_db, return_type, function_name) {
            Err(e) => Err(e),
            Ok(None) => Err(
                InferenceErrorView::Internal(InternalErrorView::PendingType(function_name)),
            ),
            Ok(Some(t)) => Ok((typed_parameters, t)),
        },
    }
}

/// A program after inference, or the failure that stopped it, with the
/// global names as inference left them.
pub struct InferredProgram {
    pub statements: Seq<HIRView>,
    pub globals: Scope,
    pub failure: Option<InferenceErrorView>,
}

/// The global names after the signature of a function has been resolved:
/// the function is published under its name with its type.
pub open spec fn published(
    globals: Scope,
    function_name: Seq<char>,
    typed_parameters: Seq<HIRTypedBoundNameView>,
    return_type: TypeInstanceView,
) -> Scope {
    globals.insert(
        function_name,
        HIRTypeDefView::Resolved(
            TypeInstanceView::Function(parameter_types(typed_parameters), Box::new(return_type)),
        ),
    )
}

/// What inference makes of one statement of the top level, after the
/// statements before it.
pub open spec fn infer_top_level(
    type_db: TypeDatabaseView,
    before: InferredProgram,
    statement: HIRView,
) -> InferredProgram {
    match statement {
        HIRView::DeclareFunction { function_name, parameters, body, return_type } => {
            match function_signature(type_db, function_name, parameters, return_type) {
                Err(e) => InferredProgram { failure: Some(e), ..before },
                Ok((typed_parameters, result)) => {
                    let globals_now = published(
                        before.globals,
                        function_name,
                        typed_parameters,
                        result,
                    );
                    let inferred = infer_body(
                        type_db,
                        function_scope(globals_now, typed_parameters, typed_parameters.len()),
                        body,
                        function_name,
                        body.len(),
                    );
                    match inferred.failure {
                        Some(e) => InferredProgram {
                            statements: before.statements,
                            globals: globals_now,
                            failure: Some(e),
                        },
                        None => InferredProgram {
                            statements: before.statements.push(
                                HIRView::DeclareFunction {
                                    function_name,
                                    parameters: typed_parameters,
                                    body: inferred.statements,
                                    return_type: HIRTypeDefView::Resolved(result),
                                },
                            ),
                            globals: globals_now,
                            failure: None,
                        },
                    }
                },
            }
        },
        other => InferredProgram {
            statements: before.statements.push(other),
            globals: before.globals,
            failure: None,
        },
    }
}

/// The first `n` statements of a program after inference. For every
/// function the signature is resolved and published in the global names,
/// then its body is inferred in the scope of its parameters and of the
/// global names. Other statements stay as they are. Inference stops at
/// the first failure.
#[verifier::opaque]
pub open spec fn infer_program(
    type_db: TypeDatabaseView,
    globals: Scope,
    mir: Seq<HIRView>,
    n: nat,
) -> InferredProgram
    decreases n,
{
    if n == 0 || n > mir.len() {
        InferredProgram { statements: Seq::empty(), globals, failure: None }
    } else {
        let before = infer_program(type_db, globals, mir, (n - 1) as nat);
        if before.failure is Some {
            before
        } else {
            infer_top_level(type_db, before, mir[n - 1])
        }
    }
}

/// Inference of no statements of the top level, and of one more.
pub proof fn lemma_infer_program(
    type_db: TypeDatabaseView,
    globals: Scope,
    mir: Seq<HIRView>,
    n: nat,
)
    requires
        n <= mir.len(),
    ensures
        n == 0 ==> infer_program(type_db, globals, mir, n) == (InferredProgram {
            statements: Seq::empty(),
            globals,
            failure: None,
        }),
        n > 0 ==> infer_program(type_db, globals, mir, n) == (if infer_program(
            type_db,
            globals,
            mir,
            (n - 1) as nat,
        ).failure is Some {
            infer_program(type_db, globals, mir, (n - 1) as nat)
        } else {
            infer_top_level(
                type_db,
                infer_program(type_db, globals, mir, (n - 1) as nat),
                mir[n - 1],
            )
        }),
{
    reveal(infer_program);
}

/// Once a statement of the top level fails, the program fails in the same
/// way.
pub proof fn lemma_infer_program_fails(
    type_db: TypeDatabaseView,
    globals: Scope,
    mir: Seq<HIRView>,
    i: nat,
    n: nat,
)
    requires
        i <= n <= mir.len(),
        infer_program(type_db, globals, mir, i).failure is Some,
    ensures
        infer_program(type_db, globals, mir, n) == infer_program(type_db, globals, mir, i),
    decreases n,
{
    if i < n {
        lemma_infer_program_fails(type_db, globals, mir, i, (n - 1) as nat);
        lemma_infer_program(type_db, globals, mir, n);
    }
}

} // verus!
