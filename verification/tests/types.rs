//! Tests of the type database, of the registry of names and of the texts
//! of the errors.
use donkey::ast::Operator;
use donkey::semantic::hir::{HIRType, HIRTypeDef, TypeInstance};
use donkey::semantic::name_registry::{NameRegistry, RegistryEntry};
use donkey::semantic::names::NameSet;
use donkey::semantic::type_db::{
    FunctionSignature, GenericParameter, Type, TypeDatabase,
};
use donkey::semantic::type_inference::{
    resolve_function_signature, resolve_type, InternalError, TypeInferenceError, TypeResolution,
};
use donkey::types::type_errors::{
    operator_str, AssignContext, BinaryOperatorNotFound, CallToNonCallableType,
    FieldOrMethodNotFound, FunctionCallArgumentCountMismatch, FunctionCallContext, FunctionName,
    InsufficientTypeInformationForArray, ReturnTypeContext, TypeErrorDisplay, TypeErrors,
    TypeMismatch, TypeNotFound, UnaryOperatorNotFound, UnexpectedTypeFound,
};
use either::Either;

fn simple(type_db: &TypeDatabase, name: &str) -> TypeInstance {
    TypeInstance::Simple(type_db.find_by_name(name).unwrap().id)
}

#[test]
fn the_database_begins_with_the_built_in_types() {
    let type_db = TypeDatabase::new();
    let names: Vec<&str> = type_db.types.iter().map(|t| t.name.as_str()).collect();
    assert_eq!(names, ["Void", "None", "bool", "str", "i32", "u32", "f32", "array"]);
    for (place, record) in type_db.types.iter().enumerate() {
        assert_eq!(record.id, place);
        assert_eq!(type_db.find(place), Some(record));
        assert_eq!(type_db.find_by_name(&record.name), Some(record));
    }
    assert_eq!(type_db.find(8), None);
    assert_eq!(type_db.find_by_name("i64"), None);
    let number = type_db.find_by_name("i32").unwrap();
    assert_eq!(number.binary_ops.len(), 4);
    assert_eq!(number.unary_ops.len(), 2);
    assert!(number.binary_ops.iter().all(|o| o.rhs_type == TypeInstance::Simple(number.id)
        && o.result_type == TypeInstance::Simple(number.id)));
    let array = type_db.find_by_name("array").unwrap();
    let u32_id = type_db.find_by_name("u32").unwrap().id;
    assert_eq!(array.type_args, vec![GenericParameter("TItem".into())]);
    assert_eq!(array.fields[0].name, "length");
    assert_eq!(array.fields[0].field_type, Type::Simple(Either::Right(u32_id)));
    assert_eq!(array.methods[0].name, "__index__");
    assert_eq!(array.methods[0].args, vec![Type::Simple(Either::Right(u32_id))]);
    assert_eq!(
        array.methods[0].return_type,
        Type::Simple(Either::Left(GenericParameter("TItem".into())))
    );
    assert!(type_db.find_by_name("bool").unwrap().binary_ops.is_empty());
}

#[test]
fn types_can_be_added() {
    let mut type_db = TypeDatabase::new();
    let point = type_db.add_simple("Point");
    assert_eq!(point, 8);
    let i32_id = type_db.find_by_name("i32").unwrap().id;
    type_db.add_field(point, "x", Type::Simple(Either::Right(i32_id)));
    type_db.add_unary_operator(point, Operator::Minus, TypeInstance::Simple(point));
    type_db.add_binary_operator(
        point,
        Operator::Plus,
        TypeInstance::Simple(point),
        TypeInstance::Simple(point),
    );
    let pair = type_db.add_generic(
        "pair",
        vec![GenericParameter("A".into()), GenericParameter("B".into())],
    );
    assert_eq!(pair, 9);
    let record = type_db.find(point).unwrap();
    assert_eq!(record.fields.len(), 1);
    assert_eq!(record.unary_ops[0].operator, Operator::Minus);
    assert_eq!(record.binary_ops[0].result_type, TypeInstance::Simple(point));
    assert_eq!(type_db.get_name(pair), "pair");
    assert_eq!(type_db.get_name(77), "<unknown>");
    let celsius = type_db.register_primitive_number("celsius");
    assert_eq!(type_db.find(celsius).unwrap().binary_ops.len(), 4);
    assert!(type_db.is_valid());
    type_db.types[3].id = 4;
    assert!(!type_db.is_valid());
}

#[test]
fn a_generic_parameter_stands_for_the_actual_argument_at_its_place() {
    let mut type_db = TypeDatabase::new();
    let pair = type_db.add_generic(
        "pair",
        vec![GenericParameter("A".into()), GenericParameter("B".into())],
    );
    let str_type = simple(&type_db, "str");
    let i32_type = simple(&type_db, "i32");
    let actual = [str_type.clone(), i32_type.clone()];
    let second = Type::Simple(Either::Left(GenericParameter("B".into())));
    let resolution = TypeResolution::new(Some(pair), &actual);
    assert_eq!(resolve_type(&second, &type_db, resolution), Ok(i32_type.clone()));
    // the substitution goes through the arguments and the result of a function
    let first = || Type::Simple(Either::Left(GenericParameter("A".into())));
    let function = Type::Function(vec![first(), second], Box::new(first()));
    assert_eq!(
        resolve_type(&function, &type_db, resolution),
        Ok(TypeInstance::Function(
            vec![str_type.clone(), i32_type.clone()],
            Box::new(str_type.clone())
        ))
    );
    // a parameter that the type does not have
    let other = Type::Simple(Either::Left(GenericParameter("C".into())));
    assert_eq!(
        resolve_type(&other, &type_db, resolution),
        Err(TypeInferenceError::Internal(InternalError::GenericParameterNotBound("C".into())))
    );
    // a parameter without an actual argument
    let short = [str_type.clone()];
    assert_eq!(
        resolve_type(
            &Type::Simple(Either::Left(GenericParameter("B".into()))),
            &type_db,
            TypeResolution::new(Some(pair), &short)
        ),
        Err(TypeInferenceError::Internal(InternalError::GenericParameterNotBound("B".into())))
    );
    // a method with type arguments of its own is not handled
    let signature = FunctionSignature {
        name: "map".into(),
        type_args: vec![GenericParameter("T".into())],
        args: vec![],
        return_type: first(),
    };
    assert_eq!(
        resolve_function_signature(&type_db, &signature, pair, &actual),
        Err(TypeInferenceError::Internal(InternalError::MethodTypeArguments("map".into())))
    );
}

#[test]
fn types_are_written_by_their_names() {
    let type_db = TypeDatabase::new();
    let str_type = simple(&type_db, "str");
    let u32_type = simple(&type_db, "u32");
    let array = type_db.find_by_name("array").unwrap().id;
    assert_eq!(str_type.string(&type_db), "str");
    assert_eq!(TypeInstance::Generic(array, vec![str_type.clone()]).string(&type_db), "array<str>");
    assert_eq!(
        TypeInstance::Generic(array, vec![str_type.clone(), u32_type.clone()]).string(&type_db),
        "array<str, u32>"
    );
    assert_eq!(TypeInstance::Generic(array, vec![]).string(&type_db), "array<>");
    assert_eq!(
        TypeInstance::Function(vec![u32_type.clone()], Box::new(str_type.clone()))
            .string(&type_db),
        "fn (u32) -> str"
    );
    assert_eq!(
        TypeInstance::Function(
            vec![
                TypeInstance::Generic(array, vec![str_type.clone()]),
                TypeInstance::Function(vec![], Box::new(u32_type.clone()))
            ],
            Box::new(str_type.clone())
        )
        .string(&type_db),
        "fn (array<str>, fn () -> u32) -> str"
    );
    assert_eq!(TypeInstance::Simple(1000).string(&type_db), "<unknown>");
    assert_eq!(
        HIRType::Generic("List".into(), vec![HIRType::Simple("String".into())]).string(),
        "List<String>"
    );
    assert!(str_type.same_as(&simple(&type_db, "str")));
    assert!(!str_type.same_as(&u32_type));
    assert!(!TypeInstance::Generic(array, vec![str_type.clone()])
        .same_as(&TypeInstance::Generic(array, vec![u32_type.clone()])));
}

#[test]
fn errors_are_written_as_texts() {
    let type_db = TypeDatabase::new();
    let i32_type = simple(&type_db, "i32");
    let str_type = simple(&type_db, "str");
    assert_eq!(
        TypeMismatch {
            on_function: "main".to_string(),
            context: AssignContext { target_variable_name: "x".to_string() },
            expected: i32_type.clone(),
            actual: str_type.clone(),
        }
        .fmt_err(&type_db),
        "Assigned type mismatch: In function main, assignment to variable x: variable has type i32 but got assigned a value of type str"
    );
    assert_eq!(
        TypeMismatch {
            on_function: "main".to_string(),
            context: ReturnTypeContext(),
            expected: i32_type.clone(),
            actual: str_type.clone(),
        }
        .fmt_err(&type_db),
        "Return type mismatch: Function main returns i32 but expression returns str"
    );
    assert_eq!(
        TypeMismatch {
            on_function: "main".to_string(),
            context: FunctionCallContext {
                called_function_name: FunctionName::Function("pow".to_string()),
                argument_position: 12,
            },
            expected: i32_type.clone(),
            actual: str_type.clone(),
        }
        .fmt_err(&type_db),
        "Function argument type mismatch: In function main, call to function pow parameter on position 12 has incorrect type: Expected i32 but passed str"
    );
    assert_eq!(
        TypeMismatch {
            on_function: "main".to_string(),
            context: FunctionCallContext {
                called_function_name: FunctionName::IndexAccess,
                argument_position: 0,
            },
            expected: i32_type.clone(),
            actual: str_type.clone(),
        }
        .fmt_err(&type_db),
        "Function argument type mismatch: In function main, on index operator, parameter on position 0 has incorrect type: Expected i32 but passed str"
    );
    assert_eq!(
        FunctionCallArgumentCountMismatch {
            on_function: "main".to_string(),
            called_function_name: FunctionName::Function("pow".to_string()),
            expected_count: 2,
            passed_count: 105,
        }
        .fmt_err(&type_db),
        "Argument count mismatch: In function main, call to function pow expects 2 arguments, but 105 were passed"
    );
    assert_eq!(
        FunctionCallArgumentCountMismatch {
            on_function: "main".to_string(),
            called_function_name: FunctionName::IndexAccess,
            expected_count: 1,
            passed_count: 0,
        }
        .fmt_err(&type_db),
        "Argument count mismatch: In function main, index operator expects 1 arguments, but 0 were passed"
    );
    assert_eq!(
        CallToNonCallableType { on_function: "main".to_string(), actual_type: i32_type.clone() }
            .fmt_err(&type_db),
        "In function main, call to non-callable type i32"
    );
    assert_eq!(
        TypeNotFound {
            on_function: "main".to_string(),
            missing_type: HIRType::Simple("Matrix".to_string())
        }
        .fmt_err(&type_db),
        "In function main, type not found: Matrix"
    );
    assert_eq!(
        UnexpectedTypeFound { on_function: "main".to_string(), type_def: str_type.clone() }
            .fmt_err(&type_db),
        "In function main, unexpected type found in expression: str"
    );
    assert_eq!(
        BinaryOperatorNotFound {
            on_function: "main".to_string(),
            lhs: i32_type.clone(),
            rhs: str_type.clone(),
            operator: Operator::Plus,
        }
        .fmt_err(&type_db),
        "In function main, binary operator + not found for types: i32 + str"
    );
    assert_eq!(
        UnaryOperatorNotFound {
            on_function: "main".to_string(),
            rhs: str_type.clone(),
            operator: Operator::Minus,
        }
        .fmt_err(&type_db),
        "In function main, unary operator - not found for type: str"
    );
    assert_eq!(
        FieldOrMethodNotFound {
            on_function: "main".to_string(),
            object_type: str_type.clone(),
            field_or_method: "size".to_string(),
        }
        .fmt_err(&type_db),
        "In function main, tried to access field/method size on type str but no such field or method exists."
    );
    assert_eq!(
        InsufficientTypeInformationForArray { on_function: "main".to_string() }
            .fmt_err(&type_db),
        "In function main, array expression failed type inference: Array has no items, and/or variable declaration has no type declaration or type hint."
    );
    assert_eq!(operator_str(Operator::GreaterEquals), ">=");
    assert_eq!(operator_str(Operator::And), "and");
}

#[test]
fn errors_are_kept_by_their_kinds() {
    let type_db = TypeDatabase::new();
    let mut errors = TypeErrors::new();
    assert_eq!(errors.count(), Some(0));
    assert!(errors.is_empty());
    assert_eq!(errors.report(&type_db), "");
    let filed = errors.record(TypeInferenceError::InsufficientTypeInformationForArray(
        InsufficientTypeInformationForArray { on_function: "main".to_string() },
    ));
    assert_eq!(filed, None);
    let filed = errors.record(TypeInferenceError::TypeNotFound(TypeNotFound {
        on_function: "f".to_string(),
        missing_type: HIRType::Simple("Matrix".to_string()),
    }));
    assert_eq!(filed, None);
    let filed = errors.record(TypeInferenceError::Internal(InternalError::CastNotSupported));
    assert_eq!(filed, Some(InternalError::CastNotSupported));
    assert_eq!(errors.count(), Some(2));
    assert!(!errors.is_empty());
    assert_eq!(errors.type_not_found.len(), 1);
    assert_eq!(errors.insufficient_array_type_info.len(), 1);
    // kind after kind, every error on a line of its own
    assert_eq!(
        errors.report(&type_db),
        "In function f, type not found: Matrix\nIn function main, array expression failed type inference: Array has no items, and/or variable declaration has no type declaration or type hint.\n"
    );
}

#[test]
fn the_registry_maps_names_to_type_slots() {
    let mut registry = NameRegistry::new();
    assert_eq!(registry.get("x"), None);
    registry.insert("x".to_string(), HIRTypeDef::Pending);
    registry.insert("y".to_string(), HIRTypeDef::Resolved(TypeInstance::Simple(4)));
    assert_eq!(registry.get("x"), Some(&HIRTypeDef::Pending));
    // a second entry for a name replaces the first
    registry.insert("x".to_string(), HIRTypeDef::Resolved(TypeInstance::Simple(3)));
    assert_eq!(registry.get("x"), Some(&HIRTypeDef::Resolved(TypeInstance::Simple(3))));
    assert_eq!(registry.get_names(), ["x", "y"]);
    assert!(registry.contains("y"));
    assert!(!registry.contains("z"));

    let mut enclosing = NameRegistry::new();
    enclosing.insert("x".to_string(), HIRTypeDef::Pending);
    enclosing.insert("z".to_string(), HIRTypeDef::Resolved(TypeInstance::Simple(5)));
    registry.merge(&enclosing);
    // the name that both hold keeps its slot, the other one is added
    assert_eq!(registry.get("x"), Some(&HIRTypeDef::Resolved(TypeInstance::Simple(3))));
    assert_eq!(registry.get("z"), Some(&HIRTypeDef::Resolved(TypeInstance::Simple(5))));
    assert_eq!(registry.get_names(), ["x", "y", "z"]);
    let copy = registry.clone();
    assert_eq!(copy.get("y"), Some(&HIRTypeDef::Resolved(TypeInstance::Simple(4))));
    assert!(registry.is_valid());
    let mut twice = NameRegistry::new();
    twice.entries.push(RegistryEntry { name: "x".to_string(), typedef: HIRTypeDef::Pending });
    twice.entries.push(RegistryEntry { name: "x".to_string(), typedef: HIRTypeDef::Pending });
    assert!(!twice.is_valid());
}

#[test]
fn a_set_of_names_holds_each_name_once() {
    let mut names = NameSet::new();
    assert!(!names.contains("a"));
    names.insert("a".to_string());
    names.insert("b".to_string());
    assert!(names.contains("a"));
    assert!(names.contains("b"));
    assert!(!names.contains("ab"));
    let copy = names.clone();
    names.insert("c".to_string());
    assert!(!copy.contains("c"));
    assert!(names.contains("c"));
}
