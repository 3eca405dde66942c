//! The type database: every type with its generic parameters, fields,
//! methods and operators.
use vstd::prelude::*;
use either::Either;
use crate::ast::Operator;
use crate::semantic::hir::{
    hir_type_views, lemma_hir_type_model, lemma_type_instance_model, type_instance_views, HIRType,
    HIRTypeView, TypeId, TypeInstance, TypeInstanceView,
};
use crate::text::{lemma_append_four, str_eq};

verus! {

/// The two-sided sum that tells a generic parameter from the identity of
/// a type.
#[verifier::external_type_specification]
#[verifier::reject_recursive_types(L)]
#[verifier::reject_recursive_types(R)]
pub struct ExEither<L, R>(either::Either<L, R>);

/// The name of a generic parameter.
#[derive(Debug, PartialEq, Eq)]
pub struct GenericParameter(pub String);

/// A type inside a signature: it may name generic parameters of the type
/// that declares the signature.
#[derive(Debug, PartialEq, Eq)]
pub enum Type {
    Simple(Either<GenericParameter, TypeId>),
    Generic(TypeId, Vec<Type>),
    Function(Vec<Type>, Box<Type>),
}

/// The signature of a method.
#[derive(Debug, PartialEq, Eq)]
pub struct FunctionSignature {
    pub name: String,
    pub type_args: Vec<GenericParameter>,
    pub args: Vec<Type>,
    pub return_type: Type,
}

/// A field of a type.
#[derive(Debug, PartialEq, Eq)]
pub struct TypeField {
    pub name: String,
    pub field_type: Type,
}

/// A unary operator of a type, with the type of its result.
#[derive(Debug, PartialEq, Eq)]
pub struct UnaryOperation {
    pub operator: Operator,
    pub result_type: TypeInstance,
}

/// A binary operator of a type, with the type of the right operand that
/// it takes and the type of its result.
#[derive(Debug, PartialEq, Eq)]
pub struct BinaryOperation {
    pub operator: Operator,
    pub rhs_type: TypeInstance,
    pub result_type: TypeInstance,
}

/// What the database knows of one type.
#[derive(Debug, PartialEq, Eq)]
pub struct TypeRecord {
    pub id: TypeId,
    pub name: String,
    pub type_args: Vec<GenericParameter>,
    pub fields: Vec<TypeField>,
    pub methods: Vec<FunctionSignature>,
    pub unary_ops: Vec<UnaryOperation>,
    pub binary_ops: Vec<BinaryOperation>,
}

/// The type database.
#[derive(Debug, PartialEq, Eq)]
pub struct TypeDatabase {
    pub types: Vec<TypeRecord>,
}

/// Mathematical model of a `Type`.
pub enum TypeView {
    Simple(Either<Seq<char>, TypeId>),
    Generic(TypeId, Seq<TypeView>),
    Function(Seq<TypeView>, Box<TypeView>),
}

/// Mathematical model of a `FunctionSignature`.
pub struct FunctionSignatureView {
    pub name: Seq<char>,
    pub type_args: Seq<Seq<char>>,
    pub args: Seq<TypeView>,
    pub return_type: TypeView,
}

/// Mathematical model of a `TypeField`.
pub struct TypeFieldView {
    pub name: Seq<char>,
    pub field_type: TypeView,
}

/// Mathematical model of a `UnaryOperation`.
pub struct UnaryOperationView {
    pub operator: Operator,
    pub result_type: TypeInstanceView,
}

/// Mathematical model of a `BinaryOperation`.
pub struct BinaryOperationView {
    pub operator: Operator,
    pub rhs_type: TypeInstanceView,
    pub result_type: TypeInstanceView,
}

/// Mathematical model of a `TypeRecord`.
pub struct TypeRecordView {
    pub id: TypeId,
    pub name: Seq<char>,
    pub type_args: Seq<Seq<char>>,
    pub fields: Seq<TypeFieldView>,
    pub methods: Seq<FunctionSignatureView>,
    pub unary_ops: Seq<UnaryOperationView>,
    pub binary_ops: Seq<BinaryOperationView>,
}

/// Mathematical model of a `TypeDatabase`.
pub struct TypeDatabaseView {
    pub types: Seq<TypeRecordView>,
}

impl View for GenericParameter {
    type V = Seq<char>;

    open spec fn view(&self) -> Seq<char> {
        self.0@
    }
}

/// The names of a list of generic parameters.
pub open spec fn parameter_views(parameters: Seq<GenericParameter>) -> Seq<Seq<char>> {
    Seq::new(parameters.len(), |i: int| parameters[i]@)
}

impl Type {
    /// The model of the type, built from its parts.
    pub open spec fn model(&self) -> TypeView
        decreases self,
    {
        match self {
            Type::Simple(Either::Left(parameter)) => TypeView::Simple(Either::Left(parameter@)),
            Type::Simple(Either::Right(id)) => TypeView::Simple(Either::Right(*id)),
            Type::Generic(id, args) => TypeView::Generic(
                *id,
                Seq::new(
                    args.len() as nat,
                    |i: int|
                        if 0 <= i < args.len() {
                            args[i].model()
                        } else {
                            arbitrary()
                        },
                ),
            ),
            Type::Function(args, return_type) => TypeView::Function(
                Seq::new(
                    args.len() as nat,
                    |i: int|
                        if 0 <= i < args.len() {
                            args[i].model()
                        } else {
                            arbitrary()
                        },
                ),
                Box::new(return_type.model()),
            ),
        }
    }
}

impl View for Type {
    type V = TypeView;

    open spec fn view(&self) -> TypeView {
        self.model()
    }
}

/// The models of a list of signature types.
pub open spec fn type_views(types: Seq<Type>) -> Seq<TypeView> {
    Seq::new(types.len(), |i: int| types[i]@)
}

/// The model of a signature type in terms of the models of its parts.
pub proof fn lemma_type_model(t: &Type)
    ensures
        t@ == (match t {
            Type::Simple(Either::Left(parameter)) => TypeView::Simple(Either::Left(parameter@)),
            Type::Simple(Either::Right(id)) => TypeView::Simple(Either::Right(*id)),
            Type::Generic(id, args) => TypeView::Generic(*id, type_views(args@)),
            Type::Function(args, return_type) => TypeView::Function(
                type_views(args@),
                Box::new(return_type@),
            ),
        }),
{
    match t {
        Type::Generic(id, args) => {
            assert(t@->Generic_1 =~= type_views(args@));
        },
        Type::Function(args, return_type) => {
            assert(t@->Function_0 =~= type_views(args@));
        },
        _ => {},
    }
}

impl View for FunctionSignature {
    type V = FunctionSignatureView;

    open spec fn view(&self) -> FunctionSignatureView {
        FunctionSignatureView {
            name: self.name@,
            type_args: parameter_views(self.type_args@),
            args: type_views(self.args@),
            return_type: self.return_type@,
        }
    }
}

impl View for TypeField {
    type V = TypeFieldView;

    open spec fn view(&self) -> TypeFieldView {
        TypeFieldView { name: self.name@, field_type: self.field_type@ }
    }
}

impl View for UnaryOperation {
    type V = UnaryOperationView;

    open spec fn view(&self) -> UnaryOperationView {
        UnaryOperationView { operator: self.operator, result_type: self.result_type@ }
    }
}

impl View for BinaryOperation {
    type V = BinaryOperationView;

    open spec fn view(&self) -> BinaryOperationView {
        BinaryOperationView {
            operator: self.operator,
            rhs_type: self.rhs_type@,
            result_type: self.result_type@,
        }
    }
}

impl View for TypeRecord {
    type V = TypeRecordView;

    open spec fn view(&self) -> TypeRecordView {
        TypeRecordView {
            id: self.id,
            name: self.name@,
            type_args: parameter_views(self.type_args@),
            fields: Seq::new(self.fields@.len(), |i: int| self.fields@[i]@),
            methods: Seq::new(self.methods@.len(), |i: int| self.methods@[i]@),
            unary_ops: Seq::new(self.unary_ops@.len(), |i: int| self.unary_ops@[i]@),
            binary_ops: Seq::new(self.binary_ops@.len(), |i: int| self.binary_ops@[i]@),
        }
    }
}

impl View for TypeDatabase {
    type V = TypeDatabaseView;

    open spec fn view(&self) -> TypeDatabaseView {
        TypeDatabaseView { types: Seq::new(self.types@.len(), |i: int| self.types@[i]@) }
    }
}

impl TypeDatabaseView {
    /// Every record stands at the place that its identity names.
    pub open spec fn wf(self) -> bool {
        forall|i: int| 0 <= i < self.types.len() ==> (#[trigger] self.types[i]).id == i
    }

    /// Record `i` is the first one called `name`.
    pub open spec fn first_named(self, name: Seq<char>, i: int) -> bool {
        &&& 0 <= i < self.types.len()
        &&& self.types[i].name == name
        &&& forall|j: int| 0 <= j < i ==> (#[trigger] self.types[j]).name != name
    }

    /// Some type is called `name`.
    pub open spec fn has_name(self, name: Seq<char>) -> bool {
        exists|i: int| 0 <= i < self.types.len() && (#[trigger] self.types[i]).name == name
    }

    /// The identity of the first type called `name`.
    pub open spec fn id_of(self, name: Seq<char>) -> TypeId {
        (choose|i: int| self.first_named(name, i)) as usize
    }

    /// The database has a record for `id`.
    pub open spec fn has(self, id: TypeId) -> bool {
        id < self.types.len()
    }

    /// The first name decides `id_of`.
    pub proof fn lemma_id_of(self, name: Seq<char>, i: int)
        requires
            self.first_named(name, i),
            i <= usize::MAX,
        ensures
            self.id_of(name) == i,
            self.has_name(name),
    {
        let k = choose|k: int| self.first_named(name, k);
        assert(self.first_named(name, k));
        if k < i {
            assert(self.types[k].name != name);
        } else if i < k {
            assert(self.types[i].name != name);
        }
    }
}

impl TypeDatabase {
    /// The record of the type `id`, if there is one.
    pub fn find(&self, id: TypeId) -> (found: Option<&TypeRecord>)
        ensures
            found is Some == self@.has(id),
            found matches Some(record) ==> record@ == self@.types[id as int],
    {
        if id < self.types.len() {
            Some(&self.types[id])
        } else {
            None
        }
    }

    /// The record of the first type called `name`, if there is one.
    pub fn find_by_name(&self, name: &str) -> (found: Option<&TypeRecord>)
        ensures
            found is Some == self@.has_name(name@),
            found matches Some(record) ==> record@ == self@.types[self@.id_of(name@) as int]
                && self@.has(self@.id_of(name@)),
    {
        let mut i: usize = 0;
        while i < self.types.len()
            invariant
                0 <= i <= self.types.len(),
                forall|j: int| 0 <= j < i ==> (#[trigger] self@.types[j]).name != name@,
            decreases self.types.len() - i,
        {
            if str_eq(self.types[i].name.as_str(), name) {
                proof {
                    self@.lemma_id_of(name@, i as int);
                }
                return Some(&self.types[i]);
            }
            i += 1;
        }
        None
    }
}

impl TypeRecordView {
    /// A record with a name and generic parameters, and nothing else.
    pub open spec fn empty(id: TypeId, name: Seq<char>, type_args: Seq<Seq<char>>) -> Self {
        TypeRecordView {
            id,
            name,
            type_args,
            fields: Seq::empty(),
            methods: Seq::empty(),
            unary_ops: Seq::empty(),
            binary_ops: Seq::empty(),
        }
    }

    /// The record with one more field.
    pub open spec fn with_field(self, field: TypeFieldView) -> Self {
        TypeRecordView { fields: self.fields.push(field), ..self }
    }

    /// The record with one more method.
    pub open spec fn with_method(self, method: FunctionSignatureView) -> Self {
        TypeRecordView { methods: self.methods.push(method), ..self }
    }

    /// The record with one more unary operator.
    pub open spec fn with_unary_op(self, operation: UnaryOperationView) -> Self {
        TypeRecordView { unary_ops: self.unary_ops.push(operation), ..self }
    }

    /// The record with one more binary operator.
    pub open spec fn with_binary_op(self, operation: BinaryOperationView) -> Self {
        TypeRecordView { binary_ops: self.binary_ops.push(operation), ..self }
    }

    /// The record of a number type: the four arithmetic operators between
    /// two numbers of the type, and the two signs, all giving the type
    /// itself.
    pub open spec fn number(id: TypeId, name: Seq<char>) -> Self {
        let this = TypeInstanceView::Simple(id);
        TypeRecordView {
            id,
            name,
            type_args: Seq::empty(),
            fields: Seq::empty(),
            methods: Seq::empty(),
            unary_ops: seq![
                UnaryOperationView { operator: Operator::Plus, result_type: this },
                UnaryOperationView { operator: Operator::Minus, result_type: this },
            ],
            binary_ops: seq![
                BinaryOperationView { operator: Operator::Plus, rhs_type: this, result_type: this },
                BinaryOperationView {
                    operator: Operator::Multiply,
                    rhs_type: this,
                    result_type: this,
                },
                BinaryOperationView { operator: Operator::Minus, rhs_type: this, result_type: this },
                BinaryOperationView {
                    operator: Operator::Divide,
                    rhs_type: this,
                    result_type: this,
                },
            ],
        }
    }

    /// The record of the array type: one generic parameter `TItem`, the
    /// field `length` of the type `length_type`, and the method
    /// `__index__` from an index of the type `length_type` to an item.
    pub open spec fn array(id: TypeId, length_type: TypeId) -> Self {
        TypeRecordView {
            id,
            name: "array"@,
            type_args: seq!["TItem"@],
            fields: seq![
                TypeFieldView {
                    name: "length"@,
                    field_type: TypeView::Simple(Either::Right(length_type)),
                },
            ],
            methods: seq![
                FunctionSignatureView {
                    name: "__index__"@,
                    type_args: Seq::empty(),
                    args: seq![TypeView::Simple(Either::Right(length_type))],
                    return_type: TypeView::Simple(Either::Left("TItem"@)),
                },
            ],
            unary_ops: Seq::empty(),
            binary_ops: Seq::empty(),
        }
    }
}

/// The types that every database begins with: `Void`, `None`, `bool` and
/// `str` without operators, the numbers `i32`, `u32` and `f32`, and the
/// generic `array`.
pub open spec fn builtin_types() -> Seq<TypeRecordView> {
    seq![
        TypeRecordView::empty(0, "Void"@, Seq::empty()),
        TypeRecordView::empty(1, "None"@, Seq::empty()),
        TypeRecordView::empty(2, "bool"@, Seq::empty()),
        TypeRecordView::empty(3, "str"@, Seq::empty()),
        TypeRecordView::number(4, "i32"@),
        TypeRecordView::number(5, "u32"@),
        TypeRecordView::number(6, "f32"@),
        TypeRecordView::array(7, 5),
    ]
}

impl TypeDatabase {
    /// Adds a type without generic parameters, and gives its identity.
    pub fn add_simple(&mut self, name: &str) -> (id: TypeId)
        requires
            old(self)@.wf(),
        ensures
            final(self)@.wf(),
            id == old(self)@.types.len(),
            final(self)@.types == old(self)@.types.push(
                TypeRecordView::empty(id, name@, Seq::empty()),
            ),
    {
        let type_args: Vec<GenericParameter> = Vec::new();
        assert(parameter_views(type_args@) =~= Seq::<Seq<char>>::empty());
        self.add_generic(name, type_args)
    }

    /// Adds a type with the given generic parameters, and gives its
    /// identity.
    pub fn add_generic(&mut self, name: &str, type_args: Vec<GenericParameter>) -> (id: TypeId)
        requires
            old(self)@.wf(),
        ensures
            final(self)@.wf(),
            id == old(self)@.types.len(),
            final(self)@.types == old(self)@.types.push(
                TypeRecordView::empty(id, name@, parameter_views(type_args@)),
            ),
    {
        let id = self.types.len();
        let record = TypeRecord {
            id,
            name: name.to_owned(),
            type_args,
            fields: Vec::new(),
            methods: Vec::new(),
            unary_ops: Vec::new(),
            binary_ops: Vec::new(),
        };
        assert(record@.fields =~= Seq::empty());
        assert(record@.methods =~= Seq::empty());
        assert(record@.unary_ops =~= Seq::empty());
        assert(record@.binary_ops =~= Seq::empty());
        self.types.push(record);
        assert(self@.types =~= old(self)@.types.push(
            TypeRecordView::empty(id, name@, parameter_views(type_args@)),
        ));
        id
    }

    /// Adds a field to the type `type_id`.
    pub fn add_field(&mut self, type_id: TypeId, name: &str, field_type: Type)
        requires
            old(self)@.wf(),
            old(self)@.has(type_id),
        ensures
            final(self)@.wf(),
            final(self)@.types == old(self)@.types.update(
                type_id as int,
                old(self)@.types[type_id as int].with_field(
                    TypeFieldView { name: name@, field_type: field_type@ },
                ),
            ),
    {
        let ghost before = self@;
        let ghost record_before = self.types@[type_id as int]@;
        self.types[type_id].fields.push(TypeField { name: name.to_owned(), field_type });
        proof {
            let after = self.types@[type_id as int]@;
            assert(after.fields =~= record_before.fields.push(
                TypeFieldView { name: name@, field_type: field_type@ },
            ));
            assert(after.methods =~= record_before.methods);
            assert(after.unary_ops =~= record_before.unary_ops);
            assert(after.binary_ops =~= record_before.binary_ops);
            assert(self@.types =~= before.types.update(
                type_id as int,
                record_before.with_field(TypeFieldView { name: name@, field_type: field_type@ }),
            ));
            assert forall|i: int| 0 <= i < self@.types.len() implies (#[trigger] self@.types[i]).id
                == i by {
                assert(before.types[i].id == i);
            }
        }
    }

    /// Adds a method to the type `type_id`.
    pub fn add_method(&mut self, type_id: TypeId, signature: FunctionSignature)
        requires
            old(self)@.wf(),
            old(self)@.has(type_id),
        ensures
            final(self)@.wf(),
            final(self)@.types == old(self)@.types.update(
                type_id as int,
                old(self)@.types[type_id as int].with_method(signature@),
            ),
    {
        let ghost before = self@;
        let ghost record_before = self.types@[type_id as int]@;
        self.types[type_id].methods.push(signature);
        proof {
            let after = self.types@[type_id as int]@;
            assert(after.methods =~= record_before.methods.push(signature@));
            assert(after.fields =~= record_before.fields);
            assert(after.unary_ops =~= record_before.unary_ops);
            assert(after.binary_ops =~= record_before.binary_ops);
            assert(self@.types =~= before.types.update(
                type_id as int,
                record_before.with_method(signature@),
            ));
            assert forall|i: int| 0 <= i < self@.types.len() implies (#[trigger] self@.types[i]).id
                == i by {
                assert(before.types[i].id == i);
            }
        }
    }

    /// Adds a unary operator to the type `type_id`.
    pub fn add_unary_operator(
        &mut self,
        type_id: TypeId,
        operator: Operator,
        result_type: TypeInstance,
    )
        requires
            old(self)@.wf(),
            old(self)@.has(type_id),
        ensures
            final(self)@.wf(),
            final(self)@.types == old(self)@.types.update(
                type_id as int,
                old(self)@.types[type_id as int].with_unary_op(
                    UnaryOperationView { operator, result_type: result_type@ },
                ),
            ),
    {
        let ghost before = self@;
        let ghost record_before = self.types@[type_id as int]@;
        self.types[type_id].unary_ops.push(UnaryOperation { operator, result_type });
        proof {
            let after = self.types@[type_id as int]@;
            assert(after.unary_ops =~= record_before.unary_ops.push(
                UnaryOperationView { operator, result_type: result_type@ },
            ));
            assert(after.fields =~= record_before.fields);
            assert(after.methods =~= record_before.methods);
            assert(after.binary_ops =~= record_before.binary_ops);
            assert(self@.types =~= before.types.update(
                type_id as int,
                record_before.with_unary_op(
                    UnaryOperationView { operator, result_type: result_type@ },
                ),
            ));
            assert forall|i: int| 0 <= i < self@.types.len() implies (#[trigger] self@.types[i]).id
                == i by {
                assert(before.types[i].id == i);
            }
        }
    }

    /// Adds a binary operator to the type `type_id`: with a right operand
    /// of the type `rhs_type` it gives a `result_type`.
    pub fn add_binary_operator(
        &mut self,
        type_id: TypeId,
        operator: Operator,
        rhs_type: TypeInstance,
        result_type: TypeInstance,
    )
        requires
            old(self)@.wf(),
            old(self)@.has(type_id),
        ensures
            final(self)@.wf(),
            final(self)@.types == old(self)@.types.update(
                type_id as int,
                old(self)@.types[type_id as int].with_binary_op(
                    BinaryOperationView {
                        operator,
                        rhs_type: rhs_type@,
                        result_type: result_type@,
                    },
                ),
            ),
    {
        let ghost before = self@;
        let ghost record_before = self.types@[type_id as int]@;
        self.types[type_id].binary_ops.push(BinaryOperation { operator, rhs_type, result_type });
        proof {
            let after = self.types@[type_id as int]@;
            assert(after.binary_ops =~= record_before.binary_ops.push(
                BinaryOperationView { operator, rhs_type: rhs_type@, result_type: result_type@ },
            ));
            assert(after.fields =~= record_before.fields);
            assert(after.methods =~= record_before.methods);
            assert(after.unary_ops =~= record_before.unary_ops);
            assert(self@.types =~= before.types.update(
                type_id as int,
                record_before.with_binary_op(
                    BinaryOperationView {
                        operator,
                        rhs_type: rhs_type@,
                        result_type: result_type@,
                    },
                ),
            ));
            assert forall|i: int| 0 <= i < self@.types.len() implies (#[trigger] self@.types[i]).id
                == i by {
                assert(before.types[i].id == i);
            }
        }
    }

    /// Adds a number type with its arithmetic operators, and gives its
    /// identity.
    pub fn register_primitive_number(&mut self, name: &str) -> (id: TypeId)
        requires
            old(self)@.wf(),
        ensures
            final(self)@.wf(),
            id == old(self)@.types.len(),
            final(self)@.types == old(self)@.types.push(TypeRecordView::number(id, name@)),
    {
        let id = self.add_simple(name);
        self.add_binary_operator(
            id,
            Operator::Plus,
            TypeInstance::Simple(id),
            TypeInstance::Simple(id),
        );
        self.add_binary_operator(
            id,
            Operator::Multiply,
            TypeInstance::Simple(id),
            TypeInstance::Simple(id),
        );
        self.add_binary_operator(
            id,
            Operator::Minus,
            TypeInstance::Simple(id),
            TypeInstance::Simple(id),
        );
        self.add_binary_operator(
            id,
            Operator::Divide,
            TypeInstance::Simple(id),
            TypeInstance::Simple(id),
        );
        self.add_unary_operator(id, Operator::Plus, TypeInstance::Simple(id));
        self.add_unary_operator(id, Operator::Minus, TypeInstance::Simple(id));
        proof {
            let record = self@.types[id as int];
            let number = TypeRecordView::number(id, name@);
            assert(record.unary_ops =~= number.unary_ops);
            assert(record.binary_ops =~= number.binary_ops);
            assert(self@.types =~= old(self)@.types.push(number));
        }
        id
    }

    /// The database of the built-in types.
    pub fn new() -> (type_db: TypeDatabase)
        ensures
            type_db@.wf(),
            type_db@.types == builtin_types(),
    {
        let mut type_db = TypeDatabase { types: Vec::new() };
        assert(type_db@.types =~= Seq::<TypeRecordView>::empty());
        type_db.add_simple("Void");
        type_db.add_simple("None");
        type_db.add_simple("bool");
        type_db.add_simple("str");
        type_db.register_primitive_number("i32");
        let u32_type = type_db.register_primitive_number("u32");
        type_db.register_primitive_number("f32");
        let mut type_args: Vec<GenericParameter> = Vec::new();
        type_args.push(GenericParameter("TItem".to_owned()));
        assert(parameter_views(type_args@) =~= seq!["TItem"@]);
        let array_type = type_db.add_generic("array", type_args);
        type_db.add_field(array_type, "length", Type::Simple(Either::Right(u32_type)));
        let mut args: Vec<Type> = Vec::new();
        args.push(Type::Simple(Either::Right(u32_type)));
        let signature = FunctionSignature {
            name: "__index__".to_owned(),
            type_args: Vec::new(),
            args,
            return_type: Type::Simple(Either::Left(GenericParameter("TItem".to_owned()))),
        };
        proof {
            assert(signature@.type_args =~= Seq::empty());
            assert(signature@.args =~= seq![TypeView::Simple(Either::Right(u32_type))]);
        }
        type_db.add_method(array_type, signature);
        proof {
            let record = type_db@.types[7];
            let array = TypeRecordView::array(7, 5);
            assert(record.fields =~= array.fields);
            assert(record.methods =~= array.methods);
            assert(type_db@.types =~= builtin_types());
        }
        type_db
    }
}

/// The first `n` of `parts`, with a comma and a blank between them.
pub open spec fn joined(parts: Seq<Seq<char>>, n: nat) -> Seq<char>
    decreases n,
{
    if n == 0 || n > parts.len() {
        Seq::empty()
    } else if n == 1 {
        parts[0]
    } else {
        joined(parts, (n - 1) as nat) + ", "@ + parts[n - 1]
    }
}

impl TypeDatabaseView {
    /// The name of the type `id`; a type that the database does not hold
    /// is called `<unknown>`.
    pub open spec fn name_of(self, id: TypeId) -> Seq<char> {
        if self.has(id) {
            self.types[id as int].name
        } else {
            "<unknown>"@
        }
    }
}

impl TypeInstanceView {
    /// The type as a text: the name of a simple type, `name<a, b>` for a
    /// generic type with its arguments, `fn (a, b) -> r` for a function.
    pub open spec fn text(self, type_db: TypeDatabaseView) -> Seq<char>
        decreases self, 0nat,
    {
        match self {
            TypeInstanceView::Simple(id) => type_db.name_of(id),
            TypeInstanceView::Generic(id, args) => type_db.name_of(id) + "<"@ + joined(
                type_texts(args, type_db),
                args.len(),
            ) + ">"@,
            TypeInstanceView::Function(args, return_type) => "fn ("@ + joined(
                type_texts(args, type_db),
                args.len(),
            ) + ") -> "@ + return_type.text(type_db),
        }
    }
}

/// The texts of a list of resolved types.
pub open spec fn type_texts(types: Seq<TypeInstanceView>, type_db: TypeDatabaseView) -> Seq<
    Seq<char>,
>
    decreases types, 1nat,
{
    Seq::new(
        types.len(),
        |i: int|
            if 0 <= i < types.len() {
                types[i].text(type_db)
            } else {
                arbitrary()
            },
    )
}

impl HIRTypeView {
    /// The type as a text, written as a resolved type is.
    pub open spec fn text(self) -> Seq<char>
        decreases self, 0nat,
    {
        match self {
            HIRTypeView::Simple(name) => name,
            HIRTypeView::Generic(name, args) => name + "<"@ + joined(
                hir_type_texts(args),
                args.len(),
            ) + ">"@,
            HIRTypeView::Function(args, return_type) => "fn ("@ + joined(
                hir_type_texts(args),
                args.len(),
            ) + ") -> "@ + return_type.text(),
        }
    }
}

/// The texts of a list of written types.
pub open spec fn hir_type_texts(types: Seq<HIRTypeView>) -> Seq<Seq<char>>
    decreases types, 1nat,
{
    Seq::new(
        types.len(),
        |i: int|
            if 0 <= i < types.len() {
                types[i].text()
            } else {
                arbitrary()
            },
    )
}

impl TypeDatabase {
    /// The name of the type `id`; a type that the database does not hold
    /// is called `<unknown>`.
    pub fn get_name(&self, id: TypeId) -> (name: &str)
        ensures
            name@ == self@.name_of(id),
    {
        if id < self.types.len() {
            self.types[id].name.as_str()
        } else {
            "<unknown>"
        }
    }
}

/// Appends the texts of `types`, with a comma and a blank between them.
fn append_type_texts(text: &mut String, types: &Vec<TypeInstance>, type_db: &TypeDatabase)
    ensures
        final(text)@ == old(text)@ + joined(
            type_texts(type_instance_views(types@), type_db@),
            types@.len(),
        ),
    decreases types, 0nat,
{
    let ghost texts = type_texts(type_instance_views(types@), type_db@);
    let ghost start = text@;
    let mut i: usize = 0;
    assert(text@ =~= start + joined(texts, 0));
    while i < types.len()
        invariant
            0 <= i <= types.len(),
            texts == type_texts(type_instance_views(types@), type_db@),
            text@ == start + joined(texts, i as nat),
        decreases types.len() - i,
    {
        if i > 0 {
            text.append(", ");
        }
        append_type_text(text, &types[i], type_db);
        i += 1;
        proof {
            assert(texts[i - 1] == types@[i - 1]@.text(type_db@));
            assert(text@ =~= start + joined(texts, i as nat));
        }
    }
}

/// Appends the text of `t`.
fn append_type_text(text: &mut String, t: &TypeInstance, type_db: &TypeDatabase)
    ensures
        final(text)@ == old(text)@ + t@.text(type_db@),
    decreases t, 1nat,
{
    proof {
        lemma_type_instance_model(t);
    }
    match t {
        TypeInstance::Simple(id) => {
            text.append(type_db.get_name(*id));
        },
        TypeInstance::Generic(id, args) => {
            text.append(type_db.get_name(*id));
            text.append("<");
            append_type_texts(text, args, type_db);
            text.append(">");
            proof {
                let views = type_instance_views(args@);
                lemma_append_four(
                    old(text)@,
                    type_db@.name_of(*id),
                    "<"@,
                    joined(type_texts(views, type_db@), views.len()),
                    ">"@,
                );
                assert(t@.text(type_db@) == type_db@.name_of(*id) + "<"@ + joined(
                    type_texts(views, type_db@),
                    views.len(),
                ) + ">"@);
            }
        },
        TypeInstance::Function(args, return_type) => {
            text.append("fn (");
            append_type_texts(text, args, type_db);
            text.append(") -> ");
            append_type_text(text, return_type, type_db);
            proof {
                let views = type_instance_views(args@);
                lemma_append_four(
                    old(text)@,
                    "fn ("@,
                    joined(type_texts(views, type_db@), views.len()),
                    ") -> "@,
                    return_type@.text(type_db@),
                );
                assert(t@.text(type_db@) == "fn ("@ + joined(
                    type_texts(views, type_db@),
                    views.len(),
                ) + ") -> "@ + return_type@.text(type_db@));
            }
        },
    }
}

impl TypeInstance {
    /// The type as a text: the name of a simple type, `name<a, b>` for a
    /// generic type with its arguments, `fn (a, b) -> r` for a function.
    pub fn string(&self, type_db: &TypeDatabase) -> (text: String)
        ensures
            text@ == self@.text(type_db@),
    {
        let mut text = String::new();
        append_type_text(&mut text, self, type_db);
        assert(text@ =~= self@.text(type_db@));
        text
    }
}

/// Appends the texts of `types`, with a comma and a blank between them.
fn append_hir_type_texts(text: &mut String, types: &Vec<HIRType>)
    ensures
        final(text)@ == old(text)@ + joined(hir_type_texts(hir_type_views(types@)), types@.len()),
    decreases types, 0nat,
{
    let ghost texts = hir_type_texts(hir_type_views(types@));
    let ghost start = text@;
    let mut i: usize = 0;
    assert(text@ =~= start + joined(texts, 0));
    while i < types.len()
        invariant
            0 <= i <= types.len(),
            texts == hir_type_texts(hir_type_views(types@)),
            text@ == start + joined(texts, i as nat),
        decreases types.len() - i,
    {
        if i > 0 {
            text.append(", ");
        }
        append_hir_type_text(text, &types[i]);
        i += 1;
        proof {
            assert(texts[i - 1] == types@[i - 1]@.text());
            assert(text@ =~= start + joined(texts, i as nat));
        }
    }
}

/// Appends the text of `t`.
fn append_hir_type_text(text: &mut String, t: &HIRType)
    ensures
        final(text)@ == old(text)@ + t@.text(),
    decreases t, 1nat,
{
    proof {
        lemma_hir_type_model(t);
    }
    match t {
        HIRType::Simple(name) => {
            text.append(name.as_str());
        },
        HIRType::Generic(name, args) => {
            text.append(name.as_str());
            text.append("<");
            append_hir_type_texts(text, args);
            text.append(">");
            proof {
                let views = hir_type_views(args@);
                lemma_append_four(
                    old(text)@,
                    name@,
                    "<"@,
                    joined(hir_type_texts(views), views.len()),
                    ">"@,
                );
                assert(t@.text() == name@ + "<"@ + joined(hir_type_texts(views), views.len())
                    + ">"@);
            }
        },
        HIRType::Function(args, return_type) => {
            text.append("fn (");
            append_hir_type_texts(text, args);
            text.append(") -> ");
            append_hir_type_text(text, return_type);
            proof {
                let views = hir_type_views(args@);
                lemma_append_four(
                    old(text)@,
                    "fn ("@,
                    joined(hir_type_texts(views), views.len()),
                    ") -> "@,
                    return_type@.text(),
                );
                assert(t@.text() == "fn ("@ + joined(hir_type_texts(views), views.len())
                    + ") -> "@ + return_type@.text());
            }
        },
    }
}

impl HIRType {
    /// The type as a text, written as a resolved type is.
    pub fn string(&self) -> (text: String)
        ensures
            text@ == self@.text(),
    {
        let mut text = String::new();
        append_hir_type_text(&mut text, self);
        assert(text@ =~= self@.text());
        text
    }
}

impl TypeDatabase {
    /// Checks that every record stands at the place that its identity
    /// names.
    pub fn is_valid(&self) -> (ok: bool)
        ensures
            ok == self@.wf(),
    {
        let mut i: usize = 0;
        while i < self.types.len()
            invariant
                0 <= i <= self.types.len(),
                forall|k: int| 0 <= k < i ==> (#[trigger] self@.types[k]).id == k,
            decreases self.types.len() - i,
        {
            if self.types[i].id != i {
                assert(self@.types[i as int].id != i);
                return false;
            }
            i += 1;
        }
        true
    }
}

} // verus!
