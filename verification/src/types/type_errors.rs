//! The errors of type inference and type checking, each with the
//! function it occurred in, and the texts that report them.
use vstd::prelude::*;
use crate::ast::Operator;
use crate::semantic::hir::{HIRType, TypeInstance};
use crate::semantic::type_db::{TypeDatabase, TypeDatabaseView};
use crate::text::{append_digits, natural_digits};

verus! {

/// The way an operator is written.
pub open spec fn operator_text(operator: Operator) -> Seq<char> {
    match operator {
        Operator::Plus => "+"@,
        Operator::Minus => "-"@,
        Operator::Multiply => "*"@,
        Operator::Divide => "/"@,
        Operator::Mod => "%"@,
        Operator::BitShiftLeft => "<<"@,
        Operator::BitShiftRight => ">>"@,
        Operator::Not => "not"@,
        Operator::Equals => "=="@,
        Operator::NotEquals => "!="@,
        Operator::Or => "or"@,
        Operator::And => "and"@,
        Operator::Xor => "^"@,
        Operator::Greater => ">"@,
        Operator::GreaterEquals => ">="@,
        Operator::Less => "<"@,
        Operator::LessEquals => "<="@,
    }
}

/// The way an operator is written.
pub fn operator_str(operator: Operator) -> (text: &'static str)
    ensures
        text@ == operator_text(operator),
{
    match operator {
        Operator::Plus => "+",
        Operator::Minus => "-",
        Operator::Multiply => "*",
        Operator::Divide => "/",
        Operator::Mod => "%",
        Operator::BitShiftLeft => "<<",
        Operator::BitShiftRight => ">>",
        Operator::Not => "not",
        Operator::Equals => "==",
        Operator::NotEquals => "!=",
        Operator::Or => "or",
        Operator::And => "and",
        Operator::Xor => "^",
        Operator::Greater => ">",
        Operator::GreaterEquals => ">=",
        Operator::Less => "<",
        Operator::LessEquals => "<=",
    }
}

/// What a call calls.
#[derive(Debug, PartialEq, Eq)]
pub enum FunctionName {
    Function(String),
    IndexAccess,
    Method { function_name: String, receiver_type: String },
}

/// An error that can be reported as a text.
pub trait TypeErrorDisplay {
    /// The text of the error.
    spec fn error_text(&self, type_db: TypeDatabaseView) -> Seq<char>;

    /// Writes the error as a text; types are named as `type_db` names them.
    fn fmt_err(&self, type_db: &TypeDatabase) -> (text: String)
        ensures
            text@ == self.error_text(type_db@),
    ;
}

/// A value of one type where another type is expected; `context` says
/// where.
#[derive(Debug, PartialEq, Eq)]
pub struct TypeMismatch<TContext> {
    pub on_function: String,
    pub context: TContext,
    pub expected: TypeInstance,
    pub actual: TypeInstance,
}

/// The mismatch is in an assignment to this variable.
#[derive(Debug, PartialEq, Eq)]
pub struct AssignContext {
    pub target_variable_name: String,
}

/// The mismatch is in a return.
#[derive(Debug, PartialEq, Eq)]
pub struct ReturnTypeContext();

/// The mismatch is in an argument of a call.
#[derive(Debug, PartialEq, Eq)]
pub struct FunctionCallContext {
    pub called_function_name: FunctionName,
    pub argument_position: usize,
}

/// A call with another number of arguments than the function takes.
#[derive(Debug, PartialEq, Eq)]
pub struct FunctionCallArgumentCountMismatch {
    pub on_function: String,
    pub called_function_name: FunctionName,
    pub expected_count: usize,
    pub passed_count: usize,
}

/// A call of something that is not a function.
#[derive(Debug, PartialEq, Eq)]
pub struct CallToNonCallableType {
    pub on_function: String,
    pub actual_type: TypeInstance,
}

/// A written type that names no type.
#[derive(Debug, PartialEq, Eq)]
pub struct TypeNotFound {
    pub on_function: String,
    pub missing_type: HIRType,
}

/// A type that cannot stand where it was found.
#[derive(Debug, PartialEq, Eq)]
pub struct UnexpectedTypeFound {
    pub on_function: String,
    pub type_def: TypeInstance,
}

/// A binary operator that the type of the left operand does not have for
/// the type of the right operand.
#[derive(Debug, PartialEq, Eq)]
pub struct BinaryOperatorNotFound {
    pub on_function: String,
    pub lhs: TypeInstance,
    pub rhs: TypeInstance,
    pub operator: Operator,
}

/// A unary operator that the type of the operand does not have.
#[derive(Debug, PartialEq, Eq)]
pub struct UnaryOperatorNotFound {
    pub on_function: String,
    pub rhs: TypeInstance,
    pub operator: Operator,
}

/// A member that the type of the object does not have.
#[derive(Debug, PartialEq, Eq)]
pub struct FieldOrMethodNotFound {
    pub on_function: String,
    pub object_type: TypeInstance,
    pub field_or_method: String,
}

/// An empty array literal where nothing says what its items are.
#[derive(Debug, PartialEq, Eq)]
pub struct InsufficientTypeInformationForArray {
    pub on_function: String,
}

impl TypeErrorDisplay for TypeMismatch<AssignContext> {
    open spec fn error_text(&self, type_db: TypeDatabaseView) -> Seq<char> {
        "Assigned type mismatch: In function "@ + self.on_function@ + ", assignment to variable "@ + self.context.target_variable_name@ + ": variable has type "@ + self.expected@.text(type_db) + " but got assigned a value of type "@ + self.actual@.text(type_db)
    }

    fn fmt_err(&self, type_db: &TypeDatabase) -> (text: String) {
        let mut text = "Assigned type mismatch: In function ".to_owned();
        text.append(self.on_function.as_str());
        text.append(", assignment to variable ");
        text.append(self.context.target_variable_name.as_str());
        text.append(": variable has type ");
        text.append(self.expected.string(type_db).as_str());
        text.append(" but got assigned a value of type ");
        text.append(self.actual.string(type_db).as_str());
        text
    }
}

impl TypeErrorDisplay for TypeMismatch<ReturnTypeContext> {
    open spec fn error_text(&self, type_db: TypeDatabaseView) -> Seq<char> {
        "Return type mismatch: Function "@ + self.on_function@ + " returns "@ + self.expected@.text(type_db) + " but expression returns "@ + self.actual@.text(type_db)
    }

    fn fmt_err(&self, type_db: &TypeDatabase) -> (text: String) {
        let mut text = "Return type mismatch: Function ".to_owned();
        text.append(self.on_function.as_str());
        text.append(" returns ");
        text.append(self.expected.string(type_db).as_str());
        text.append(" but expression returns ");
        text.append(self.actual.string(type_db).as_str());
        text
    }
}

impl TypeErrorDisplay for CallToNonCallableType {
    open spec fn error_text(&self, type_db: TypeDatabaseView) -> Seq<char> {
        "In function "@ + self.on_function@ + ", call to non-callable type "@ + self.actual_type@.text(type_db)
    }

    fn fmt_err(&self, type_db: &TypeDatabase) -> (text: String) {
        let mut text = "In function ".to_owned();
        text.append(self.on_function.as_str());
        text.append(", call to non-callable type ");
        text.append(self.actual_type.string(type_db).as_str());
        text
    }
}

impl TypeErrorDisplay for TypeNotFound {
    open spec fn error_text(&self, type_db: TypeDatabaseView) -> Seq<char> {
        "In function "@ + self.on_function@ + ", type not found: "@ + self.missing_type@.text()
    }

    fn fmt_err(&self, type_db: &TypeDatabase) -> (text: String) {
        let mut text = "In function ".to_owned();
        text.append(self.on_function.as_str());
        text.append(", type not found: ");
        text.append(self.missing_type.string().as_str());
        text
    }
}

impl TypeErrorDisplay for UnexpectedTypeFound {
    open spec fn error_text(&self, type_db: TypeDatabaseView) -> Seq<char> {
        "In function "@ + self.on_function@ + ", unexpected type found in expression: "@ + self.type_def@.text(type_db)
    }

    fn fmt_err(&self, type_db: &TypeDatabase) -> (text: String) {
        let mut text = "In function ".to_owned();
        text.append(self.on_function.as_str());
        text.append(", unexpected type found in expression: ");
        text.append(self.type_def.string(type_db).as_str());
        text
    }
}

impl TypeErrorDisplay for BinaryOperatorNotFound {
    open spec fn error_text(&self, type_db: TypeDatabaseView) -> Seq<char> {
        "In function "@ + self.on_function@ + ", binary operator "@ + operator_text(self.operator) + " not found for types: "@ + self.lhs@.text(type_db) + " "@ + operator_text(self.operator) + " "@ + self.rhs@.text(type_db)
    }

    fn fmt_err(&self, type_db: &TypeDatabase) -> (text: String) {
        let mut text = "In function ".to_owned();
        text.append(self.on_function.as_str());
        text.append(", binary operator ");
        text.append(operator_str(self.operator));
        text.append(" not found for types: ");
        text.append(self.lhs.string(type_db).as_str());
        text.append(" ");
        text.append(operator_str(self.operator));
        text.append(" ");
        text.append(self.rhs.string(type_db).as_str());
        text
    }
}

impl TypeErrorDisplay for UnaryOperatorNotFound {
    open spec fn error_text(&self, type_db: TypeDatabaseView) -> Seq<char> {
        "In function "@ + self.on_function@ + ", unary operator "@ + operator_text(self.operator) + " not found for type: "@ + self.rhs@.text(type_db)
    }

    fn fmt_err(&self, type_db: &TypeDatabase) -> (text: String) {
        let mut text = "In function ".to_owned();
        text.append(self.on_function.as_str());
        text.append(", unary operator ");
        text.append(operator_str(self.operator));
        text.append(" not found for type: ");
        text.append(self.rhs.string(type_db).as_str());
        text
    }
}

impl TypeErrorDisplay for FieldOrMethodNotFound {
    open spec fn error_text(&self, type_db: TypeDatabaseView) -> Seq<char> {
        "In function "@ + self.on_function@ + ", tried to access field/method "@ + self.field_or_method@ + " on type "@ + self.object_type@.text(type_db) + " but no such field or method exists."@
    }

    fn fmt_err(&self, type_db: &TypeDatabase) -> (text: String) {
        let mut text = "In function ".to_owned();
        text.append(self.on_function.as_str());
        text.append(", tried to access field/method ");
        text.append(self.field_or_method.as_str());
        text.append(" on type ");
        text.append(self.object_type.string(type_db).as_str());
        text.append(" but no such field or method exists.");
        text
    }
}

impl TypeErrorDisplay for InsufficientTypeInformationForArray {
    open spec fn error_text(&self, type_db: TypeDatabaseView) -> Seq<char> {
        "In function "@ + self.on_function@ + ", array expression failed type inference: Array has no items, and/or variable declaration has no type declaration or type hint."@
    }

    fn fmt_err(&self, type_db: &TypeDatabase) -> (text: String) {
        let mut text = "In function ".to_owned();
        text.append(self.on_function.as_str());
        text.append(", array expression failed type inference: Array has no items, and/or variable declaration has no type declaration or type hint.");
        text
    }
}

impl TypeErrorDisplay for TypeMismatch<FunctionCallContext> {
    open spec fn error_text(&self, type_db: TypeDatabaseView) -> Seq<char> {
        match self.context.called_function_name {
            FunctionName::Function(function_name) => "Function argument type mismatch: In function "@ + self.on_function@ + ", call to function "@ + function_name@ + " parameter on position "@ + natural_digits(self.context.argument_position as nat) + " has incorrect type: Expected "@ + self.expected@.text(type_db) + " but passed "@ + self.actual@.text(type_db),
            FunctionName::IndexAccess => "Function argument type mismatch: In function "@ + self.on_function@ + ", on index operator, parameter on position "@ + natural_digits(self.context.argument_position as nat) + " has incorrect type: Expected "@ + self.expected@.text(type_db) + " but passed "@ + self.actual@.text(type_db),
            FunctionName::Method { function_name, receiver_type } => "Function argument type mismatch: In function "@ + self.on_function@ + ", call to method "@ + function_name@ + " of type "@ + receiver_type@ + " parameter on position "@ + natural_digits(self.context.argument_position as nat) + " has incorrect type: Expected "@ + self.expected@.text(type_db) + " but passed "@ + self.actual@.text(type_db),
        }
    }

    fn fmt_err(&self, type_db: &TypeDatabase) -> (text: String) {
        match &self.context.called_function_name {
            FunctionName::Function(function_name) => {
                let mut text = "Function argument type mismatch: In function ".to_owned();
                text.append(self.on_function.as_str());
                text.append(", call to function ");
                text.append(function_name.as_str());
                text.append(" parameter on position ");
                append_digits(&mut text, self.context.argument_position as u64);
                text.append(" has incorrect type: Expected ");
                text.append(self.expected.string(type_db).as_str());
                text.append(" but passed ");
                text.append(self.actual.string(type_db).as_str());
                text
            },
            FunctionName::IndexAccess => {
                let mut text = "Function argument type mismatch: In function ".to_owned();
                text.append(self.on_function.as_str());
                text.append(", on index operator, parameter on position ");
                append_digits(&mut text, self.context.argument_position as u64);
                text.append(" has incorrect type: Expected ");
                text.append(self.expected.string(type_db).as_str());
                text.append(" but passed ");
                text.append(self.actual.string(type_db).as_str());
                text
            },
            FunctionName::Method { function_name, receiver_type } => {
                let mut text = "Function argument type mismatch: In function ".to_owned();
                text.append(self.on_function.as_str());
                text.append(", call to method ");
                text.append(function_name.as_str());
                text.append(" of type ");
                text.append(receiver_type.as_str());
                text.append(" parameter on position ");
                append_digits(&mut text, self.context.argument_position as u64);
                text.append(" has incorrect type: Expected ");
                text.append(self.expected.string(type_db).as_str());
                text.append(" but passed ");
                text.append(self.actual.string(type_db).as_str());
                text
            },
        }
    }
}

impl TypeErrorDisplay for FunctionCallArgumentCountMismatch {
    open spec fn error_text(&self, type_db: TypeDatabaseView) -> Seq<char> {
        match self.called_function_name {
            FunctionName::Function(function_name) => "Argument count mismatch: In function "@ + self.on_function@ + ", call to function "@ + function_name@ + " expects "@ + natural_digits(self.expected_count as nat) + " arguments, but "@ + natural_digits(self.passed_count as nat) + " were passed"@,
            FunctionName::IndexAccess => "Argument count mismatch: In function "@ + self.on_function@ + ", index operator expects "@ + natural_digits(self.expected_count as nat) + " arguments, but "@ + natural_digits(self.passed_count as nat) + " were passed"@,
            FunctionName::Method { function_name, receiver_type } => "Argument count mismatch: In function "@ + self.on_function@ + ", call to method "@ + function_name@ + " of type "@ + receiver_type@ + " expects "@ + natural_digits(self.expected_count as nat) + " arguments, but "@ + natural_digits(self.passed_count as nat) + " were passed"@,
        }
    }

    fn fmt_err(&self, type_db: &TypeDatabase) -> (text: String) {
        match &self.called_function_name {
            FunctionName::Function(function_name) => {
                let mut text = "Argument count mismatch: In function ".to_owned();
                text.append(self.on_function.as_str());
                text.append(", call to function ");
                text.append(function_name.as_str());
                text.append(" expects ");
                append_digits(&mut text, self.expected_count as u64);
                text.append(" arguments, but ");
                append_digits(&mut text, self.passed_count as u64);
                text.append(" were passed");
                text
            },
            FunctionName::IndexAccess => {
                let mut text = "Argument count mismatch: In function ".to_owned();
                text.append(self.on_function.as_str());
                text.append(", index operator expects ");
                append_digits(&mut text, self.expected_count as u64);
                text.append(" arguments, but ");
                append_digits(&mut text, self.passed_count as u64);
                text.append(" were passed");
                text
            },
            FunctionName::Method { function_name, receiver_type } => {
                let mut text = "Argument count mismatch: In function ".to_owned();
                text.append(self.on_function.as_str());
                text.append(", call to method ");
                text.append(function_name.as_str());
                text.append(" of type ");
                text.append(receiver_type.as_str());
                text.append(" expects ");
                append_digits(&mut text, self.expected_count as u64);
                text.append(" arguments, but ");
                append_digits(&mut text, self.passed_count as u64);
                text.append(" were passed");
                text
            },
        }
    }
}

/// The errors of a compilation, one list for every kind.
#[derive(Debug, PartialEq, Eq)]
pub struct TypeErrors {
    pub assign_mismatches: Vec<TypeMismatch<AssignContext>>,
    pub return_type_mismatches: Vec<TypeMismatch<ReturnTypeContext>>,
    pub function_call_mismatches: Vec<TypeMismatch<FunctionCallContext>>,
    pub function_call_argument_count: Vec<FunctionCallArgumentCountMismatch>,
    pub call_non_callable: Vec<CallToNonCallableType>,
    pub type_not_found: Vec<TypeNotFound>,
    pub unexpected_types: Vec<UnexpectedTypeFound>,
    pub binary_op_not_found: Vec<BinaryOperatorNotFound>,
    pub unary_op_not_found: Vec<UnaryOperatorNotFound>,
    pub field_or_method_not_found: Vec<FieldOrMethodNotFound>,
    pub insufficient_array_type_info: Vec<InsufficientTypeInformationForArray>,
}

/// The texts of a list of errors, each followed by a line break.
pub open spec fn error_texts<E: TypeErrorDisplay>(errors: Seq<E>, type_db: TypeDatabaseView) -> Seq<
    char,
> {
    error_texts_upto(errors, type_db, errors.len())
}

/// The texts of the first `n` of a list of errors, each followed by a
/// line break.
pub open spec fn error_texts_upto<E: TypeErrorDisplay>(
    errors: Seq<E>,
    type_db: TypeDatabaseView,
    n: nat,
) -> Seq<char>
    decreases n,
{
    if n == 0 || n > errors.len() {
        Seq::empty()
    } else {
        error_texts_upto(errors, type_db, (n - 1) as nat) + errors[n - 1].error_text(type_db)
            + "\n"@
    }
}

/// Appends the texts of a list of errors, each followed by a line break.
fn append_error_texts<E: TypeErrorDisplay>(
    text: &mut String,
    errors: &Vec<E>,
    type_db: &TypeDatabase,
)
    ensures
        final(text)@ == old(text)@ + error_texts(errors@, type_db@),
{
    let ghost start = text@;
    let mut i: usize = 0;
    assert(text@ =~= start + error_texts_upto(errors@, type_db@, 0));
    while i < errors.len()
        invariant
            0 <= i <= errors.len(),
            text@ == start + error_texts_upto(errors@, type_db@, i as nat),
        decreases errors.len() - i,
    {
        let line = errors[i].fmt_err(type_db);
        text.append(line.as_str());
        text.append("\n");
        i += 1;
        assert(text@ =~= start + error_texts_upto(errors@, type_db@, i as nat));
    }
}

impl TypeErrors {
    /// Number of errors of all kinds.
    pub open spec fn total(&self) -> nat {
        self.assign_mismatches@.len() + self.return_type_mismatches@.len() + self.function_call_mismatches@.len() + self.function_call_argument_count@.len() + self.call_non_callable@.len() + self.type_not_found@.len() + self.unexpected_types@.len() + self.binary_op_not_found@.len() + self.unary_op_not_found@.len() + self.field_or_method_not_found@.len() + self.insufficient_array_type_info@.len()
    }

    /// The report of all errors: kind after kind, every error on a line of
    /// its own.
    pub open spec fn report_text(&self, type_db: TypeDatabaseView) -> Seq<char> {
        error_texts(self.assign_mismatches@, type_db) + error_texts(self.return_type_mismatches@, type_db) + error_texts(self.function_call_mismatches@, type_db) + error_texts(self.function_call_argument_count@, type_db) + error_texts(self.call_non_callable@, type_db) + error_texts(self.type_not_found@, type_db) + error_texts(self.unexpected_types@, type_db) + error_texts(self.binary_op_not_found@, type_db) + error_texts(self.unary_op_not_found@, type_db) + error_texts(self.field_or_method_not_found@, type_db) + error_texts(self.insufficient_array_type_info@, type_db)
    }

    /// No errors.
    pub fn new() -> (errors: TypeErrors)
        ensures
            errors.total() == 0,
            errors.assign_mismatches@.len() == 0,
            errors.return_type_mismatches@.len() == 0,
            errors.function_call_mismatches@.len() == 0,
            errors.function_call_argument_count@.len() == 0,
            errors.call_non_callable@.len() == 0,
            errors.type_not_found@.len() == 0,
            errors.unexpected_types@.len() == 0,
            errors.binary_op_not_found@.len() == 0,
            errors.unary_op_not_found@.len() == 0,
            errors.field_or_method_not_found@.len() == 0,
            errors.insufficient_array_type_info@.len() == 0,
    {
        TypeErrors {
            assign_mismatches: Vec::new(),
            return_type_mismatches: Vec::new(),
            function_call_mismatches: Vec::new(),
            function_call_argument_count: Vec::new(),
            call_non_callable: Vec::new(),
            type_not_found: Vec::new(),
            unexpected_types: Vec::new(),
            binary_op_not_found: Vec::new(),
            unary_op_not_found: Vec::new(),
            field_or_method_not_found: Vec::new(),
            insufficient_array_type_info: Vec::new(),
        }
    }

    /// Number of errors of all kinds; `None` if it does not fit a `usize`.
    pub fn count(&self) -> (count: Option<usize>)
        ensures
            match count {
                Some(n) => n == self.total(),
                None => self.total() > usize::MAX,
            },
    {
        let mut count: usize = 0;
        if self.assign_mismatches.len() > usize::MAX - count {
            return None;
        }
        count = count + self.assign_mismatches.len();
        if self.return_type_mismatches.len() > usize::MAX - count {
            return None;
        }
        count = count + self.return_type_mismatches.len();
        if self.function_call_mismatches.len() > usize::MAX - count {
            return None;
        }
        count = count + self.function_call_mismatches.len();
        if self.function_call_argument_count.len() > usize::MAX - count {
            return None;
        }
        count = count + self.function_call_argument_count.len();
        if self.call_non_callable.len() > usize::MAX - count {
            return None;
        }
        count = count + self.call_non_callable.len();
        if self.type_not_found.len() > usize::MAX - count {
            return None;
        }
        count = count + self.type_not_found.len();
        if self.unexpected_types.len() > usize::MAX - count {
            return None;
        }
        count = count + self.unexpected_types.len();
        if self.binary_op_not_found.len() > usize::MAX - count {
            return None;
        }
        count = count + self.binary_op_not_found.len();
        if self.unary_op_not_found.len() > usize::MAX - count {
            return None;
        }
        count = count + self.unary_op_not_found.len();
        if self.field_or_method_not_found.len() > usize::MAX - count {
            return None;
        }
        count = count + self.field_or_method_not_found.len();
        if self.insufficient_array_type_info.len() > usize::MAX - count {
            return None;
        }
        count = count + self.insufficient_array_type_info.len();
        Some(count)
    }

    /// Whether there is no error.
    pub fn is_empty(&self) -> (empty: bool)
        ensures
            empty == (self.total() == 0),
    {
        self.assign_mismatches.len() == 0
            && self.return_type_mismatches.len() == 0
            && self.function_call_mismatches.len() == 0
            && self.function_call_argument_count.len() == 0
            && self.call_non_callable.len() == 0
            && self.type_not_found.len() == 0
            && self.unexpected_types.len() == 0
            && self.binary_op_not_found.len() == 0
            && self.unary_op_not_found.len() == 0
            && self.field_or_method_not_found.len() == 0
            && self.insufficient_array_type_info.len() == 0
    }

    /// The report of all errors: kind after kind, every error on a line of
    /// its own.
    pub fn report(&self, type_db: &TypeDatabase) -> (text: String)
        ensures
            text@ == self.report_text(type_db@),
    {
        let mut text = String::new();
        append_error_texts(&mut text, &self.assign_mismatches, type_db);
        append_error_texts(&mut text, &self.return_type_mismatches, type_db);
        append_error_texts(&mut text, &self.function_call_mismatches, type_db);
        append_error_texts(&mut text, &self.function_call_argument_count, type_db);
        append_error_texts(&mut text, &self.call_non_callable, type_db);
        append_error_texts(&mut text, &self.type_not_found, type_db);
        append_error_texts(&mut text, &self.unexpected_types, type_db);
        append_error_texts(&mut text, &self.binary_op_not_found, type_db);
        append_error_texts(&mut text, &self.unary_op_not_found, type_db);
        append_error_texts(&mut text, &self.field_or_method_not_found, type_db);
        append_error_texts(&mut text, &self.insufficient_array_type_info, type_db);
        assert(text@ =~= self.report_text(type_db@));
        text
    }
}

} // verus!
