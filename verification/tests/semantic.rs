//! Tests of the semantic passes, from source text to typed statements.
use donkey::ast::{ASTType, Expr, Operator, TypeBoundName, AST};
use donkey::commons::float::Float;
use donkey::semantic::analysis::{do_analysis, AnalysisError, AnalysisResult};
use donkey::semantic::first_assignments::transform_first_assignment_into_declaration;
use donkey::semantic::hir::{
    HIRExpr, HIRType, HIRTypeDef, HIRTypedBoundName, TrivialHIRExpr, TypeInstance,
    TypedTrivialHIRExpr, HIR,
};
use donkey::semantic::lowering::{
    ast_to_hir, check_if_reducible, get_trivial_hir_expr, make_intermediary,
    reduce_expr_to_hir_declarations,
};
use donkey::semantic::lowering_check::can_lower;
use donkey::semantic::name_registry::{build_name_registry, NameRegistry};
use donkey::semantic::type_db::TypeDatabase;
use donkey::semantic::type_inference::{
    compute_and_infer_expr_type, infer_types, instantiate_type, InternalError,
    TypeInferenceError,
};
use donkey::semantic::undeclared_vars::{detect_undeclared_vars_and_redeclarations, ScopeError};
use donkey::types::type_errors::operator_str;

// ---------------------------------------------------------------------
// A small reader of the source language, enough for the programs below.
// ---------------------------------------------------------------------

#[derive(Debug, Clone, PartialEq)]
enum Token {
    Name(String),
    Integer(i128),
    Real(f64),
    Text(String),
    Symbol(&'static str),
    NewLine,
    Indent,
    Dedent,
}

const SYMBOLS: [&str; 24] = [
    "->", "==", "!=", ">=", "<=", "<<", ">>", "(", ")", "[", "]", ",", ":", ".", "+", "-", "*",
    "/", "%", "=", "<", ">", "^", "!",
];

fn tokenize_line(line: &str, tokens: &mut Vec<Token>) {
    let chars: Vec<char> = line.chars().collect();
    let mut i = 0;
    while i < chars.len() {
        let c = chars[i];
        if c == ' ' {
            i += 1;
        } else if c.is_ascii_digit() {
            let start = i;
            while i < chars.len() && (chars[i].is_ascii_digit() || chars[i] == '.') {
                i += 1;
            }
            let text: String = chars[start..i].iter().collect();
            if text.contains('.') {
                tokens.push(Token::Real(text.parse().unwrap()));
            } else {
                tokens.push(Token::Integer(text.parse().unwrap()));
            }
        } else if c.is_alphabetic() || c == '_' {
            let start = i;
            while i < chars.len() && (chars[i].is_alphanumeric() || chars[i] == '_') {
                i += 1;
            }
            tokens.push(Token::Name(chars[start..i].iter().collect()));
        } else if c == '\'' || c == '"' {
            let start = i + 1;
            i += 1;
            while chars[i] != c {
                i += 1;
            }
            tokens.push(Token::Text(chars[start..i].iter().collect()));
            i += 1;
        } else {
            let rest: String = chars[i..].iter().collect();
            let symbol = SYMBOLS.iter().find(|s| rest.starts_with(**s)).unwrap();
            tokens.push(Token::Symbol(symbol));
            i += symbol.len();
        }
    }
}

fn tokenize(source: &str) -> Vec<Token> {
    let mut tokens = vec![];
    let mut depth = 0;
    for line in source.lines() {
        if line.trim().is_empty() {
            continue;
        }
        let indent = (line.len() - line.trim_start().len()) / 4;
        while depth < indent {
            tokens.push(Token::Indent);
            depth += 1;
        }
        while depth > indent {
            tokens.push(Token::Dedent);
            depth -= 1;
        }
        tokenize_line(line.trim(), &mut tokens);
        tokens.push(Token::NewLine);
    }
    while depth > 0 {
        tokens.push(Token::Dedent);
        depth -= 1;
    }
    tokens
}

struct Parser {
    tokens: Vec<Token>,
    at: usize,
}

impl Parser {
    fn peek(&self) -> Option<&Token> {
        self.tokens.get(self.at)
    }

    fn is_symbol(&self, symbol: &str) -> bool {
        matches!(self.peek(), Some(Token::Symbol(s)) if *s == symbol)
    }

    fn is_name(&self, name: &str) -> bool {
        matches!(self.peek(), Some(Token::Name(n)) if n == name)
    }

    fn accept(&mut self, symbol: &str) -> bool {
        if self.is_symbol(symbol) {
            self.at += 1;
            true
        } else {
            false
        }
    }

    fn expect(&mut self, symbol: &str) {
        assert!(self.accept(symbol), "expected {} at {:?}", symbol, self.peek());
    }

    fn name(&mut self) -> String {
        match self.tokens[self.at].clone() {
            Token::Name(n) => {
                self.at += 1;
                n
            }
            other => panic!("expected a name, found {:?}", other),
        }
    }

    fn parse_type(&mut self) -> ASTType {
        let name = self.name();
        if self.accept("<") {
            let mut args = vec![self.parse_type()];
            while self.accept(",") {
                args.push(self.parse_type());
            }
            self.expect(">");
            ASTType::Generic(name, args)
        } else {
            ASTType::Simple(name)
        }
    }

    fn parse_list(&mut self, close: &str) -> Vec<Expr> {
        let mut items = vec![];
        if !self.is_symbol(close) {
            items.push(self.parse_expr(0));
            while self.accept(",") {
                items.push(self.parse_expr(0));
            }
        }
        self.expect(close);
        items
    }

    fn parse_atom(&mut self) -> Expr {
        let token = self.tokens[self.at].clone();
        self.at += 1;
        let mut expr = match token {
            Token::Integer(i) => Expr::IntegerValue(i),
            Token::Real(f) => Expr::FloatValue(Float::from_bits(f.to_bits())),
            Token::Text(s) => Expr::StringValue(s),
            Token::Name(n) if n == "True" => Expr::BooleanValue(true),
            Token::Name(n) if n == "False" => Expr::BooleanValue(false),
            Token::Name(n) if n == "None" => Expr::NoneValue,
            Token::Name(n) if n == "not" => {
                return Expr::UnaryExpression(Operator::Not, Box::new(self.parse_atom()));
            }
            Token::Name(n) => Expr::Variable(n),
            Token::Symbol("-") => {
                return Expr::UnaryExpression(Operator::Minus, Box::new(self.parse_atom()));
            }
            Token::Symbol("+") => {
                return Expr::UnaryExpression(Operator::Plus, Box::new(self.parse_atom()));
            }
            Token::Symbol("(") => {
                // parentheses only group: the tree keeps no trace of them
                let inner = self.parse_expr(0);
                self.expect(")");
                inner
            }
            Token::Symbol("[") => Expr::Array(self.parse_list("]")),
            other => panic!("unexpected {:?}", other),
        };
        loop {
            if self.accept("(") {
                expr = Expr::FunctionCall(Box::new(expr), self.parse_list(")"));
            } else if self.accept("[") {
                let index = self.parse_expr(0);
                self.expect("]");
                expr = Expr::IndexAccess(Box::new(expr), Box::new(index));
            } else if self.accept(".") {
                expr = Expr::MemberAccess(Box::new(expr), self.name());
            } else {
                return expr;
            }
        }
    }

    fn binary_operator(&self) -> Option<(Operator, u8)> {
        match self.peek() {
            Some(Token::Symbol(s)) => match *s {
                "*" => Some((Operator::Multiply, 5)),
                "/" => Some((Operator::Divide, 5)),
                "%" => Some((Operator::Mod, 5)),
                "+" => Some((Operator::Plus, 4)),
                "-" => Some((Operator::Minus, 4)),
                "<<" => Some((Operator::BitShiftLeft, 3)),
                ">>" => Some((Operator::BitShiftRight, 3)),
                "==" => Some((Operator::Equals, 2)),
                "!=" => Some((Operator::NotEquals, 2)),
                ">=" => Some((Operator::GreaterEquals, 2)),
                "<=" => Some((Operator::LessEquals, 2)),
                ">" => Some((Operator::Greater, 2)),
                "<" => Some((Operator::Less, 2)),
                "^" => Some((Operator::Xor, 1)),
                _ => None,
            },
            Some(Token::Name(n)) if n == "and" => Some((Operator::And, 0)),
            Some(Token::Name(n)) if n == "or" => Some((Operator::Or, 0)),
            _ => None,
        }
    }

    fn parse_expr(&mut self, min: u8) -> Expr {
        let mut lhs = self.parse_atom();
        while let Some((operator, level)) = self.binary_operator() {
            if level < min {
                break;
            }
            self.at += 1;
            let rhs = self.parse_expr(level + 1);
            lhs = Expr::BinaryOperation(Box::new(lhs), operator, Box::new(rhs));
        }
        lhs
    }

    fn parse_block(&mut self) -> Vec<AST> {
        self.expect(":");
        assert_eq!(self.tokens[self.at], Token::NewLine);
        self.at += 1;
        assert_eq!(self.tokens[self.at], Token::Indent);
        self.at += 1;
        let mut body = vec![];
        while self.tokens[self.at] != Token::Dedent {
            body.push(self.parse_statement());
        }
        self.at += 1;
        body
    }

    fn end_of_line(&mut self) {
        assert_eq!(self.tokens[self.at], Token::NewLine);
        self.at += 1;
    }

    fn parse_statement(&mut self) -> AST {
        if self.is_name("def") {
            self.at += 1;
            let function_name = self.name();
            self.expect("(");
            let mut parameters = vec![];
            while !self.is_symbol(")") {
                let name = self.name();
                self.expect(":");
                parameters.push(TypeBoundName { name, name_type: self.parse_type() });
                self.accept(",");
            }
            self.expect(")");
            let return_type = if self.accept("->") { Some(self.parse_type()) } else { None };
            let body = self.parse_block();
            return AST::DeclareFunction { function_name, parameters, body, return_type };
        }
        if self.is_name("if") {
            self.at += 1;
            let condition = self.parse_expr(0);
            let true_branch = self.parse_block();
            let false_branch = if self.is_name("else") {
                self.at += 1;
                self.parse_block()
            } else {
                vec![]
            };
            return AST::If(condition, true_branch, false_branch);
        }
        if self.is_name("return") {
            self.at += 1;
            if self.tokens[self.at] == Token::NewLine {
                self.at += 1;
                return AST::Return(None);
            }
            let value = self.parse_expr(0);
            self.end_of_line();
            return AST::Return(Some(value));
        }
        let start = self.at;
        if let Some(Token::Name(_)) = self.peek() {
            let first = self.name();
            if self.accept(":") {
                let name_type = self.parse_type();
                self.expect("=");
                let expression = self.parse_expr(0);
                self.end_of_line();
                return AST::Declare { var: TypeBoundName { name: first, name_type }, expression };
            }
            let mut path = vec![first];
            while self.accept(".") {
                path.push(self.name());
            }
            if self.accept("=") {
                let expression = self.parse_expr(0);
                self.end_of_line();
                return AST::Assign { path, expression };
            }
        }
        self.at = start;
        let expression = self.parse_expr(0);
        self.end_of_line();
        AST::StandaloneExpr(expression)
    }
}

fn parse_ast(source: &str) -> Vec<AST> {
    let mut parser = Parser { tokens: tokenize(source), at: 0 };
    let mut nodes = vec![];
    while parser.at < parser.tokens.len() {
        nodes.push(parser.parse_statement());
    }
    nodes
}

/// Source text, lowered.
fn parse(source: &str) -> Vec<HIR> {
    let root = AST::Root(parse_ast(source));
    assert!(can_lower(&root, 0));
    let mut result = vec![];
    ast_to_hir(&root, 0, &mut result);
    result
}

/// Source text, analysed.
fn hir(source: &str) -> Result<AnalysisResult, AnalysisError> {
    do_analysis(&AST::Root(parse_ast(source)))
}

// ---------------------------------------------------------------------
// A printer of typed statements.
// ---------------------------------------------------------------------

fn print_trivial(leaf: &TypedTrivialHIRExpr) -> String {
    match &leaf.0 {
        TrivialHIRExpr::IntegerValue(i) => format!("{}", i),
        TrivialHIRExpr::FloatValue(f) => format!("{}", f64::from_bits(f.to_bits())),
        TrivialHIRExpr::StringValue(s) => format!("\"{}\"", s),
        TrivialHIRExpr::BooleanValue(b) => (if *b { "True" } else { "False" }).to_string(),
        TrivialHIRExpr::Variable(v) => v.clone(),
        TrivialHIRExpr::NoneValue => "None".to_string(),
    }
}

fn print_trivials(leaves: &[TypedTrivialHIRExpr]) -> String {
    leaves.iter().map(print_trivial).collect::<Vec<_>>().join(", ")
}

fn print_expr(expr: &HIRExpr) -> String {
    match expr {
        HIRExpr::Trivial(leaf) => print_trivial(leaf),
        HIRExpr::Cast(_, leaf) => format!("cast({})", print_trivial(leaf)),
        HIRExpr::BinaryOperation(lhs, op, rhs, _) => {
            format!("{} {} {}", print_trivial(lhs), operator_str(*op), print_trivial(rhs))
        }
        HIRExpr::FunctionCall(function, args, _) => {
            format!("{}({})", print_trivial(function), print_trivials(args))
        }
        HIRExpr::UnaryExpression(op, operand, _) => {
            format!("{}{}", operator_str(*op), print_trivial(operand))
        }
        HIRExpr::MemberAccess(object, member, _) => format!("{}.{}", print_trivial(object), member),
        HIRExpr::Array(items, _) => format!("[{}]", print_trivials(items)),
    }
}

fn print_slot(slot: &HIRTypeDef, type_db: &TypeDatabase) -> String {
    match slot {
        HIRTypeDef::Pending => "UNKNOWN_TYPE".to_string(),
        HIRTypeDef::Unresolved(written) => format!("UNRESOLVED {}", written.string()),
        HIRTypeDef::Resolved(resolved) => resolved.string(type_db),
    }
}

fn print_body(body: &[HIR], type_db: &TypeDatabase, indent: &str, out: &mut String) {
    for node in body {
        match node {
            HIR::Assign { path, expression } => {
                out.push_str(&format!("{}{} = {}\n", indent, path.join("."), print_expr(expression)));
            }
            HIR::Declare { var, typename, expression } => {
                out.push_str(&format!(
                    "{}{} : {} = {}\n",
                    indent,
                    var,
                    print_slot(typename, type_db),
                    print_expr(expression)
                ));
            }
            HIR::DeclareFunction { function_name, parameters, body, return_type } => {
                let parameters = parameters
                    .iter()
                    .map(|p| format!("{}: {}", p.name, print_slot(&p.typename, type_db)))
                    .collect::<Vec<_>>()
                    .join(", ");
                out.push_str(&format!(
                    "{}def {}({}) -> {}:\n",
                    indent,
                    function_name,
                    parameters,
                    print_slot(return_type, type_db)
                ));
                print_body(body, type_db, &format!("{}    ", indent), out);
            }
            HIR::StructDeclaration { struct_name, body } => {
                out.push_str(&format!("{}struct {}:\n", indent, struct_name));
                for field in body {
                    out.push_str(&format!(
                        "{}    {}: {}\n",
                        indent,
                        field.name,
                        print_slot(&field.typename, type_db)
                    ));
                }
            }
            HIR::FunctionCall { function, args } => {
                out.push_str(&format!(
                    "{}{}({})\n",
                    indent,
                    print_trivial(function),
                    print_trivials(args)
                ));
            }
            HIR::If(condition, true_branch, false_branch) => {
                out.push_str(&format!("{}if {}:\n", indent, print_trivial(condition)));
                print_body(true_branch, type_db, &format!("{}    ", indent), out);
                out.push_str(&format!("{}else:\n", indent));
                print_body(false_branch, type_db, &format!("{}    ", indent), out);
            }
            HIR::Return(expression) => {
                out.push_str(&format!("{}return {}\n", indent, print_expr(expression)));
            }
            HIR::EmptyReturn => out.push_str(&format!("{}return\n", indent)),
        }
    }
}

fn print_hir(mir: &[HIR], type_db: &TypeDatabase) -> String {
    let mut out = String::new();
    print_body(mir, type_db, "", &mut out);
    out
}

// ---------------------------------------------------------------------
// Builders for expected values.
// ---------------------------------------------------------------------

fn untyped(leaf: TrivialHIRExpr) -> TypedTrivialHIRExpr {
    TypedTrivialHIRExpr(leaf, HIRTypeDef::Pending)
}

fn typed(leaf: TrivialHIRExpr, t: &TypeInstance) -> TypedTrivialHIRExpr {
    TypedTrivialHIRExpr(leaf, HIRTypeDef::Resolved(t.clone()))
}

fn variable(name: &str) -> TrivialHIRExpr {
    TrivialHIRExpr::Variable(name.into())
}

fn type_id(type_db: &TypeDatabase, name: &str) -> usize {
    type_db.find_by_name(name).unwrap().id
}

// ---------------------------------------------------------------------
// Lowering.
// ---------------------------------------------------------------------

#[test]
fn hir_multiline_code() {
    let result = parse(
        "
x = 'abc' + 'cde'
y = x + str(True)",
    );

    let expected = vec![
        HIR::Assign {
            path: vec!["x".into()],
            expression: HIRExpr::BinaryOperation(
                untyped(TrivialHIRExpr::StringValue("abc".into())),
                Operator::Plus,
                untyped(TrivialHIRExpr::StringValue("cde".into())),
                HIRTypeDef::Pending,
            ),
        },
        HIR::Declare {
            var: "$0".into(),
            typename: HIRTypeDef::Pending,
            expression: HIRExpr::FunctionCall(
                untyped(TrivialHIRExpr::Variable("str".into())),
                vec![untyped(TrivialHIRExpr::BooleanValue(true))],
                HIRTypeDef::Pending,
            ),
        },
        HIR::Assign {
            path: vec!["y".into()],
            expression: HIRExpr::BinaryOperation(
                untyped(TrivialHIRExpr::Variable("x".into())),
                Operator::Plus,
                untyped(TrivialHIRExpr::Variable("$0".into())),
                HIRTypeDef::Pending,
            ),
        },
    ];

    assert_eq!(expected, result);
}

#[test]
fn complex_code() {
    let result = parse(
        "
def main(args: List<String>):
    minus: i32 = -my_function(99, 999)
    numbers = [1,2, -3, minus]
    r1 = my_function(1, 2)
    r2 = my_function2(3, 4)
    r3 = my_function(numbers[1], numbers[2])
    print(r1 + r2 + r3)

def my_function(arg1: i32, arg2: i32) -> i32:
    return arg1 * arg2 / (arg2 - arg1)

def my_function2(arg1: i32, arg2: i32) -> i32:
    result1: i32 = my_function(arg1, arg2 + 1)
    result2 = pow(arg1, arg2 * 9)
    return my_function(result1, result2)
",
    );

    let debug_view_expected = "[DeclareFunction { function_name: \"main\", parameters: [HIRTypedBoundName { name: \"args\", typename: Unresolved(Generic(\"List\", [Simple(\"String\")])) }], body: [Declare { var: \"$0\", typename: Pending, expression: FunctionCall(TypedTrivialHIRExpr(Variable(\"my_function\"), Pending), [TypedTrivialHIRExpr(IntegerValue(99), Pending), TypedTrivialHIRExpr(IntegerValue(999), Pending)], Pending) }, Declare { var: \"minus\", typename: Unresolved(Simple(\"i32\")), expression: UnaryExpression(Minus, TypedTrivialHIRExpr(Variable(\"$0\"), Pending), Pending) }, Declare { var: \"$1\", typename: Pending, expression: UnaryExpression(Minus, TypedTrivialHIRExpr(IntegerValue(3), Pending), Pending) }, Assign { path: [\"numbers\"], expression: Array([TypedTrivialHIRExpr(IntegerValue(1), Pending), TypedTrivialHIRExpr(IntegerValue(2), Pending), TypedTrivialHIRExpr(Variable(\"$1\"), Pending), TypedTrivialHIRExpr(Variable(\"minus\"), Pending)], Pending) }, Assign { path: [\"r1\"], expression: FunctionCall(TypedTrivialHIRExpr(Variable(\"my_function\"), Pending), [TypedTrivialHIRExpr(IntegerValue(1), Pending), TypedTrivialHIRExpr(IntegerValue(2), Pending)], Pending) }, Assign { path: [\"r2\"], expression: FunctionCall(TypedTrivialHIRExpr(Variable(\"my_function2\"), Pending), [TypedTrivialHIRExpr(IntegerValue(3), Pending), TypedTrivialHIRExpr(IntegerValue(4), Pending)], Pending) }, Declare { var: \"$2\", typename: Pending, expression: MemberAccess(TypedTrivialHIRExpr(Variable(\"numbers\"), Pending), \"__index__\", Pending) }, Declare { var: \"$3\", typename: Pending, expression: FunctionCall(TypedTrivialHIRExpr(Variable(\"$2\"), Pending), [TypedTrivialHIRExpr(IntegerValue(1), Pending)], Pending) }, Declare { var: \"$4\", typename: Pending, expression: MemberAccess(TypedTrivialHIRExpr(Variable(\"numbers\"), Pending), \"__index__\", Pending) }, Declare { var: \"$5\", typename: Pending, expression: FunctionCall(TypedTrivialHIRExpr(Variable(\"$4\"), Pending), [TypedTrivialHIRExpr(IntegerValue(2), Pending)], Pending) }, Assign { path: [\"r3\"], expression: FunctionCall(TypedTrivialHIRExpr(Variable(\"my_function\"), Pending), [TypedTrivialHIRExpr(Variable(\"$3\"), Pending), TypedTrivialHIRExpr(Variable(\"$5\"), Pending)], Pending) }, Declare { var: \"$6\", typename: Pending, expression: BinaryOperation(TypedTrivialHIRExpr(Variable(\"r1\"), Pending), Plus, TypedTrivialHIRExpr(Variable(\"r2\"), Pending), Pending) }, Declare { var: \"$7\", typename: Pending, expression: BinaryOperation(TypedTrivialHIRExpr(Variable(\"$6\"), Pending), Plus, TypedTrivialHIRExpr(Variable(\"r3\"), Pending), Pending) }, FunctionCall { function: TypedTrivialHIRExpr(Variable(\"print\"), Pending), args: [TypedTrivialHIRExpr(Variable(\"$7\"), Pending)] }], return_type: Unresolved(Simple(\"Void\")) }, DeclareFunction { function_name: \"my_function\", parameters: [HIRTypedBoundName { name: \"arg1\", typename: Unresolved(Simple(\"i32\")) }, HIRTypedBoundName { name: \"arg2\", typename: Unresolved(Simple(\"i32\")) }], body: [Declare { var: \"$0\", typename: Pending, expression: BinaryOperation(TypedTrivialHIRExpr(Variable(\"arg1\"), Pending), Multiply, TypedTrivialHIRExpr(Variable(\"arg2\"), Pending), Pending) }, Declare { var: \"$1\", typename: Pending, expression: BinaryOperation(TypedTrivialHIRExpr(Variable(\"arg2\"), Pending), Minus, TypedTrivialHIRExpr(Variable(\"arg1\"), Pending), Pending) }, Return(BinaryOperation(TypedTrivialHIRExpr(Variable(\"$0\"), Pending), Divide, TypedTrivialHIRExpr(Variable(\"$1\"), Pending), Pending))], return_type: Unresolved(Simple(\"i32\")) }, DeclareFunction { function_name: \"my_function2\", parameters: [HIRTypedBoundName { name: \"arg1\", typename: Unresolved(Simple(\"i32\")) }, HIRTypedBoundName { name: \"arg2\", typename: Unresolved(Simple(\"i32\")) }], body: [Declare { var: \"$0\", typename: Pending, expression: BinaryOperation(TypedTrivialHIRExpr(Variable(\"arg2\"), Pending), Plus, TypedTrivialHIRExpr(IntegerValue(1), Pending), Pending) }, Declare { var: \"result1\", typename: Unresolved(Simple(\"i32\")), expression: FunctionCall(TypedTrivialHIRExpr(Variable(\"my_function\"), Pending), [TypedTrivialHIRExpr(Variable(\"arg1\"), Pending), TypedTrivialHIRExpr(Variable(\"$0\"), Pending)], Pending) }, Declare { var: \"$1\", typename: Pending, expression: BinaryOperation(TypedTrivialHIRExpr(Variable(\"arg2\"), Pending), Multiply, TypedTrivialHIRExpr(IntegerValue(9), Pending), Pending) }, Assign { path: [\"result2\"], expression: FunctionCall(TypedTrivialHIRExpr(Variable(\"pow\"), Pending), [TypedTrivialHIRExpr(Variable(\"arg1\"), Pending), TypedTrivialHIRExpr(Variable(\"$1\"), Pending)], Pending) }, Return(FunctionCall(TypedTrivialHIRExpr(Variable(\"my_function\"), Pending), [TypedTrivialHIRExpr(Variable(\"result1\"), Pending), TypedTrivialHIRExpr(Variable(\"result2\"), Pending)], Pending))], return_type: Unresolved(Simple(\"i32\")) }]";

    assert_eq!(debug_view_expected, format!("{:?}", result));
}

// ---------------------------------------------------------------------
// The whole analysis.
// ---------------------------------------------------------------------

#[test]
fn simple_test() {
    let result = hir(
        "
def my_function(arg1: i32, arg2: i32) -> i32:
    return arg1 * arg2 / (arg2 - arg1)",
    )
    .unwrap();
    let type_db = result.type_db;
    let i32_type = TypeInstance::Simple(type_db.find_by_name("i32").unwrap().id);

    let body = vec![
        HIR::Declare {
            var: "$0".into(),
            typename: HIRTypeDef::Resolved(i32_type.clone()),
            expression: HIRExpr::BinaryOperation(
                typed(TrivialHIRExpr::Variable("arg1".into()), &i32_type),
                Operator::Multiply,
                typed(TrivialHIRExpr::Variable("arg2".into()), &i32_type),
                HIRTypeDef::Resolved(i32_type.clone()),
            ),
        },
        HIR::Declare {
            var: "$1".into(),
            typename: HIRTypeDef::Resolved(i32_type.clone()),
            expression: HIRExpr::BinaryOperation(
                typed(TrivialHIRExpr::Variable("arg2".into()), &i32_type),
                Operator::Minus,
                typed(TrivialHIRExpr::Variable("arg1".into()), &i32_type),
                HIRTypeDef::Resolved(i32_type.clone()),
            ),
        },
        HIR::Return(HIRExpr::BinaryOperation(
            typed(TrivialHIRExpr::Variable("$0".into()), &i32_type),
            Operator::Divide,
            typed(TrivialHIRExpr::Variable("$1".into()), &i32_type),
            HIRTypeDef::Resolved(i32_type.clone()),
        )),
    ];

    let expected = vec![HIR::DeclareFunction {
        function_name: "my_function".into(),
        parameters: vec![
            HIRTypedBoundName {
                name: "arg1".into(),
                typename: HIRTypeDef::Resolved(i32_type.clone()),
            },
            HIRTypedBoundName {
                name: "arg2".into(),
                typename: HIRTypeDef::Resolved(i32_type.clone()),
            },
        ],
        body,
        return_type: HIRTypeDef::Resolved(i32_type.clone()),
    }];

    assert_eq!(expected, result.final_mir);
}

#[test]
fn alternative_test() {
    let analyzed = hir(
        "
def my_function(arg1: i32, arg2: i32) -> i32:
    return arg1 * arg2 / (arg2 - arg1)",
    )
    .unwrap();

    let result = print_hir(&analyzed.final_mir, &analyzed.type_db);

    let expected = "
def my_function(arg1: i32, arg2: i32) -> i32:
    $0 : i32 = arg1 * arg2
    $1 : i32 = arg2 - arg1
    return $0 / $1";

    assert_eq!(expected.trim(), result.trim());
}

#[test]
fn default_void_return() {
    let analyzed = hir(
        "
def main(args: array<str>):
    print(10)",
    )
    .unwrap();

    let result = print_hir(&analyzed.final_mir, &analyzed.type_db);

    let expected = "
def main(args: array<str>) -> Void:
    print(10)";

    assert_eq!(expected.trim(), result.trim());
}

#[test]
fn infer_variable_type_as_int() {
    let analyzed = hir(
        "
def main(args: array<str>):
    my_var = 10
    print(my_var)",
    )
    .unwrap();

    let result = print_hir(&analyzed.final_mir, &analyzed.type_db);

    let expected = "
def main(args: array<str>) -> Void:
    my_var : i32 = 10
    print(my_var)";

    assert_eq!(expected.trim(), result.trim());
}

#[test]
fn infer_generic_type_as_str() {
    let analyzed = hir(
        "
def main(args: array<str>):
    my_var = args[0]
    print(my_var)",
    )
    .unwrap();

    let final_result = print_hir(&analyzed.final_mir, &analyzed.type_db);
    println!("{}", final_result);
    let expected = "
def main(args: array<str>) -> Void:
    $0 : fn (u32) -> str = args.__index__
    my_var : str = $0(0)
    print(my_var)";

    assert_eq!(expected.trim(), final_result.trim());
}

#[test]
fn infer_defined_function_return_type() {
    let analyzed = hir(
        "
def sum(x: i32, y: i32) -> i32:
    return x + y

def main():
    my_var = sum(1, 2)
    print(my_var)",
    )
    .unwrap();

    let final_result = print_hir(&analyzed.final_mir, &analyzed.type_db);
    println!("{}", final_result);
    let expected = "
def sum(x: i32, y: i32) -> i32:
    return x + y
def main() -> Void:
    my_var : i32 = sum(1, 2)
    print(my_var)";

    assert_eq!(expected.trim(), final_result.trim());
}

#[test]
fn infer_defined_function_generic_param() {
    let analyzed = hir(
        "
def id(x: array<str>) -> str:
    return x[0]

def main():
    my_var = id(1)
    print(my_var)",
    )
    .unwrap();

    let final_result = print_hir(&analyzed.final_mir, &analyzed.type_db);
    println!("{}", final_result);
    let expected = "
def id(x: array<str>) -> str:
    $0 : fn (u32) -> str = x.__index__
    return $0(0)
def main() -> Void:
    my_var : str = id(1)
    print(my_var)";

    assert_eq!(expected.trim(), final_result.trim());
}

#[test]
fn semi_first_class_functions() {
    let analyzed = hir(
        "
def id(x: array<str>) -> str:
    return x[0]

def main():
    my_func = id
    my_var = my_func(1)
    print(my_var)",
    )
    .unwrap();

    let final_result = print_hir(&analyzed.final_mir, &analyzed.type_db);
    println!("{}", final_result);
    let expected = "
def id(x: array<str>) -> str:
    $0 : fn (u32) -> str = x.__index__
    return $0(0)
def main() -> Void:
    my_func : fn (array<str>) -> str = id
    my_var : str = my_func(1)
    print(my_var)";

    assert_eq!(expected.trim(), final_result.trim());
}

#[test]
fn access_property_of_struct_and_infer_type() {
    let analyzed = hir(
        "
def main():
    my_array = [1, 2, 3]
    my_array_length = my_array.length
    print(my_array_length)",
    )
    .unwrap();

    let final_result = print_hir(&analyzed.final_mir, &analyzed.type_db);
    println!("{}", final_result);
    let expected = "
def main() -> Void:
    my_array : array<i32> = [1, 2, 3]
    my_array_length : u32 = my_array.length
    print(my_array_length)";

    assert_eq!(expected.trim(), final_result.trim());
}

#[test]
fn return_expr() {
    let analyzed = hir(
        "
def main(x: i32) -> i32:
    y = 0
    return x + y
",
    )
    .unwrap();

    let final_result = print_hir(&analyzed.final_mir, &analyzed.type_db);
    println!("{}", final_result);
    let expected = "
def main(x: i32) -> i32:
    y : i32 = 0
    return x + y";

    assert_eq!(expected.trim(), final_result.trim());
}

#[test]
fn self_decl_read() {
    let result = hir(
        "
def main(x: i32) -> i32:
    y = y + 1
",
    );
    let err = result.err().unwrap();
    assert_eq!(
        err,
        AnalysisError::Scope(ScopeError::VariableNotFound {
            variable: "y".into(),
            function: "main".into()
        })
    );
    match err {
        AnalysisError::Scope(e) => assert_eq!(e.message(), "Variable y not found, function: main"),
        _ => unreachable!(),
    }
}

#[test]
fn self_decl_read_expr() {
    let result = hir(
        "
def main(x: i32) -> i32:
    a = 1
    b = 2
    y = (a + b * (x / y)) / 2
",
    );
    let err = result.err().unwrap();
    match err {
        AnalysisError::Scope(e) => assert_eq!(e.message(), "Variable y not found, function: main"),
        other => panic!("{:?}", other),
    }
}

#[test]
fn snapshots_of_the_passes_are_kept() {
    let analyzed = hir(
        "
def main(x: i32) -> i32:
    y = x
    return y
",
    )
    .unwrap();
    // as lowered, the first assignment is an assignment
    match &analyzed.initial_mir[0] {
        HIR::DeclareFunction { body, .. } => assert!(matches!(body[0], HIR::Assign { .. })),
        other => panic!("{:?}", other),
    }
    // after promotion it is a declaration with a pending type
    match &analyzed.after_make_declarations_mir[0] {
        HIR::DeclareFunction { body, .. } => match &body[0] {
            HIR::Declare { var, typename, .. } => {
                assert_eq!(var, "y");
                assert_eq!(*typename, HIRTypeDef::Pending);
            }
            other => panic!("{:?}", other),
        },
        other => panic!("{:?}", other),
    }
    assert_eq!(analyzed.type_db.types.len(), 8);
}

#[test]
fn function_is_registered_with_its_signature() {
    let mir = parse(
        "
def f(a: i32, b: i32) -> i32:
    return a * b / (b - a)
",
    );
    let type_db = TypeDatabase::new();
    let mut globals = build_name_registry(&type_db, &mir);
    assert_eq!(
        globals.get("f"),
        Some(&HIRTypeDef::Unresolved(HIRType::Function(
            vec![HIRType::Simple("i32".into()), HIRType::Simple("i32".into())],
            Box::new(HIRType::Simple("i32".into()))
        )))
    );
    let mir = transform_first_assignment_into_declaration(mir);
    assert_eq!(detect_undeclared_vars_and_redeclarations(&globals, &mir), Ok(()));
    infer_types(&mut globals, &type_db, mir).unwrap();
    let i32_type = TypeInstance::Simple(type_id(&type_db, "i32"));
    assert_eq!(
        globals.get("f"),
        Some(&HIRTypeDef::Resolved(TypeInstance::Function(
            vec![i32_type.clone(), i32_type.clone()],
            Box::new(i32_type)
        )))
    );
}

#[test]
fn index_access_is_a_call_of_the_index_method() {
    let analyzed = hir(
        "
def main(args: array<str>):
    first = args[0]
",
    )
    .unwrap();
    let type_db = &analyzed.type_db;
    let str_type = TypeInstance::Simple(type_id(type_db, "str"));
    let u32_type = TypeInstance::Simple(type_id(type_db, "u32"));
    let i32_type = TypeInstance::Simple(type_id(type_db, "i32"));
    let array_of_str = TypeInstance::Generic(type_id(type_db, "array"), vec![str_type.clone()]);
    let method = TypeInstance::Function(vec![u32_type], Box::new(str_type.clone()));
    match &analyzed.initial_mir[0] {
        HIR::DeclareFunction { body, .. } => {
            assert_eq!(
                body[0],
                HIR::Declare {
                    var: "$0".into(),
                    typename: HIRTypeDef::Pending,
                    expression: HIRExpr::MemberAccess(
                        untyped(variable("args")),
                        "__index__".into(),
                        HIRTypeDef::Pending
                    ),
                }
            );
            assert_eq!(
                body[1],
                HIR::Assign {
                    path: vec!["first".into()],
                    expression: HIRExpr::FunctionCall(
                        untyped(variable("$0")),
                        vec![untyped(TrivialHIRExpr::IntegerValue(0))],
                        HIRTypeDef::Pending
                    ),
                }
            );
        }
        other => panic!("{:?}", other),
    }
    match &analyzed.final_mir[0] {
        HIR::DeclareFunction { body, .. } => {
            assert_eq!(
                body[0],
                HIR::Declare {
                    var: "$0".into(),
                    typename: HIRTypeDef::Resolved(method.clone()),
                    expression: HIRExpr::MemberAccess(
                        typed(variable("args"), &array_of_str),
                        "__index__".into(),
                        HIRTypeDef::Resolved(method.clone())
                    ),
                }
            );
            assert_eq!(
                body[1],
                HIR::Declare {
                    var: "first".into(),
                    typename: HIRTypeDef::Resolved(str_type.clone()),
                    expression: HIRExpr::FunctionCall(
                        typed(variable("$0"), &method),
                        vec![typed(TrivialHIRExpr::IntegerValue(0), &i32_type)],
                        HIRTypeDef::Resolved(str_type.clone())
                    ),
                }
            );
        }
        other => panic!("{:?}", other),
    }
}

// ---------------------------------------------------------------------
// Lowering, piece by piece.
// ---------------------------------------------------------------------

#[test]
fn synthetic_names_are_a_dollar_and_the_number() {
    assert_eq!(make_intermediary(0), "$0");
    assert_eq!(make_intermediary(7), "$7");
    assert_eq!(make_intermediary(10), "$10");
    assert_eq!(make_intermediary(1203), "$1203");
    assert_eq!(make_intermediary(i32::MAX), "$2147483647");
    assert_eq!(make_intermediary(-5), "$-5");
    assert_eq!(make_intermediary(i32::MIN), "$-2147483648");
}

#[test]
fn literals_and_variables_are_trivial() {
    assert_eq!(
        get_trivial_hir_expr(&Expr::IntegerValue(3)),
        Some(TrivialHIRExpr::IntegerValue(3))
    );
    assert_eq!(
        get_trivial_hir_expr(&Expr::StringValue("a".into())),
        Some(TrivialHIRExpr::StringValue("a".into()))
    );
    assert_eq!(get_trivial_hir_expr(&Expr::NoneValue), Some(TrivialHIRExpr::NoneValue));
    assert_eq!(get_trivial_hir_expr(&Expr::Variable("x".into())), Some(variable("x")));
    assert_eq!(get_trivial_hir_expr(&Expr::Array(vec![])), None);
}

#[test]
fn reducible_is_not_trivial_with_an_operand_that_is_not_trivial() {
    let x = || Box::new(Expr::Variable("x".into()));
    let sum = || Expr::BinaryOperation(x(), Operator::Plus, x());
    assert!(!check_if_reducible(&Expr::Variable("x".into())));
    assert!(!check_if_reducible(&sum()));
    assert!(check_if_reducible(&Expr::BinaryOperation(Box::new(sum()), Operator::Plus, x())));
    assert!(!check_if_reducible(&Expr::FunctionCall(x(), vec![Expr::IntegerValue(1)])));
    assert!(check_if_reducible(&Expr::FunctionCall(x(), vec![Expr::IntegerValue(1), sum()])));
    assert!(check_if_reducible(&Expr::FunctionCall(Box::new(sum()), vec![])));
    assert!(!check_if_reducible(&Expr::Array(vec![])));
    assert!(check_if_reducible(&Expr::Array(vec![sum()])));
    assert!(check_if_reducible(&Expr::IndexAccess(x(), x())));
    assert!(!check_if_reducible(&Expr::MemberAccess(x(), "f".into())));
    assert!(check_if_reducible(&Expr::MemberAccess(Box::new(sum()), "f".into())));
    assert!(!check_if_reducible(&Expr::UnaryExpression(Operator::Minus, x())));
    assert!(check_if_reducible(&Expr::UnaryExpression(Operator::Minus, Box::new(sum()))));
}

#[test]
fn an_operand_becomes_a_synthetic_variable() {
    let x = || Box::new(Expr::Variable("x".into()));
    let sum = Expr::BinaryOperation(x(), Operator::Plus, x());
    let mut accum = vec![];
    let (expr, used) = reduce_expr_to_hir_declarations(&sum, 4, &mut accum, true);
    assert_eq!(used, 1);
    assert_eq!(expr, HIRExpr::Trivial(untyped(variable("$4"))));
    assert_eq!(accum.len(), 1);
    let mut accum = vec![];
    let (expr, used) = reduce_expr_to_hir_declarations(&sum, 4, &mut accum, false);
    assert_eq!(used, 0);
    assert!(accum.is_empty());
    assert_eq!(
        expr,
        HIRExpr::BinaryOperation(
            untyped(variable("x")),
            Operator::Plus,
            untyped(variable("x")),
            HIRTypeDef::Pending
        )
    );
    // a member of something that is not trivial
    let member = Expr::MemberAccess(Box::new(sum), "f".into());
    let mut accum = vec![];
    let (expr, used) = reduce_expr_to_hir_declarations(&member, 0, &mut accum, false);
    assert_eq!(used, 1);
    assert_eq!(
        expr,
        HIRExpr::MemberAccess(untyped(variable("$0")), "f".into(), HIRTypeDef::Pending)
    );
}

#[test]
fn a_conditional_is_lowered_with_its_branches() {
    let mir = parse(
        "
def main(x: i32):
    if x + 1:
        y = x * 2 + 1
    else:
        z = x
    return
",
    );
    let expected_body = vec![
        HIR::Declare {
            var: "$0".into(),
            typename: HIRTypeDef::Pending,
            expression: HIRExpr::BinaryOperation(
                untyped(variable("x")),
                Operator::Plus,
                untyped(TrivialHIRExpr::IntegerValue(1)),
                HIRTypeDef::Pending,
            ),
        },
        HIR::If(
            untyped(variable("$0")),
            vec![
                HIR::Declare {
                    var: "$1".into(),
                    typename: HIRTypeDef::Pending,
                    expression: HIRExpr::BinaryOperation(
                        untyped(variable("x")),
                        Operator::Multiply,
                        untyped(TrivialHIRExpr::IntegerValue(2)),
                        HIRTypeDef::Pending,
                    ),
                },
                HIR::Assign {
                    path: vec!["y".into()],
                    expression: HIRExpr::BinaryOperation(
                        untyped(variable("$1")),
                        Operator::Plus,
                        untyped(TrivialHIRExpr::IntegerValue(1)),
                        HIRTypeDef::Pending,
                    ),
                },
            ],
            vec![HIR::Assign {
                path: vec!["z".into()],
                expression: HIRExpr::Trivial(untyped(variable("x"))),
            }],
        ),
        HIR::EmptyReturn,
    ];
    match &mir[0] {
        HIR::DeclareFunction { body, return_type, .. } => {
            assert_eq!(*body, expected_body);
            assert_eq!(*return_type, HIRTypeDef::Unresolved(HIRType::Simple("Void".into())));
        }
        other => panic!("{:?}", other),
    }
}

#[test]
fn lowering_refuses_what_it_does_not_handle() {
    let x = || Box::new(Expr::Variable("x".into()));
    let wrapped = AST::Return(Some(Expr::Parenthesized(x())));
    assert!(!can_lower(&wrapped, 0));
    let alone = AST::StandaloneExpr(Expr::Variable("x".into()));
    assert!(!can_lower(&alone, 0));
    let call = AST::StandaloneExpr(Expr::FunctionCall(x(), vec![]));
    assert!(can_lower(&call, 0));
    let sum = Expr::BinaryOperation(x(), Operator::Plus, x());
    let nested = AST::Return(Some(Expr::BinaryOperation(Box::new(sum), Operator::Plus, x())));
    assert!(can_lower(&nested, i32::MAX - 1));
    assert!(!can_lower(&nested, i32::MAX));
    assert_eq!(do_analysis(&wrapped).err(), Some(AnalysisError::NotLowerable));
}

// ---------------------------------------------------------------------
// First-assignment promotion and the scope check.
// ---------------------------------------------------------------------

#[test]
fn promotion_is_idempotent() {
    let mir = parse(
        "
def main(x: i32):
    y = x
    y = y + 1
    p.q = 3
    if x:
        t = y
        t = 2
    else:
        t = 1
    t = 0
",
    );
    let once = transform_first_assignment_into_declaration(mir);
    let text = format!("{:?}", once);
    let twice = transform_first_assignment_into_declaration(once);
    assert_eq!(format!("{:?}", twice), text);
    match &twice[0] {
        HIR::DeclareFunction { body, .. } => {
            assert!(matches!(&body[0], HIR::Declare { var, .. } if var == "y"));
            // the second assignment to `y` stays an assignment
            assert!(matches!(&body[1], HIR::Assign { path, .. } if path.len() == 1));
            // a path of several segments is a write to a field
            assert!(matches!(&body[2], HIR::Assign { path, .. } if path.len() == 2));
            match &body[3] {
                HIR::If(_, true_branch, false_branch) => {
                    assert!(matches!(&true_branch[0], HIR::Declare { var, .. } if var == "t"));
                    assert!(matches!(&true_branch[1], HIR::Assign { .. }));
                    assert!(matches!(&false_branch[0], HIR::Declare { var, .. } if var == "t"));
                }
                other => panic!("{:?}", other),
            }
            // what the branches declare stays in the branches
            assert!(matches!(&body[4], HIR::Declare { var, .. } if var == "t"));
            assert_eq!(body.len(), 5);
        }
        other => panic!("{:?}", other),
    }
}

fn scope_check(source: &str) -> Result<(), ScopeError> {
    let mir = parse(source);
    let type_db = TypeDatabase::new();
    let globals = build_name_registry(&type_db, &mir);
    let mir = transform_first_assignment_into_declaration(mir);
    detect_undeclared_vars_and_redeclarations(&globals, &mir)
}

#[test]
fn a_name_declared_twice_is_refused() {
    let result = scope_check(
        "
def main(x: i32):
    y: i32 = 1
    y: i32 = 2
",
    );
    let error = result.err().unwrap();
    assert_eq!(error, ScopeError::VariableDeclaredMoreThanOnce { variable: "y".into() });
    assert_eq!(error.message(), "Variable y declared more than once");
}

#[test]
fn a_write_to_a_field_of_an_undeclared_name_is_refused() {
    let result = scope_check(
        "
def main(x: i32):
    p.q = x
",
    );
    let error = result.err().unwrap();
    assert_eq!(error, ScopeError::AssignToUndeclaredVariable { variable: "p".into() });
    assert_eq!(error.message(), "Assign to undeclared variable p");
}

#[test]
fn a_read_succeeds_only_after_the_declaration() {
    assert_eq!(
        scope_check(
            "
def main(x: i32):
    print(y)
    y = 1
"
        ),
        Err(ScopeError::VariableNotFound { variable: "y".into(), function: "main".into() })
    );
    assert_eq!(
        scope_check(
            "
def main(x: i32):
    y = 1
    print(y)
"
        ),
        Ok(())
    );
    // what a branch declares is not in scope after the conditional
    assert_eq!(
        scope_check(
            "
def main(x: i32):
    if x:
        y = 1
    print(y)
"
        ),
        Err(ScopeError::VariableNotFound { variable: "y".into(), function: "main".into() })
    );
    // what is declared before a conditional is in scope in its branches
    assert_eq!(
        scope_check(
            "
def main(x: i32):
    y = 1
    if y:
        print(y)
    else:
        print(x)
"
        ),
        Ok(())
    );
    // functions are in scope in all functions, whatever their order
    assert_eq!(
        scope_check(
            "
def first():
    second()

def second():
    first()
"
        ),
        Ok(())
    );
}

// ---------------------------------------------------------------------
// Type inference, rule by rule.
// ---------------------------------------------------------------------

fn inference_error(source: &str) -> TypeInferenceError {
    match hir(source) {
        Err(AnalysisError::Type(e)) => e,
        other => panic!("{:?}", other.err()),
    }
}

#[test]
fn literals_have_the_types_of_their_kinds() {
    let analyzed = hir(
        "
def main():
    a = 1
    b = 1.5
    c = 'text'
    d = True
    e = None
",
    )
    .unwrap();
    let printed = print_hir(&analyzed.final_mir, &analyzed.type_db);
    let expected = "
def main() -> Void:
    a : i32 = 1
    b : f32 = 1.5
    c : str = \"text\"
    d : bool = True
    e : None = None";
    assert_eq!(expected.trim(), printed.trim());
}

#[test]
fn a_declaration_keeps_the_type_written_on_it() {
    let analyzed = hir(
        "
def main():
    a: u32 = 1
    b = a
    empty: array<str> = []
",
    )
    .unwrap();
    let printed = print_hir(&analyzed.final_mir, &analyzed.type_db);
    // `a` is declared as written, and is in scope with the type of its expression
    let expected = "
def main() -> Void:
    a : u32 = 1
    b : i32 = a
    empty : array<str> = []";
    assert_eq!(expected.trim(), printed.trim());
}

#[test]
fn an_operator_that_the_types_do_not_have_is_reported() {
    match inference_error(
        "
def main():
    a = 1 + 'text'
",
    ) {
        TypeInferenceError::BinaryOperatorNotFound(e) => {
            assert_eq!(e.on_function, "main");
            assert_eq!(e.operator, Operator::Plus);
            let type_db = TypeDatabase::new();
            assert_eq!(e.lhs, TypeInstance::Simple(type_id(&type_db, "i32")));
            assert_eq!(e.rhs, TypeInstance::Simple(type_id(&type_db, "str")));
        }
        other => panic!("{:?}", other),
    }
    match inference_error(
        "
def main():
    a = -'text'
",
    ) {
        TypeInferenceError::UnaryOperatorNotFound(e) => {
            assert_eq!(e.on_function, "main");
            assert_eq!(e.operator, Operator::Minus);
        }
        other => panic!("{:?}", other),
    }
}

#[test]
fn a_call_of_something_that_is_no_function_is_reported() {
    match inference_error(
        "
def main(x: i32):
    a = x(1)
",
    ) {
        TypeInferenceError::CallToNonCallableType(e) => {
            assert_eq!(e.on_function, "main");
            assert_eq!(e.actual_type, TypeInstance::Simple(type_id(&TypeDatabase::new(), "i32")));
        }
        other => panic!("{:?}", other),
    }
}

#[test]
fn a_member_that_the_type_does_not_have_is_reported() {
    match inference_error(
        "
def main(x: array<i32>):
    a = x.size
",
    ) {
        TypeInferenceError::FieldOrMethodNotFound(e) => {
            assert_eq!(e.on_function, "main");
            assert_eq!(e.field_or_method, "size");
        }
        other => panic!("{:?}", other),
    }
}

#[test]
fn an_empty_array_without_a_hint_is_reported() {
    match inference_error(
        "
def main():
    a = []
",
    ) {
        TypeInferenceError::InsufficientTypeInformationForArray(e) => {
            assert_eq!(e.on_function, "main")
        }
        other => panic!("{:?}", other),
    }
}

#[test]
fn a_type_that_is_not_known_is_reported() {
    match inference_error(
        "
def main(x: Matrix):
    return
",
    ) {
        TypeInferenceError::TypeNotFound(e) => {
            assert_eq!(e.on_function, "main");
            assert_eq!(e.missing_type, HIRType::Simple("Matrix".into()));
        }
        other => panic!("{:?}", other),
    }
    // a generic type needs its arguments
    match inference_error(
        "
def main(x: array):
    return
",
    ) {
        TypeInferenceError::TypeNotFound(e) => {
            assert_eq!(e.missing_type, HIRType::Simple("array".into()))
        }
        other => panic!("{:?}", other),
    }
}

#[test]
fn an_operation_on_a_function_is_reported() {
    match inference_error(
        "
def f():
    return

def main():
    a = f + 1
",
    ) {
        TypeInferenceError::UnexpectedTypeFound(e) => {
            assert_eq!(e.on_function, "main");
            assert!(matches!(e.type_def, TypeInstance::Function(_, _)));
        }
        other => panic!("{:?}", other),
    }
}

#[test]
fn conditions_that_the_earlier_passes_rule_out_are_internal_errors() {
    let type_db = TypeDatabase::new();
    let mut scope = NameRegistry::new();
    scope.insert("later".into(), HIRTypeDef::Pending);
    let read = |name: &str| HIRExpr::Trivial(untyped(variable(name)));
    assert_eq!(
        compute_and_infer_expr_type(&type_db, &scope, &read("nowhere"), None, "f").err(),
        Some(TypeInferenceError::Internal(InternalError::NameNotFound("nowhere".into())))
    );
    assert_eq!(
        compute_and_infer_expr_type(&type_db, &scope, &read("later"), None, "f").err(),
        Some(TypeInferenceError::Internal(InternalError::PendingType("later".into())))
    );
    let cast = HIRExpr::Cast(HIRTypeDef::Pending, untyped(TrivialHIRExpr::IntegerValue(1)));
    assert_eq!(
        compute_and_infer_expr_type(&type_db, &scope, &cast, None, "f").err(),
        Some(TypeInferenceError::Internal(InternalError::CastNotSupported))
    );
}

#[test]
fn written_types_are_instantiated_by_name() {
    let type_db = TypeDatabase::new();
    let array = type_id(&type_db, "array");
    let str_type = type_id(&type_db, "str");
    let written = HIRType::Function(
        vec![HIRType::Generic("array".into(), vec![HIRType::Simple("str".into())])],
        Box::new(HIRType::Simple("Void".into())),
    );
    assert_eq!(
        instantiate_type(&type_db, &written, "f"),
        Ok(TypeInstance::Function(
            vec![TypeInstance::Generic(array, vec![TypeInstance::Simple(str_type)])],
            Box::new(TypeInstance::Simple(type_id(&type_db, "Void")))
        ))
    );
    assert_eq!(written.string(), "fn (array<str>) -> Void");
}

#[test]
fn forward_references_and_recursion_resolve() {
    let analyzed = hir(
        "
def main():
    a = later(1)
    b = main

def later(x: i32) -> str:
    return 'text'
",
    )
    .unwrap();
    let printed = print_hir(&analyzed.final_mir, &analyzed.type_db);
    let expected = "
def main() -> Void:
    a : str = later(1)
    b : fn () -> Void = main
def later(x: i32) -> str:
    return \"text\"";
    assert_eq!(expected.trim(), printed.trim());
}

#[test]
fn branches_are_inferred_in_scopes_of_their_own() {
    let analyzed = hir(
        "
def main(x: i32):
    if x:
        y = 1
    else:
        y = 'text'
    y = True
",
    )
    .unwrap();
    let printed = print_hir(&analyzed.final_mir, &analyzed.type_db);
    let expected = "
def main(x: i32) -> Void:
    if x:
        y : i32 = 1
    else:
        y : str = \"text\"
    y : bool = True";
    assert_eq!(expected.trim(), printed.trim());
}

// ---------------------------------------------------------------------
// What holds of every program.
// ---------------------------------------------------------------------

fn slot_is_resolved(slot: &HIRTypeDef) -> bool {
    matches!(slot, HIRTypeDef::Resolved(_))
}

fn expr_is_resolved(expr: &HIRExpr) -> bool {
    let leaf = |l: &TypedTrivialHIRExpr| slot_is_resolved(&l.1);
    match expr {
        HIRExpr::Trivial(l) => leaf(l),
        HIRExpr::Cast(t, l) => slot_is_resolved(t) && leaf(l),
        HIRExpr::BinaryOperation(a, _, b, t) => leaf(a) && leaf(b) && slot_is_resolved(t),
        HIRExpr::FunctionCall(f, args, t) => leaf(f) && args.iter().all(leaf) && slot_is_resolved(t),
        HIRExpr::UnaryExpression(_, a, t) => leaf(a) && slot_is_resolved(t),
        HIRExpr::MemberAccess(o, _, t) => leaf(o) && slot_is_resolved(t),
        HIRExpr::Array(items, t) => items.iter().all(leaf) && slot_is_resolved(t),
    }
}

fn body_is_resolved(body: &[HIR]) -> bool {
    body.iter().all(|node| match node {
        HIR::Assign { expression, .. } => expr_is_resolved(expression),
        HIR::Declare { typename, expression, .. } => {
            slot_is_resolved(typename) && expr_is_resolved(expression)
        }
        HIR::DeclareFunction { parameters, body, return_type, .. } => {
            parameters.iter().all(|p| slot_is_resolved(&p.typename))
                && slot_is_resolved(return_type)
                && body_is_resolved(body)
        }
        HIR::StructDeclaration { body, .. } => body.iter().all(|f| slot_is_resolved(&f.typename)),
        HIR::FunctionCall { function, args } => {
            slot_is_resolved(&function.1) && args.iter().all(|a| slot_is_resolved(&a.1))
        }
        HIR::If(condition, true_branch, false_branch) => {
            slot_is_resolved(&condition.1)
                && body_is_resolved(true_branch)
                && body_is_resolved(false_branch)
        }
        HIR::Return(expression) => expr_is_resolved(expression),
        HIR::EmptyReturn => true,
    })
}

fn synthetic_names(body: &[HIR], names: &mut Vec<String>) {
    for node in body {
        match node {
            HIR::Declare { var, typename: HIRTypeDef::Pending, .. } => names.push(var.clone()),
            HIR::If(_, true_branch, false_branch) => {
                synthetic_names(true_branch, names);
                synthetic_names(false_branch, names);
            }
            _ => {}
        }
    }
}

const LARGER_PROGRAM: &str = "
def pick(values: array<i32>, at: i32) -> i32:
    if values.length:
        first = values[0] * values[1] + values[2] * (at - 1)
        return first / (values[3] - values[at])
    else:
        return -at * (at + at)
    return

def main(args: array<str>):
    numbers = [1, 2 * 3, pick([4, 5], 0)]
    total = pick(numbers, numbers[0] + numbers[1])
    print(total)
";

#[test]
fn after_inference_no_type_slot_is_open() {
    let analyzed = hir(LARGER_PROGRAM).unwrap();
    assert!(!body_is_resolved(&analyzed.initial_mir));
    assert!(!body_is_resolved(&analyzed.after_make_declarations_mir));
    assert!(body_is_resolved(&analyzed.final_mir));
}

#[test]
fn synthetic_names_are_unique_within_a_function() {
    let mir = parse(LARGER_PROGRAM);
    assert_eq!(mir.len(), 2);
    let mut counts = vec![];
    for function in &mir {
        match function {
            HIR::DeclareFunction { body, .. } => {
                let mut names = vec![];
                synthetic_names(body, &mut names);
                // numbered one after the other, from 0 on in every function
                let expected: Vec<String> =
                    (0..names.len()).map(|n| make_intermediary(n as i32)).collect();
                assert_eq!(names, expected);
                counts.push(names.len());
            }
            other => panic!("{:?}", other),
        }
    }
    assert_eq!(counts, [17, 8]);
}
