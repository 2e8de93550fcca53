//! The abstract syntax tree of the small source language, with its
//! pretty-printer.  Every printing function returns exactly the text given
//! by the corresponding specification function.

use vstd::prelude::*;

use crate::text::dec_digits;

verus! {

/// A literal value.  A floating-point literal keeps the spelling it had in
/// the source text; the machine itself never computes with it.
#[derive(Debug, Clone, PartialEq)]
pub enum Literal {
    String(String),
    Char(char),
    Float(String),
    Int(u32),
}

/// An expression.
#[derive(Debug, PartialEq)]
pub enum Expr {
    Binary(BinaryExpr),
    Unary(UnaryExpr),
    Literal(Literal),
    Identifier(String),
    Call { name: String, args: Vec<Expr> },
    Grouping(Box<Expr>),
}

/// A boxed expression operand.
pub type ExprBox = Box<Expr>;

/// A binary expression, one variant per operator.
#[derive(Debug, PartialEq)]
pub enum BinaryExpr {
    And(ExprBox, ExprBox),
    Or(ExprBox, ExprBox),
    Equals(ExprBox, ExprBox),
    NotEquals(ExprBox, ExprBox),
    Greater(ExprBox, ExprBox),
    GreaterEqual(ExprBox, ExprBox),
    Less(ExprBox, ExprBox),
    LessEqual(ExprBox, ExprBox),
    Add(ExprBox, ExprBox),
    Subtract(ExprBox, ExprBox),
    Multiply(ExprBox, ExprBox),
    Divide(ExprBox, ExprBox),
    Modulo(ExprBox, ExprBox),
}

/// A unary expression.
#[derive(Debug, PartialEq)]
pub enum UnaryExpr {
    Not(ExprBox),
    Minus(ExprBox),
    Plus(ExprBox),
}

/// A statement.
#[derive(Debug, PartialEq)]
pub enum Stmt {
    Expression(Expr),
    VarDecl { name: String, ty: Option<String>, value: Option<Expr> },
    Assignment { name: String, value: Expr },
    Return(Option<Expr>),
    If { condition: Expr, then_branch: Box<Stmt>, else_branch: Option<Box<Stmt>> },
    While { condition: Expr, body: Box<Stmt> },
    For { var_name: String, var_type: Option<String>, iterable: Expr, body: Box<Stmt> },
    Block(Vec<Stmt>),
    Break,
    Continue,
}

/// A type annotation.
#[derive(Debug, Clone, PartialEq)]
pub enum Type {
    Int,
    Float,
    String,
    Char,
    Custom(String),
}

/// A whole source program: a list of functions.
#[derive(Debug, PartialEq)]
pub struct Program {
    pub functions: Vec<Function>,
}

/// One function: name, parameters, optional return type and a body.
#[derive(Debug, PartialEq)]
pub struct Function {
    pub name: String,
    pub parameters: Vec<Parameter>,
    pub return_type: Option<Type>,
    pub body: Stmt,
}

/// One parameter: a type and a name.
#[derive(Debug, Clone, PartialEq)]
pub struct Parameter {
    pub name: String,
    pub ty: Type,
}

impl Clone for Expr {
    /// A structural copy; nothing is claimed of it in contracts.
    #[verifier::loop_isolation(false)]
    fn clone(&self) -> (r: Self)
        decreases self,
    {
        match self {
            Expr::Binary(b) => Expr::Binary(b.clone()),
            Expr::Unary(u) => Expr::Unary(u.clone()),
            Expr::Literal(l) => Expr::Literal(l.clone()),
            Expr::Identifier(name) => Expr::Identifier(name.clone()),
            Expr::Call { name, args } => {
                let mut copied: Vec<Expr> = Vec::new();
                let n = args.len();
                let mut i: usize = 0;
                while i < n
                    invariant
                        i <= n,
                        n == args@.len(),
                    decreases n - i,
                {
                    proof {
                        assert(decreases_to!(*self => *args));
                        assert(decreases_to!(*args => args@));
                        assert(decreases_to!(args@ => args@[i as int]));
                    }
                    copied.push(args[i].clone());
                    i = i + 1;
                }
                Expr::Call { name: name.clone(), args: copied }
            },
            Expr::Grouping(inner) => Expr::Grouping(Box::new((**inner).clone())),
        }
    }
}

impl Clone for BinaryExpr {
    /// A structural copy; nothing is claimed of it in contracts.
    fn clone(&self) -> (r: Self)
        decreases self,
    {
        match self {
            BinaryExpr::And(l, r) => BinaryExpr::And(
                Box::new((**l).clone()),
                Box::new((**r).clone()),
            ),
            BinaryExpr::Or(l, r) => BinaryExpr::Or(
                Box::new((**l).clone()),
                Box::new((**r).clone()),
            ),
            BinaryExpr::Equals(l, r) => BinaryExpr::Equals(
                Box::new((**l).clone()),
                Box::new((**r).clone()),
            ),
            BinaryExpr::NotEquals(l, r) => BinaryExpr::NotEquals(
                Box::new((**l).clone()),
                Box::new((**r).clone()),
            ),
            BinaryExpr::Greater(l, r) => BinaryExpr::Greater(
                Box::new((**l).clone()),
                Box::new((**r).clone()),
            ),
            BinaryExpr::GreaterEqual(l, r) => BinaryExpr::GreaterEqual(
                Box::new((**l).clone()),
                Box::new((**r).clone()),
            ),
            BinaryExpr::Less(l, r) => BinaryExpr::Less(
                Box::new((**l).clone()),
                Box::new((**r).clone()),
            ),
            BinaryExpr::LessEqual(l, r) => BinaryExpr::LessEqual(
                Box::new((**l).clone()),
                Box::new((**r).clone()),
            ),
            BinaryExpr::Add(l, r) => BinaryExpr::Add(
                Box::new((**l).clone()),
                Box::new((**r).clone()),
            ),
            BinaryExpr::Subtract(l, r) => BinaryExpr::Subtract(
                Box::new((**l).clone()),
                Box::new((**r).clone()),
            ),
            BinaryExpr::Multiply(l, r) => BinaryExpr::Multiply(
                Box::new((**l).clone()),
                Box::new((**r).clone()),
            ),
            BinaryExpr::Divide(l, r) => BinaryExpr::Divide(
                Box::new((**l).clone()),
                Box::new((**r).clone()),
            ),
            BinaryExpr::Modulo(l, r) => BinaryExpr::Modulo(
                Box::new((**l).clone()),
                Box::new((**r).clone()),
            ),
        }
    }
}

impl Clone for UnaryExpr {
    /// A structural copy; nothing is claimed of it in contracts.
    fn clone(&self) -> (r: Self)
        decreases self,
    {
        match self {
            UnaryExpr::Not(v) => UnaryExpr::Not(Box::new((**v).clone())),
            UnaryExpr::Minus(v) => UnaryExpr::Minus(Box::new((**v).clone())),
            UnaryExpr::Plus(v) => UnaryExpr::Plus(Box::new((**v).clone())),
        }
    }
}

// ------------------------------------------------------------------
// The text each node prints as.
// ------------------------------------------------------------------

/// The bare text of a literal: string and character contents unquoted.
pub open spec fn spec_lit_display(l: Literal) -> Seq<char> {
    match l {
        Literal::String(s) => s@,
        Literal::Char(c) => seq![c],
        Literal::Float(t) => t@,
        Literal::Int(v) => dec_digits(v as nat),
    }
}

/// The source text of a literal: strings and characters carry their
/// quotes (contents are not escaped).
pub open spec fn spec_lit_source(l: Literal) -> Seq<char> {
    match l {
        Literal::String(s) => seq!['"'] + s@ + seq!['"'],
        Literal::Char(c) => seq!['\''] + seq![c] + seq!['\''],
        Literal::Float(t) => t@,
        Literal::Int(v) => dec_digits(v as nat),
    }
}

/// The operator word of a binary expression.
pub open spec fn spec_binop_text(b: BinaryExpr) -> Seq<char> {
    match b {
        BinaryExpr::And(_, _) => seq!['&', '&'],
        BinaryExpr::Or(_, _) => seq!['|', '|'],
        BinaryExpr::Equals(_, _) => seq!['=', '='],
        BinaryExpr::NotEquals(_, _) => seq!['!', '='],
        BinaryExpr::Greater(_, _) => seq!['>'],
        BinaryExpr::GreaterEqual(_, _) => seq!['>', '='],
        BinaryExpr::Less(_, _) => seq!['<'],
        BinaryExpr::LessEqual(_, _) => seq!['<', '='],
        BinaryExpr::Add(_, _) => seq!['+'],
        BinaryExpr::Subtract(_, _) => seq!['-'],
        BinaryExpr::Multiply(_, _) => seq!['*'],
        BinaryExpr::Divide(_, _) => seq!['/'],
        BinaryExpr::Modulo(_, _) => seq!['%'],
    }
}

/// The two operands of a binary expression.
pub open spec fn spec_binop_operands(b: BinaryExpr) -> (ExprBox, ExprBox) {
    match b {
        BinaryExpr::And(l, r) => (l, r),
        BinaryExpr::Or(l, r) => (l, r),
        BinaryExpr::Equals(l, r) => (l, r),
        BinaryExpr::NotEquals(l, r) => (l, r),
        BinaryExpr::Greater(l, r) => (l, r),
        BinaryExpr::GreaterEqual(l, r) => (l, r),
        BinaryExpr::Less(l, r) => (l, r),
        BinaryExpr::LessEqual(l, r) => (l, r),
        BinaryExpr::Add(l, r) => (l, r),
        BinaryExpr::Subtract(l, r) => (l, r),
        BinaryExpr::Multiply(l, r) => (l, r),
        BinaryExpr::Divide(l, r) => (l, r),
        BinaryExpr::Modulo(l, r) => (l, r),
    }
}

/// The text of an expression.
pub open spec fn spec_expr_text(e: Expr) -> Seq<char>
    decreases e,
{
    match e {
        Expr::Binary(b) => {
            let (l, r) = spec_binop_operands(b);
            seq!['('] + spec_expr_text(*l) + seq![' '] + spec_binop_text(b) + seq![' ']
                + spec_expr_text(*r) + seq![')']
        },
        Expr::Unary(u) => match u {
            UnaryExpr::Not(v) => seq!['(', '!'] + spec_expr_text(*v) + seq![')'],
            UnaryExpr::Minus(v) => seq!['(', '-'] + spec_expr_text(*v) + seq![')'],
            UnaryExpr::Plus(v) => seq!['(', '+'] + spec_expr_text(*v) + seq![')'],
        },
        Expr::Literal(l) => spec_lit_source(l),
        Expr::Identifier(name) => name@,
        Expr::Call { name, args } => name@ + seq!['('] + spec_args_text(args@) + seq![')'],
        Expr::Grouping(inner) => seq!['('] + spec_expr_text(*inner) + seq![')'],
    }
}

/// Call arguments from position `i` on, separated by commas.
pub open spec fn spec_args_from(args: Seq<Expr>, i: int) -> Seq<char>
    decreases args, args.len() - i,
{
    if i < 0 || i >= args.len() {
        Seq::empty()
    } else if i == args.len() - 1 {
        spec_expr_text(args[i])
    } else {
        spec_expr_text(args[i]) + seq![',', ' '] + spec_args_from(args, i + 1)
    }
}

/// All call arguments, separated by commas.
pub open spec fn spec_args_text(args: Seq<Expr>) -> Seq<char>
    decreases args, args.len() + 1,
{
    spec_args_from(args, 0)
}

/// The text of a type annotation.
pub open spec fn spec_type_text(t: Type) -> Seq<char> {
    match t {
        Type::Int => seq!['i', 'n', 't'],
        Type::Float => seq!['f', 'l', 'o', 'a', 't'],
        Type::String => seq!['s', 't', 'r', 'i', 'n', 'g'],
        Type::Char => seq!['c', 'h', 'a', 'r'],
        Type::Custom(name) => name@,
    }
}

/// The text of a statement.
pub open spec fn spec_stmt_text(s: Stmt) -> Seq<char>
    decreases s,
{
    match s {
        Stmt::Expression(e) => spec_expr_text(e) + seq![';'],
        Stmt::VarDecl { name, ty, value } => {
            let head = match ty {
                Some(t) => t@ + seq![' '] + name@,
                None => name@,
            };
            let init = match value {
                Some(v) => seq![' ', '=', ' '] + spec_expr_text(v),
                None => Seq::empty(),
            };
            head + init + seq![';']
        },
        Stmt::Assignment { name, value } => name@ + seq![' ', '=', ' '] + spec_expr_text(value)
            + seq![';'],
        Stmt::Return(e) => {
            let tail = match e {
                Some(v) => seq![' '] + spec_expr_text(v),
                None => Seq::empty(),
            };
            seq!['r', 'e', 't', 'u', 'r', 'n'] + tail + seq![';']
        },
        Stmt::If { condition, then_branch, else_branch } => {
            let head = seq!['i', 'f', ' ', '('] + spec_expr_text(condition) + seq![')', ' ']
                + spec_stmt_text(*then_branch);
            match else_branch {
                Some(eb) => head + seq![' ', 'e', 'l', 's', 'e', ' '] + spec_stmt_text(*eb),
                None => head,
            }
        },
        Stmt::While { condition, body } => seq!['w', 'h', 'i', 'l', 'e', ' ', '(']
            + spec_expr_text(condition) + seq![')', ' '] + spec_stmt_text(*body),
        Stmt::For { var_name, var_type, iterable, body } => {
            let ty = match var_type {
                Some(t) => t@ + seq![' '],
                None => Seq::empty(),
            };
            seq!['f', 'o', 'r', ' ', '('] + ty + var_name@ + seq![' ', 'i', 'n', ' ']
                + spec_expr_text(iterable) + seq![')', ' '] + spec_stmt_text(*body)
        },
        Stmt::Block(stmts) => seq!['{', '\n'] + spec_block_body(stmts@) + seq!['}'],
        Stmt::Break => seq!['b', 'r', 'e', 'a', 'k', ';'],
        Stmt::Continue => seq!['c', 'o', 'n', 't', 'i', 'n', 'u', 'e', ';'],
    }
}

/// The lines of a block from position `i` on: each statement indented and
/// on its own line.
pub open spec fn spec_block_from(stmts: Seq<Stmt>, i: int) -> Seq<char>
    decreases stmts, stmts.len() - i,
{
    if i < 0 || i >= stmts.len() {
        Seq::empty()
    } else {
        seq![' ', ' ', ' ', ' '] + spec_stmt_text(stmts[i]) + seq!['\n'] + spec_block_from(
            stmts,
            i + 1,
        )
    }
}

/// The lines of a block: each statement indented and on its own line.
pub open spec fn spec_block_body(stmts: Seq<Stmt>) -> Seq<char>
    decreases stmts, stmts.len() + 1,
{
    spec_block_from(stmts, 0)
}

/// The text of a parameter: type, space, name.
pub open spec fn spec_param_text(p: Parameter) -> Seq<char> {
    spec_type_text(p.ty) + seq![' '] + p.name@
}

/// Parameters from position `i` on, separated by commas.
pub open spec fn spec_params_from(ps: Seq<Parameter>, i: int) -> Seq<char>
    decreases ps.len() - i,
{
    if i < 0 || i >= ps.len() {
        Seq::empty()
    } else if i == ps.len() - 1 {
        spec_param_text(ps[i])
    } else {
        spec_param_text(ps[i]) + seq![',', ' '] + spec_params_from(ps, i + 1)
    }
}

/// All parameters, separated by commas.
pub open spec fn spec_params_text(ps: Seq<Parameter>) -> Seq<char> {
    spec_params_from(ps, 0)
}

/// The text of a function: optional return type, name, parameter list,
/// body.
pub open spec fn spec_function_text(f: Function) -> Seq<char> {
    let head = match f.return_type {
        Some(t) => spec_type_text(t) + seq![' '],
        None => Seq::empty(),
    };
    head + f.name@ + seq!['('] + spec_params_text(f.parameters@) + seq![')', ' ']
        + spec_stmt_text(f.body)
}

/// The text of a whole program: functions separated by blank lines, each
/// ending with a line break.
pub open spec fn spec_ast_program_text(fs: Seq<Function>) -> Seq<char> {
    spec_ast_program_from(fs, 0)
}

/// Functions from position `i` on: every function but the first is
/// preceded by a blank line, and each ends with a line break.
pub open spec fn spec_ast_program_from(fs: Seq<Function>, i: int) -> Seq<char>
    decreases fs.len() - i,
{
    if i < 0 || i >= fs.len() {
        Seq::empty()
    } else {
        let sep: Seq<char> = if i > 0 {
            seq!['\n']
        } else {
            Seq::empty()
        };
        sep + spec_function_text(fs[i]) + seq!['\n'] + spec_ast_program_from(fs, i + 1)
    }
}

} // verus!
