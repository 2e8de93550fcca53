//! The pretty-printer of the abstract syntax tree.  Every method returns
//! exactly the text of the corresponding specification function in
//! `ast`.

use vstd::prelude::*;

use crate::ast::{
    spec_args_from, spec_args_text, spec_ast_program_from, spec_ast_program_text,
    spec_binop_operands, spec_binop_text, spec_block_from, spec_block_body, spec_expr_text,
    spec_function_text, spec_lit_display, spec_lit_source, spec_param_text, spec_params_from,
    spec_stmt_text, spec_type_text, BinaryExpr, Expr, Function, Literal, Parameter, Program,
    Stmt, Type, UnaryExpr,
};
use crate::text::{append_chars, chars_to_string, str_to_chars, u64_to_dec};

verus! {

/// Appends the characters of a runtime string.
fn push_str_chars(buf: &mut Vec<char>, s: &String)
    ensures
        final(buf)@ == old(buf)@ + s@,
{
    let cs = str_to_chars(s.as_str());
    append_chars(buf, &cs);
}

/// Appends the bare text of a literal.
fn push_lit_display(buf: &mut Vec<char>, l: &Literal)
    ensures
        final(buf)@ == old(buf)@ + spec_lit_display(*l),
{
    match l {
        Literal::String(s) => push_str_chars(buf, s),
        Literal::Char(c) => {
            buf.push(*c);
            proof {
                assert(old(buf)@.push(*c) =~= old(buf)@ + seq![*c]);
            }
        },
        Literal::Float(t) => push_str_chars(buf, t),
        Literal::Int(v) => {
            let ds = u64_to_dec(*v as u64);
            append_chars(buf, &ds);
        },
    }
}

/// Appends the source text of a literal (strings and characters quoted).
fn push_lit_source(buf: &mut Vec<char>, l: &Literal)
    ensures
        final(buf)@ == old(buf)@ + spec_lit_source(*l),
{
    match l {
        Literal::String(s) => {
            buf.push('"');
            push_str_chars(buf, s);
            buf.push('"');
            proof {
                assert(buf@ =~= old(buf)@ + spec_lit_source(*l));
            }
        },
        Literal::Char(c) => {
            buf.push('\'');
            buf.push(*c);
            buf.push('\'');
            proof {
                assert(buf@ =~= old(buf)@ + spec_lit_source(*l));
            }
        },
        Literal::Float(t) => push_str_chars(buf, t),
        Literal::Int(v) => {
            let ds = u64_to_dec(*v as u64);
            append_chars(buf, &ds);
        },
    }
}

/// Appends the operator word of a binary expression.
fn push_binop(buf: &mut Vec<char>, b: &BinaryExpr)
    ensures
        final(buf)@ == old(buf)@ + spec_binop_text(*b),
{
    let w: Vec<char> = match b {
        BinaryExpr::And(_, _) => vec!['&', '&'],
        BinaryExpr::Or(_, _) => vec!['|', '|'],
        BinaryExpr::Equals(_, _) => vec!['=', '='],
        BinaryExpr::NotEquals(_, _) => vec!['!', '='],
        BinaryExpr::Greater(_, _) => vec!['>'],
        BinaryExpr::GreaterEqual(_, _) => vec!['>', '='],
        BinaryExpr::Less(_, _) => vec!['<'],
        BinaryExpr::LessEqual(_, _) => vec!['<', '='],
        BinaryExpr::Add(_, _) => vec!['+'],
        BinaryExpr::Subtract(_, _) => vec!['-'],
        BinaryExpr::Multiply(_, _) => vec!['*'],
        BinaryExpr::Divide(_, _) => vec!['/'],
        BinaryExpr::Modulo(_, _) => vec!['%'],
    };
    proof {
        assert(w@ =~= spec_binop_text(*b));
    }
    append_chars(buf, &w);
}

/// Appends the text of an expression.
fn push_expr(buf: &mut Vec<char>, e: &Expr)
    ensures
        final(buf)@ == old(buf)@ + spec_expr_text(*e),
    decreases *e, 1int,
{
    match e {
        Expr::Binary(b) => {
            let (l, r) = binop_operands(b);
            proof {
                assert(decreases_to!(*e => *b));
            }
            buf.push('(');
            push_expr(buf, l);
            buf.push(' ');
            push_binop(buf, b);
            buf.push(' ');
            push_expr(buf, r);
            buf.push(')');
            proof {
                assert(buf@ =~= old(buf)@ + spec_expr_text(*e));
            }
        },
        Expr::Unary(u) => {
            buf.push('(');
            match u {
                UnaryExpr::Not(v) => {
                    buf.push('!');
                    push_expr(buf, v);
                },
                UnaryExpr::Minus(v) => {
                    buf.push('-');
                    push_expr(buf, v);
                },
                UnaryExpr::Plus(v) => {
                    buf.push('+');
                    push_expr(buf, v);
                },
            }
            buf.push(')');
            proof {
                assert(buf@ =~= old(buf)@ + spec_expr_text(*e));
            }
        },
        Expr::Literal(l) => push_lit_source(buf, l),
        Expr::Identifier(name) => push_str_chars(buf, name),
        Expr::Call { name, args } => {
            push_str_chars(buf, name);
            buf.push('(');
            push_args_from(buf, args, 0);
            buf.push(')');
            proof {
                assert(spec_args_text(args@) == spec_args_from(args@, 0));
                assert(spec_expr_text(*e) == name@ + seq!['('] + spec_args_text(args@)
                    + seq![')']);
                assert(buf@ =~= old(buf)@ + spec_expr_text(*e));
            }
        },
        Expr::Grouping(inner) => {
            buf.push('(');
            push_expr(buf, inner);
            buf.push(')');
            proof {
                assert(buf@ =~= old(buf)@ + spec_expr_text(*e));
            }
        },
    }
}

/// The two operands of a binary expression.
fn binop_operands<'x>(b: &'x BinaryExpr) -> (r: (&'x Expr, &'x Expr))
    ensures
        (*r.0, *r.1) == ((*spec_binop_operands(*b).0), (*spec_binop_operands(*b).1)),
        decreases_to!(*b => *r.0),
        decreases_to!(*b => *r.1),
{
    match b {
        BinaryExpr::And(l, r) => (l, r),
        BinaryExpr::Or(l, r) => (l, r),
        BinaryExpr::Equals(l, r) => (l, r),
        BinaryExpr::NotEquals(l, r) => (l, r),
        BinaryExpr::Greater(l, r) => (l, r),
        BinaryExpr::GreaterEqual(l, r) => (l, r),
        BinaryExpr::Less(l, r) => (l, r),
        BinaryExpr::LessEqual(l, r) => (l, r),
        BinaryExpr::Add(l, r) => (l, r),
        BinaryExpr::Subtract(l, r) => (l, r),
        BinaryExpr::Multiply(l, r) => (l, r),
        BinaryExpr::Divide(l, r) => (l, r),
        BinaryExpr::Modulo(l, r) => (l, r),
    }
}

/// Appends the call arguments from position `i` on.
fn push_args_from(buf: &mut Vec<char>, args: &Vec<Expr>, i: usize)
    requires
        i <= args@.len(),
    ensures
        final(buf)@ == old(buf)@ + spec_args_from(args@, i as int),
    decreases *args, 0int, args@.len() - i,
{
    if i < args.len() {
        proof {
            assert(decreases_to!(*args => args@));
            assert(decreases_to!(args@ => args@[i as int]));
        }
        push_expr(buf, &args[i]);
        if i + 1 < args.len() {
            buf.push(',');
            buf.push(' ');
            push_args_from(buf, args, i + 1);
            proof {
                assert(buf@ =~= old(buf)@ + spec_args_from(args@, i as int));
            }
        }
    }
}

/// Appends the text of a type annotation.
fn push_type(buf: &mut Vec<char>, t: &Type)
    ensures
        final(buf)@ == old(buf)@ + spec_type_text(*t),
{
    match t {
        Type::Int => {
            let w = vec!['i', 'n', 't'];
            proof {
                assert(w@ =~= spec_type_text(*t));
            }
            append_chars(buf, &w);
        },
        Type::Float => {
            let w = vec!['f', 'l', 'o', 'a', 't'];
            proof {
                assert(w@ =~= spec_type_text(*t));
            }
            append_chars(buf, &w);
        },
        Type::String => {
            let w = vec!['s', 't', 'r', 'i', 'n', 'g'];
            proof {
                assert(w@ =~= spec_type_text(*t));
            }
            append_chars(buf, &w);
        },
        Type::Char => {
            let w = vec!['c', 'h', 'a', 'r'];
            proof {
                assert(w@ =~= spec_type_text(*t));
            }
            append_chars(buf, &w);
        },
        Type::Custom(name) => push_str_chars(buf, name),
    }
}

/// Appends the text of a statement.
#[verifier::rlimit(50)]
fn push_stmt(buf: &mut Vec<char>, s: &Stmt)
    ensures
        final(buf)@ == old(buf)@ + spec_stmt_text(*s),
    decreases *s, 1int,
{
    match s {
        Stmt::Expression(e) => {
            push_expr(buf, e);
            buf.push(';');
            proof {
                assert(buf@ =~= old(buf)@ + spec_stmt_text(*s));
            }
        },
        Stmt::VarDecl { name, ty, value } => {
            match ty {
                Some(t) => {
                    push_str_chars(buf, t);
                    buf.push(' ');
                    push_str_chars(buf, name);
                },
                None => {
                    push_str_chars(buf, name);
                },
            }
            match value {
                Some(v) => {
                    buf.push(' ');
                    buf.push('=');
                    buf.push(' ');
                    push_expr(buf, v);
                },
                None => {},
            }
            buf.push(';');
            proof {
                assert(buf@ =~= old(buf)@ + spec_stmt_text(*s));
            }
        },
        Stmt::Assignment { name, value } => {
            push_str_chars(buf, name);
            buf.push(' ');
            buf.push('=');
            buf.push(' ');
            push_expr(buf, value);
            buf.push(';');
            proof {
                assert(buf@ =~= old(buf)@ + spec_stmt_text(*s));
            }
        },
        Stmt::Return(e) => {
            let w = vec!['r', 'e', 't', 'u', 'r', 'n'];
            proof {
                assert(w@ =~= seq!['r', 'e', 't', 'u', 'r', 'n']);
            }
            append_chars(buf, &w);
            match e {
                Some(v) => {
                    buf.push(' ');
                    push_expr(buf, v);
                },
                None => {},
            }
            buf.push(';');
            proof {
                assert(buf@ =~= old(buf)@ + spec_stmt_text(*s));
            }
        },
        Stmt::If { condition, then_branch, else_branch } => {
            let w = vec!['i', 'f', ' ', '('];
            proof {
                assert(w@ =~= seq!['i', 'f', ' ', '(']);
            }
            append_chars(buf, &w);
            push_expr(buf, condition);
            buf.push(')');
            buf.push(' ');
            push_stmt(buf, then_branch);
            match else_branch {
                Some(eb) => {
                    let w2 = vec![' ', 'e', 'l', 's', 'e', ' '];
                    proof {
                        assert(w2@ =~= seq![' ', 'e', 'l', 's', 'e', ' ']);
                        assert(decreases_to!(*s => *eb));
                    }
                    append_chars(buf, &w2);
                    push_stmt(buf, eb);
                },
                None => {},
            }
            proof {
                assert(buf@ =~= old(buf)@ + spec_stmt_text(*s));
            }
        },
        Stmt::While { condition, body } => {
            let w = vec!['w', 'h', 'i', 'l', 'e', ' ', '('];
            proof {
                assert(w@ =~= seq!['w', 'h', 'i', 'l', 'e', ' ', '(']);
            }
            append_chars(buf, &w);
            push_expr(buf, condition);
            buf.push(')');
            buf.push(' ');
            push_stmt(buf, body);
            proof {
                assert(buf@ =~= old(buf)@ + spec_stmt_text(*s));
            }
        },
        Stmt::For { var_name, var_type, iterable, body } => {
            let w = vec!['f', 'o', 'r', ' ', '('];
            proof {
                assert(w@ =~= seq!['f', 'o', 'r', ' ', '(']);
            }
            append_chars(buf, &w);
            match var_type {
                Some(t) => {
                    push_str_chars(buf, t);
                    buf.push(' ');
                },
                None => {},
            }
            push_str_chars(buf, var_name);
            let w2 = vec![' ', 'i', 'n', ' '];
            proof {
                assert(w2@ =~= seq![' ', 'i', 'n', ' ']);
            }
            append_chars(buf, &w2);
            push_expr(buf, iterable);
            buf.push(')');
            buf.push(' ');
            push_stmt(buf, body);
            proof {
                assert(buf@ =~= old(buf)@ + spec_stmt_text(*s));
            }
        },
        Stmt::Block(stmts) => {
            buf.push('{');
            buf.push('\n');
            push_block_from(buf, stmts, 0);
            buf.push('}');
            proof {
                assert(spec_block_body(stmts@) == spec_block_from(stmts@, 0));
                assert(spec_stmt_text(*s) == seq!['{', '\n'] + spec_block_body(stmts@)
                    + seq!['}']);
                assert(buf@ =~= old(buf)@ + spec_stmt_text(*s));
            }
        },
        Stmt::Break => {
            let w = vec!['b', 'r', 'e', 'a', 'k', ';'];
            proof {
                assert(w@ =~= seq!['b', 'r', 'e', 'a', 'k', ';']);
            }
            append_chars(buf, &w);
        },
        Stmt::Continue => {
            let w = vec!['c', 'o', 'n', 't', 'i', 'n', 'u', 'e', ';'];
            proof {
                assert(w@ =~= seq!['c', 'o', 'n', 't', 'i', 'n', 'u', 'e', ';']);
            }
            append_chars(buf, &w);
        },
    }
}

/// Appends the block lines from position `i` on.
fn push_block_from(buf: &mut Vec<char>, stmts: &Vec<Stmt>, i: usize)
    requires
        i <= stmts@.len(),
    ensures
        final(buf)@ == old(buf)@ + spec_block_from(stmts@, i as int),
    decreases *stmts, 0int, stmts@.len() - i,
{
    if i < stmts.len() {
        proof {
            assert(decreases_to!(*stmts => stmts@));
            assert(decreases_to!(stmts@ => stmts@[i as int]));
        }
        let w = vec![' ', ' ', ' ', ' '];
        proof {
            assert(w@ =~= seq![' ', ' ', ' ', ' ']);
        }
        append_chars(buf, &w);
        push_stmt(buf, &stmts[i]);
        buf.push('\n');
        push_block_from(buf, stmts, i + 1);
        proof {
            assert(buf@ =~= old(buf)@ + spec_block_from(stmts@, i as int));
        }
    }
}

/// Appends the text of a parameter.
fn push_param(buf: &mut Vec<char>, p: &Parameter)
    ensures
        final(buf)@ == old(buf)@ + spec_param_text(*p),
{
    push_type(buf, &p.ty);
    buf.push(' ');
    push_str_chars(buf, &p.name);
    proof {
        assert(buf@ =~= old(buf)@ + spec_param_text(*p));
    }
}

/// Appends the parameters from position `i` on.
fn push_params_from(buf: &mut Vec<char>, ps: &Vec<Parameter>, i: usize)
    requires
        i <= ps@.len(),
    ensures
        final(buf)@ == old(buf)@ + spec_params_from(ps@, i as int),
    decreases ps@.len() - i,
{
    if i < ps.len() {
        push_param(buf, &ps[i]);
        if i + 1 < ps.len() {
            buf.push(',');
            buf.push(' ');
            push_params_from(buf, ps, i + 1);
            proof {
                assert(buf@ =~= old(buf)@ + spec_params_from(ps@, i as int));
            }
        }
    }
}

/// Appends the text of a function.
fn push_function(buf: &mut Vec<char>, f: &Function)
    ensures
        final(buf)@ == old(buf)@ + spec_function_text(*f),
{
    match &f.return_type {
        Some(t) => {
            push_type(buf, t);
            buf.push(' ');
        },
        None => {},
    }
    push_str_chars(buf, &f.name);
    buf.push('(');
    push_params_from(buf, &f.parameters, 0);
    buf.push(')');
    buf.push(' ');
    push_stmt(buf, &f.body);
    proof {
        assert(buf@ =~= old(buf)@ + spec_function_text(*f));
    }
}

/// Appends the functions from position `i` on.
fn push_program_from(buf: &mut Vec<char>, fs: &Vec<Function>, i: usize)
    requires
        i <= fs@.len(),
    ensures
        final(buf)@ == old(buf)@ + spec_ast_program_from(fs@, i as int),
    decreases fs@.len() - i,
{
    if i < fs.len() {
        if i > 0 {
            buf.push('\n');
        }
        push_function(buf, &fs[i]);
        buf.push('\n');
        push_program_from(buf, fs, i + 1);
        proof {
            assert(buf@ =~= old(buf)@ + spec_ast_program_from(fs@, i as int));
        }
    }
}

impl Literal {
    /// The bare text of the literal: contents without quotes.
    pub fn display_text(&self) -> (r: String)
        ensures
            r@ == spec_lit_display(*self),
    {
        let mut buf: Vec<char> = Vec::new();
        push_lit_display(&mut buf, self);
        chars_to_string(&buf)
    }

    /// The source text of the literal: strings and characters quoted.
    pub fn to_text(&self) -> (r: String)
        ensures
            r@ == spec_lit_source(*self),
    {
        let mut buf: Vec<char> = Vec::new();
        push_lit_source(&mut buf, self);
        chars_to_string(&buf)
    }
}

impl Expr {
    /// The text of the expression, fully parenthesized.
    pub fn to_text(&self) -> (r: String)
        ensures
            r@ == spec_expr_text(*self),
    {
        let mut buf: Vec<char> = Vec::new();
        push_expr(&mut buf, self);
        chars_to_string(&buf)
    }
}

impl Type {
    /// The text of the type annotation.
    pub fn to_text(&self) -> (r: String)
        ensures
            r@ == spec_type_text(*self),
    {
        let mut buf: Vec<char> = Vec::new();
        push_type(&mut buf, self);
        chars_to_string(&buf)
    }
}

impl Stmt {
    /// The text of the statement.
    pub fn to_text(&self) -> (r: String)
        ensures
            r@ == spec_stmt_text(*self),
    {
        let mut buf: Vec<char> = Vec::new();
        push_stmt(&mut buf, self);
        chars_to_string(&buf)
    }
}

impl Parameter {
    /// The text of the parameter.
    pub fn to_text(&self) -> (r: String)
        ensures
            r@ == spec_param_text(*self),
    {
        let mut buf: Vec<char> = Vec::new();
        push_param(&mut buf, self);
        chars_to_string(&buf)
    }
}

impl Function {
    /// The text of the function.
    pub fn to_text(&self) -> (r: String)
        ensures
            r@ == spec_function_text(*self),
    {
        let mut buf: Vec<char> = Vec::new();
        push_function(&mut buf, self);
        chars_to_string(&buf)
    }
}

impl Program {
    /// The text of the whole program.
    pub fn to_text(&self) -> (r: String)
        ensures
            r@ == spec_ast_program_text(self.functions@),
    {
        let mut buf: Vec<char> = Vec::new();
        push_program_from(&mut buf, &self.functions, 0);
        chars_to_string(&buf)
    }
}

} // verus!
