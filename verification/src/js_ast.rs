//! The part of a JavaScript syntax tree that console-call removal reads and
//! rewrites, together with its mathematical view.
use vstd::prelude::*;

verus! {

/// An identifier with the syntax context that its name was resolved in.
pub struct Ident {
    pub sym: String,
    pub ctxt: u32,
}

/// The property of a member expression: `a.b`, `a.#b` or `a[e]`.
pub enum MemberProp {
    Ident(Ident),
    PrivateName(String),
    Computed(Box<Expr>),
}

/// `obj.prop`
pub struct MemberExpr {
    pub obj: Box<Expr>,
    pub prop: MemberProp,
}

/// What a call calls: `super(..)`, `import(..)` or an expression.
pub enum Callee {
    Super,
    Import,
    Expr(Box<Expr>),
}

/// `callee(args..)`
pub struct CallExpr {
    pub callee: Callee,
    pub args: Vec<Expr>,
}

/// Expressions. `Function` stands for a function or arrow function with
/// its body; `Lit` for a literal by its source text. `Compound` stands for
/// every other expression that has parts, named by its kind, with its
/// sub-expressions in source order: unary, binary, logical, assignment,
/// conditional, sequence, array, object, `new`, template, `await`,
/// `yield`, and class expressions, whose methods, accessors and
/// constructors are `Function` parts and whose initializers are further
/// parts. `Other` stands for an expression without parts (`this`, ...).
pub enum Expr {
    Ident(Ident),
    Member(MemberExpr),
    Call(CallExpr),
    Function(Vec<Stmt>),
    Lit(String),
    Compound(String, Vec<Expr>),
    Other,
}

/// Statements and module items. `Compound` stands for every other
/// statement or module item that has parts, named by its kind, with its
/// expressions and its statement lists in source order: loops (a body that
/// is a single statement is a list of one), `switch` (one list per case),
/// `try` (block, handler, finalizer), labeled statements, `throw`,
/// variable, function and class declarations, and import and export
/// items. `Other` stands for a statement without parts (`break`, ...).
pub enum Stmt {
    Expr(Box<Expr>),
    Block(Vec<Stmt>),
    If(Box<Expr>, Box<Stmt>, Option<Box<Stmt>>),
    Return(Option<Box<Expr>>),
    Empty,
    Compound(String, Vec<Expr>, Vec<Vec<Stmt>>),
    Other,
}

/// A module: its top-level items in order.
pub struct Program {
    pub body: Vec<Stmt>,
}

// ---------------------------------------------------------------------------
// Mathematical view
// ---------------------------------------------------------------------------

pub struct IdentV {
    pub sym: Seq<char>,
    pub ctxt: u32,
}

pub enum MemberPropV {
    Ident(IdentV),
    PrivateName(Seq<char>),
    Computed(Box<ExprV>),
}

pub enum CalleeV {
    Super,
    Import,
    Expr(Box<ExprV>),
}

pub enum ExprV {
    Ident(IdentV),
    Member(Box<ExprV>, MemberPropV),
    Call(CalleeV, Seq<ExprV>),
    Function(Seq<StmtV>),
    Lit(Seq<char>),
    Compound(Seq<char>, Seq<ExprV>),
    Other,
}

pub enum StmtV {
    Expr(Box<ExprV>),
    Block(Seq<StmtV>),
    If(Box<ExprV>, Box<StmtV>, Option<Box<StmtV>>),
    Return(Option<Box<ExprV>>),
    Empty,
    Compound(Seq<char>, Seq<ExprV>, Seq<Seq<StmtV>>),
    Other,
}

pub open spec fn ident_view(i: Ident) -> IdentV {
    IdentV { sym: i.sym@, ctxt: i.ctxt }
}

pub open spec fn expr_view(e: Expr) -> ExprV
    decreases e,
{
    match e {
        Expr::Ident(i) => ExprV::Ident(ident_view(i)),
        Expr::Member(m) => ExprV::Member(Box::new(expr_view(*m.obj)), prop_view(m.prop)),
        Expr::Call(c) => ExprV::Call(callee_view(c.callee), exprs_view(c.args)),
        Expr::Function(body) => ExprV::Function(stmts_view(body)),
        Expr::Lit(s) => ExprV::Lit(s@),
        Expr::Compound(k, xs) => ExprV::Compound(k@, exprs_view(xs)),
        Expr::Other => ExprV::Other,
    }
}

pub open spec fn prop_view(p: MemberProp) -> MemberPropV
    decreases p,
{
    match p {
        MemberProp::Ident(i) => MemberPropV::Ident(ident_view(i)),
        MemberProp::PrivateName(s) => MemberPropV::PrivateName(s@),
        MemberProp::Computed(e) => MemberPropV::Computed(Box::new(expr_view(*e))),
    }
}

pub open spec fn callee_view(c: Callee) -> CalleeV
    decreases c,
{
    match c {
        Callee::Super => CalleeV::Super,
        Callee::Import => CalleeV::Import,
        Callee::Expr(e) => CalleeV::Expr(Box::new(expr_view(*e))),
    }
}

pub open spec fn exprs_view(v: Vec<Expr>) -> Seq<ExprV>
    decreases v,
{
    Seq::new(
        v@.len(),
        |i: int|
            if 0 <= i < v@.len() {
                expr_view(v@[i])
            } else {
                ExprV::Other
            },
    )
}

pub open spec fn stmt_view(s: Stmt) -> StmtV
    decreases s,
{
    match s {
        Stmt::Expr(e) => StmtV::Expr(Box::new(expr_view(*e))),
        Stmt::Block(v) => StmtV::Block(stmts_view(v)),
        Stmt::If(t, c, a) => StmtV::If(
            Box::new(expr_view(*t)),
            Box::new(stmt_view(*c)),
            opt_stmt_view(a),
        ),
        Stmt::Return(e) => StmtV::Return(opt_expr_view(e)),
        Stmt::Empty => StmtV::Empty,
        Stmt::Compound(k, xs, bs) => StmtV::Compound(k@, exprs_view(xs), blocks_view(bs)),
        Stmt::Other => StmtV::Other,
    }
}

pub open spec fn opt_stmt_view(a: Option<Box<Stmt>>) -> Option<Box<StmtV>>
    decreases a,
{
    match a {
        Some(b) => Some(Box::new(stmt_view(*b))),
        None => None,
    }
}

pub open spec fn opt_expr_view(a: Option<Box<Expr>>) -> Option<Box<ExprV>>
    decreases a,
{
    match a {
        Some(b) => Some(Box::new(expr_view(*b))),
        None => None,
    }
}

pub open spec fn stmts_view(v: Vec<Stmt>) -> Seq<StmtV>
    decreases v,
{
    Seq::new(
        v@.len(),
        |i: int|
            if 0 <= i < v@.len() {
                stmt_view(v@[i])
            } else {
                StmtV::Other
            },
    )
}

pub open spec fn blocks_view(v: Vec<Vec<Stmt>>) -> Seq<Seq<StmtV>>
    decreases v,
{
    Seq::new(
        v@.len(),
        |i: int|
            if 0 <= i < v@.len() {
                stmts_view(v@[i])
            } else {
                Seq::empty()
            },
    )
}

impl View for Stmt {
    type V = StmtV;

    open spec fn view(&self) -> StmtV {
        stmt_view(*self)
    }
}

impl View for Expr {
    type V = ExprV;

    open spec fn view(&self) -> ExprV {
        expr_view(*self)
    }
}

impl View for Program {
    type V = Seq<StmtV>;

    open spec fn view(&self) -> Seq<StmtV> {
        stmts_view(self.body)
    }
}

} // verus!
